//! The server that clients talk to.

use vstd::prelude::*;

use crate::text::{chars_of, find_at, first_from, lemma_first_from, occurs_at};

verus! {

/// The server that clients talk to, by its address.
#[derive(Debug)]
pub struct LoopbackServer {
    server_root_url: String,
}

impl View for LoopbackServer {
    type V = Seq<char>;

    closed spec fn view(&self) -> Seq<char> {
        self.server_root_url@
    }
}

/// An address with the scheme of sockets in the place of the first scheme of the web.
pub open spec fn socket_url(root: Seq<char>) -> Seq<char> {
    match first_from(root, "http://"@, 0) {
        Some(at) => root.take(at) + "ws://"@ + root.skip(at + 7),
        None => root,
    }
}

impl LoopbackServer {
    /// The server that listens on an address.
    pub fn listening_on(address: &str) -> (server: Self)
        ensures
            server@ == "http://"@ + address@,
    {
        let mut server_root_url = "http://".to_owned();
        server_root_url.append(address);
        LoopbackServer { server_root_url }
    }

    pub fn server_root_url(&self) -> (url: &str)
        ensures
            url@ == self@,
    {
        self.server_root_url.as_str()
    }

    /// Where sessions are shared.
    pub fn session_sharing_server_url(&self) -> (url: String)
        ensures
            url@ == socket_url(self@),
    {
        let root = self.server_root_url.as_str();
        proof {
            reveal_strlit("http://");
            lemma_first_from(root@, "http://"@, 0);
        }
        let chars = chars_of(root);
        let scheme = chars_of("http://");
        match find_at(&chars, &scheme, 0) {
            Some(at) => {
                assert(occurs_at(root@, "http://"@, at as int));
                assert(at + 7 <= chars.len());
                let before = root.substring_char(0, at);
                let after = root.substring_char(at + 7, chars.len());
                assert(before@ =~= root@.take(at as int));
                assert(after@ =~= root@.skip(at + 7));
                let mut url = before.to_owned();
                url.append("ws://");
                url.append(after);
                url
            },
            None => root.to_owned(),
        }
    }
}

/// Sessions are shared at the address on which the server listens.
pub proof fn law_sessions_are_shared_at_the_same_address(address: Seq<char>)
    ensures
        socket_url("http://"@ + address) == "ws://"@ + address,
{
    reveal_strlit("http://");
    let root = "http://"@ + address;
    assert(root.subrange(0, 7) =~= "http://"@);
    assert(occurs_at(root, "http://"@, 0));
    assert(root.take(0) + "ws://"@ + root.skip(7) =~= "ws://"@ + address);
}

} // verus!
