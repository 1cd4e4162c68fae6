//! Who this machine is: the account of its user, and how it lets other machines work on it.

use vstd::prelude::*;

pub mod laws;

use crate::agent_api::requests::is_local_id;
use crate::ids::new_id_text;
use crate::text::{
    decimal, is_blank, lemma_trimmed_twice, nonblank, opt_text, push_decimal, same, trim_nonblank,
    trimmed,
};

verus! {

/// The account of this machine's user.
#[derive(Debug)]
pub struct LocalAccount {
    pub user_id: String,
    pub device_id: String,
    pub display_name: String,
    pub id_token: String,
    pub refresh_token: String,
    pub custom_token: String,
}

/// The mathematical content of a [`LocalAccount`].
#[verifier::ext_equal]
pub ghost struct AccountView {
    pub user_id: Seq<char>,
    pub device_id: Seq<char>,
    pub display_name: Seq<char>,
    pub id_token: Seq<char>,
    pub refresh_token: Seq<char>,
    pub custom_token: Seq<char>,
}

impl View for LocalAccount {
    type V = AccountView;

    open spec fn view(&self) -> AccountView {
        AccountView {
            user_id: self.user_id@,
            device_id: self.device_id@,
            display_name: self.display_name@,
            id_token: self.id_token@,
            refresh_token: self.refresh_token@,
            custom_token: self.custom_token@,
        }
    }
}

impl Clone for LocalAccount {
    fn clone(&self) -> (copy: Self)
        ensures
            copy@ == self@,
    {
        LocalAccount {
            user_id: self.user_id.clone(),
            device_id: self.device_id.clone(),
            display_name: self.display_name.clone(),
            id_token: self.id_token.clone(),
            refresh_token: self.refresh_token.clone(),
            custom_token: self.custom_token.clone(),
        }
    }
}

/// The characters that identifiers keep.
pub open spec fn is_plain(c: char) -> bool {
    ('a' <= c <= 'z') || ('A' <= c <= 'Z') || ('0' <= c <= '9') || c == '-' || c == '_' || c == '.'
}

pub open spec fn plain(c: char) -> char {
    if is_plain(c) {
        c
    } else {
        '-'
    }
}

pub open spec fn without_start_hyphens(s: Seq<char>) -> Seq<char>
    decreases s.len(),
{
    if s.len() > 0 && s[0] == '-' {
        without_start_hyphens(s.skip(1))
    } else {
        s
    }
}

pub open spec fn without_end_hyphens(s: Seq<char>) -> Seq<char>
    decreases s.len(),
{
    if s.len() > 0 && s.last() == '-' {
        without_end_hyphens(s.drop_last())
    } else {
        s
    }
}

/// A text as a part of an identifier.
pub open spec fn sanitized(value: Seq<char>) -> Seq<char> {
    let kept = without_end_hyphens(
        without_start_hyphens(value.map_values(|c: char| plain(c))),
    );
    if kept.len() == 0 {
        "unknown"@
    } else {
        kept
    }
}

fn plain_char(c: char) -> (out: char)
    ensures
        out == plain(c),
{
    if ('a' <= c && c <= 'z') || ('A' <= c && c <= 'Z') || ('0' <= c && c <= '9') || c == '-' || c
        == '_' || c == '.' {
        c
    } else {
        '-'
    }
}

/// A text as a part of an identifier.
pub fn sanitize_identifier(value: &str) -> (out: String)
    ensures
        out@ == sanitized(value@),
{
    let ghost all = value@.map_values(|c: char| plain(c));
    let mut text = String::new();
    for c in it: value.chars()
        invariant
            it.seq() == value@,
            all == value@.map_values(|c: char| plain(c)),
            text@ == all.take(it.index()),
    {
        assert(all.take(it.index() + 1) =~= all.take(it.index()).push(all[it.index()]));
        text.push(plain_char(c));
    }
    assert(all.take(all.len() as int) =~= all);
    let text = text.as_str();
    let len: usize = text.unicode_len();
    let mut start: usize = 0;
    assert(all.skip(0) =~= all);
    while start < len && text.get_char(start) == '-'
        invariant
            start <= len == text@.len(),
            text@ == all,
            without_start_hyphens(all) == without_start_hyphens(all.skip(start as int)),
        decreases len - start,
    {
        assert(all.skip(start as int).skip(1) =~= all.skip(start + 1));
        start += 1;
    }
    let ghost rest = all.skip(start as int);
    let mut end: usize = len;
    assert(rest.take(end - start) =~= rest);
    while end > start && text.get_char(end - 1) == '-'
        invariant
            start <= end <= len == text@.len(),
            text@ == all,
            rest == all.skip(start as int),
            without_end_hyphens(rest) == without_end_hyphens(rest.take(end - start)),
        decreases end,
    {
        assert(rest.take(end - start).drop_last() =~= rest.take(end - start - 1));
        end -= 1;
    }
    let kept = text.substring_char(start, end);
    assert(kept@ =~= rest.take(end - start));
    if kept.is_empty() {
        "unknown".to_owned()
    } else {
        kept.to_owned()
    }
}

proof fn lemma_start_hyphens(s: Seq<char>)
    ensures
        without_start_hyphens(s).len() <= s.len(),
        without_start_hyphens(s) == s.skip(s.len() - without_start_hyphens(s).len()),
        without_start_hyphens(s).len() > 0 ==> without_start_hyphens(s)[0] != '-',
    decreases s.len(),
{
    if s.len() > 0 && s[0] == '-' {
        lemma_start_hyphens(s.skip(1));
        let rest = without_start_hyphens(s.skip(1));
        assert(s.skip(1).skip(s.len() - 1 - rest.len()) =~= s.skip(s.len() - rest.len()));
    } else {
        assert(s.skip(0) =~= s);
    }
}

proof fn lemma_end_hyphens(s: Seq<char>)
    ensures
        without_end_hyphens(s).len() <= s.len(),
        without_end_hyphens(s) == s.take(without_end_hyphens(s).len() as int),
        without_end_hyphens(s).len() > 0 ==> without_end_hyphens(s).last() != '-',
    decreases s.len(),
{
    if s.len() > 0 && s.last() == '-' {
        lemma_end_hyphens(s.drop_last());
        let rest = without_end_hyphens(s.drop_last());
        assert(s.drop_last().take(rest.len() as int) =~= s.take(rest.len() as int));
    } else {
        assert(s.take(s.len() as int) =~= s);
    }
}

/// A part of an identifier is never empty, holds plain characters only and neither begins nor ends
/// with a hyphen.
pub proof fn law_identifiers_are_plain(value: Seq<char>)
    ensures
        sanitized(value).len() > 0,
        forall|i: int| 0 <= i < sanitized(value).len() ==> is_plain(#[trigger] sanitized(value)[i]),
        sanitized(value)[0] != '-',
        sanitized(value).last() != '-',
{
    reveal_strlit("unknown");
    let all = value.map_values(|c: char| plain(c));
    let rest = without_start_hyphens(all);
    let kept = without_end_hyphens(rest);
    lemma_start_hyphens(all);
    lemma_end_hyphens(rest);
    assert forall|i: int| 0 <= i < kept.len() implies is_plain(#[trigger] kept[i]) by {
        assert(kept[i] == all[all.len() - rest.len() + i]);
    }
}

pub open spec fn or_unknown(name: Option<Seq<char>>) -> Seq<char> {
    match name {
        Some(name) => match nonblank(name) {
            Some(name) => name,
            None => "unknown"@,
        },
        None => "unknown"@,
    }
}

fn name_or_unknown(name: Option<&str>) -> (out: String)
    ensures
        out@ == or_unknown(
            match name {
                Some(name) => Some(name@),
                None => None,
            },
        ),
{
    if let Some(name) = name {
        if let Some(name) = trim_nonblank(name) {
            return name;
        }
    }
    "unknown".to_owned()
}

/// The name of the user, from the first of three settings of the environment that is there.
pub open spec fn username_from(
    user: Option<Seq<char>>,
    logname: Option<Seq<char>>,
    username: Option<Seq<char>>,
) -> Seq<char> {
    or_unknown(
        if user is Some {
            user
        } else if logname is Some {
            logname
        } else {
            username
        },
    )
}

pub open spec fn opt_str(s: Option<&str>) -> Option<Seq<char>> {
    match s {
        Some(s) => Some(s@),
        None => None,
    }
}

/// The name of the user, from the environment's `USER`, `LOGNAME` and `USERNAME`.
pub fn local_username(user: Option<&str>, logname: Option<&str>, username: Option<&str>) -> (name:
    String)
    ensures
        name@ == username_from(opt_str(user), opt_str(logname), opt_str(username)),
{
    if user.is_some() {
        name_or_unknown(user)
    } else if logname.is_some() {
        name_or_unknown(logname)
    } else {
        name_or_unknown(username)
    }
}

/// `gethostname::gethostname` gives the name of the machine, if it is a text. Nothing is known of
/// it.
#[verifier::external_body]
fn machine_name() -> Option<String> {
    gethostname::gethostname().into_string().ok()
}

/// The name of the machine, as it was found.
pub fn hostname_from(name: Option<&str>) -> (out: String)
    ensures
        out@ == or_unknown(opt_str(name)),
{
    name_or_unknown(name)
}

/// The name of the machine.
pub fn local_hostname() -> (name: String)
    ensures
        exists|found: Option<Seq<char>>| name@ == #[trigger] or_unknown(found),
        !is_blank(name@),
        trimmed(name@) == name@,
{
    let found = machine_name();
    let out = match &found {
        Some(name) => hostname_from(Some(name.as_str())),
        None => hostname_from(None),
    };
    proof {
        let seen = opt_text(found);
        assert(out@ == or_unknown(seen));
        reveal_strlit("unknown");
        assert(trimmed("unknown"@) == "unknown"@);
        if let Some(name) = seen {
            lemma_trimmed_twice(name);
        }
    }
    out
}

pub open spec fn user_id_of(username: Seq<char>) -> Seq<char> {
    "local-user-"@ + sanitized(username)
}

pub open spec fn device_id_of(hostname: Seq<char>) -> Seq<char> {
    "local-device-"@ + sanitized(hostname)
}

pub open spec fn display_name_of(username: Seq<char>, hostname: Seq<char>) -> Seq<char> {
    username + "@"@ + hostname
}

pub fn local_user_id(username: &str) -> (id: String)
    ensures
        id@ == user_id_of(username@),
{
    let mut id = "local-user-".to_owned();
    id.append(sanitize_identifier(username).as_str());
    id
}

pub fn local_device_id(hostname: &str) -> (id: String)
    ensures
        id@ == device_id_of(hostname@),
{
    let mut id = "local-device-".to_owned();
    id.append(sanitize_identifier(hostname).as_str());
    id
}

pub fn local_display_name(username: &str, hostname: &str) -> (name: String)
    ensures
        name@ == display_name_of(username@, hostname@),
{
    let mut name = username.to_owned();
    name.append("@");
    name.append(hostname);
    name
}

fn new_token(prefix: &str) -> (token: String)
    ensures
        is_local_id(token@, prefix@),
{
    let mut token = prefix.to_owned();
    token.append(new_id_text().as_str());
    token
}

impl LocalAccount {
    /// A new account for the user of a machine.
    pub fn create(username: &str, hostname: &str) -> (account: Self)
        ensures
            account.user_id@ == user_id_of(username@),
            account.device_id@ == device_id_of(hostname@),
            account.display_name@ == display_name_of(username@, hostname@),
            is_local_id(account.id_token@, "local-id-token-"@),
            is_local_id(account.refresh_token@, "local-refresh-token-"@),
            is_local_id(account.custom_token@, "local-custom-token-"@),
    {
        LocalAccount {
            user_id: local_user_id(username),
            device_id: local_device_id(hostname),
            display_name: local_display_name(username, hostname),
            id_token: new_token("local-id-token-"),
            refresh_token: new_token("local-refresh-token-"),
            custom_token: new_token("local-custom-token-"),
        }
    }

    /// Brings the account up to date with the user and the machine; whether that changed it.
    pub fn sync_local_identity(&mut self, username: &str, hostname: &str) -> (changed: bool)
        ensures
            final(self)@ == (AccountView {
                user_id: user_id_of(username@),
                device_id: device_id_of(hostname@),
                display_name: display_name_of(username@, hostname@),
                ..old(self)@
            }),
            changed == (final(self)@ != old(self)@),
    {
        let user_id = local_user_id(username);
        let device_id = local_device_id(hostname);
        let display_name = local_display_name(username, hostname);
        let changed = !same(self.user_id.as_str(), user_id.as_str()) || !same(
            self.device_id.as_str(),
            device_id.as_str(),
        ) || !same(self.display_name.as_str(), display_name.as_str());
        if changed {
            self.user_id = user_id;
            self.device_id = device_id;
            self.display_name = display_name;
        }
        changed
    }
}

/// Another machine that the user has named.
#[derive(Debug)]
pub struct LocalAgentPeerConfig {
    pub name: Option<String>,
    pub device_id: Option<String>,
    pub user_id: Option<String>,
    pub hostname: Option<String>,
    pub url: String,
}

/// How this machine lets other machines work on it.
#[derive(Debug)]
pub struct LocalAgentWorkerConfig {
    pub enabled: bool,
    pub bind: String,
    pub port: u16,
    pub pairing_token: Option<String>,
    pub peers: Vec<LocalAgentPeerConfig>,
}

impl Default for LocalAgentWorkerConfig {
    fn default() -> (config: Self)
        ensures
            !config.enabled,
            config.bind@ == "127.0.0.1"@,
            config.port == 0,
            config.pairing_token is None,
            config.peers@.len() == 0,
    {
        LocalAgentWorkerConfig {
            enabled: false,
            bind: default_agent_worker_bind(),
            port: 0,
            pairing_token: None,
            peers: Vec::new(),
        }
    }
}

pub fn default_agent_worker_bind() -> (bind: String)
    ensures
        bind@ == "127.0.0.1"@,
{
    "127.0.0.1".to_owned()
}

impl LocalAgentWorkerConfig {
    /// The address that the worker listens on, as a text.
    pub open spec fn address(&self) -> Seq<char> {
        let host = match nonblank(self.bind@) {
            Some(bind) => bind,
            None => "127.0.0.1"@,
        };
        host + ":"@ + decimal(self.port as nat)
    }

    /// The token that other machines must show. Without one, none of them is let in.
    pub open spec fn token(&self) -> Option<Seq<char>> {
        match self.pairing_token {
            Some(token) => nonblank(token@),
            None => None,
        }
    }

    /// The address that the worker listens on, as a text.
    pub fn bind_addr(&self) -> (address: String)
        ensures
            address@ == self.address(),
    {
        let mut address = match trim_nonblank(self.bind.as_str()) {
            Some(bind) => bind,
            None => default_agent_worker_bind(),
        };
        address.append(":");
        push_decimal(&mut address, self.port as u64);
        address
    }

    pub fn port(&self) -> (port: u16)
        ensures
            port == self.port,
    {
        self.port
    }

    /// The token that other machines must show. Without one, none of them is let in.
    pub fn required_token(&self) -> (token: Option<String>)
        ensures
            opt_text(token) == self.token(),
    {
        match &self.pairing_token {
            Some(token) => trim_nonblank(token.as_str()),
            None => None,
        }
    }
}

/// How other machines can show who they are; without a token there is no way.
pub fn worker_auth(config: &LocalAgentWorkerConfig) -> (auth: &'static str)
    ensures
        auth@ == if config.token() is Some {
            "pairing-token-v1"@
        } else {
            "none"@
        },
{
    if config.required_token().is_some() {
        "pairing-token-v1"
    } else {
        "none"
    }
}

} // verus!
