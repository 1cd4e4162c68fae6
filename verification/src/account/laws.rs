//! What holds of the local account.

use vstd::prelude::*;

use crate::account::{
    LocalAgentWorkerConfig, device_id_of, display_name_of, is_plain, or_unknown, plain, sanitized,
    user_id_of, username_from,
};
use crate::text::{decimal, is_blank, trimmed};

verus! {

/// A name that is already plain and neither begins nor ends with a hyphen is kept as it is.
pub proof fn law_plain_names_are_kept(value: Seq<char>)
    requires
        value.len() > 0,
        forall|i: int| 0 <= i < value.len() ==> is_plain(#[trigger] value[i]),
        value[0] != '-',
        value.last() != '-',
    ensures
        sanitized(value) == value,
        user_id_of(value) == "local-user-"@ + value,
        device_id_of(value) == "local-device-"@ + value,
{
    assert(value.map_values(|c: char| plain(c)) =~= value);
}

/// Letters, digits, hyphens, underscores and dots are plain; anything else becomes a hyphen.
pub proof fn law_other_characters_become_hyphens(before: Seq<char>, c: char, after: Seq<char>)
    requires
        before.len() > 0,
        after.len() > 0,
        forall|i: int| 0 <= i < before.len() ==> is_plain(#[trigger] before[i]),
        forall|i: int| 0 <= i < after.len() ==> is_plain(#[trigger] after[i]),
        before[0] != '-',
        after.last() != '-',
        !is_plain(c),
    ensures
        sanitized(before + seq![c] + after) == before + seq!['-'] + after,
        !('a' <= c <= 'z' || 'A' <= c <= 'Z' || '0' <= c <= '9' || c == '-' || c == '_' || c
            == '.'),
{
    let whole = before + seq![c] + after;
    assert(whole.map_values(|c: char| plain(c)) =~= before + seq!['-'] + after);
}

/// The user is who the environment says, asked in this order; blank names tell nothing.
pub proof fn law_users_are_named(
    user: Option<Seq<char>>,
    logname: Option<Seq<char>>,
    username: Option<Seq<char>>,
    name: Seq<char>,
)
    requires
        !is_blank(name),
    ensures
        user == Some(name) ==> username_from(user, logname, username) == trimmed(name),
        user is None && logname == Some(name) ==> username_from(user, logname, username) == trimmed(
            name,
        ),
        user is None && logname is None && username == Some(name) ==> username_from(
            user,
            logname,
            username,
        ) == trimmed(name),
        user is None && logname is None && username is None ==> username_from(
            user,
            logname,
            username,
        ) == "unknown"@,
        or_unknown(Some(name)) == trimmed(name),
        or_unknown(None) == "unknown"@,
        display_name_of(name, trimmed(name)) == name + "@"@ + trimmed(name),
{
}

/// A worker listens where the configuration says, on this machine alone where it says nothing, and
/// asks for the token that the configuration sets.
pub proof fn law_workers_listen_where_they_should(config: LocalAgentWorkerConfig)
    ensures
        !is_blank(config.bind@) ==> config.address() == trimmed(config.bind@) + ":"@ + decimal(
            config.port as nat,
        ),
        is_blank(config.bind@) ==> config.address() == "127.0.0.1"@ + ":"@ + decimal(
            config.port as nat,
        ),
        config.pairing_token is None ==> config.token() is None,
        config.pairing_token matches Some(token) ==> (!is_blank(token@) ==> config.token() == Some(
            trimmed(token@),
        )),
        config.pairing_token matches Some(token) ==> (is_blank(token@) ==> config.token() is None),
{
}

} // verus!
