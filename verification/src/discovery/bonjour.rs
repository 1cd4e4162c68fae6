//! Finding other machines by what they announce on the network.

use vstd::prelude::*;

use crate::account::{LocalAccount, LocalAgentWorkerConfig, sanitize_identifier, sanitized, worker_auth};
use crate::discovery::probe::{PeerAddress, address_url, host_part};
use crate::discovery::workers::{
    DiscoveredWorker, WorkerStore, WorkerView, default_capabilities, usual_capabilities,
};
use crate::text::{
    decimal, ends_with, first_char, is_before, same, split_once, text_before, texts, trim,
    trimmed,
};

verus! {

/// An address that a service was found at.
#[derive(Debug)]
pub struct ServiceAddress {
    pub address: PeerAddress,
    pub is_loopback: bool,
    pub is_unspecified: bool,
}

/// A service that was found, with what it tells of itself.
#[derive(Debug)]
pub struct ResolvedService {
    pub fullname: String,
    pub hostname: String,
    pub port: u16,
    pub addresses: Vec<ServiceAddress>,
    pub device_id: Option<String>,
    pub user_id: Option<String>,
    pub display_name: Option<String>,
    pub capabilities: Option<String>,
    pub auth: Option<String>,
}

/// What happens on the network.
#[derive(Debug)]
pub enum ServiceEvent {
    Resolved(ResolvedService),
    Removed { fullname: String },
    Other,
}

/// The parts of a text between commas.
pub open spec fn comma_parts(s: Seq<char>) -> Seq<Seq<char>>
    decreases s.len(),
{
    match first_char(s, ',') {
        Some(at) => if 0 <= at < s.len() {
            seq![s.take(at)] + comma_parts(s.skip(at + 1))
        } else {
            seq![s]
        },
        None => seq![s],
    }
}

/// The parts that say something.
pub open spec fn nonblank_parts(parts: Seq<Seq<char>>) -> Seq<Seq<char>>
    decreases parts.len(),
{
    if parts.len() == 0 {
        seq![]
    } else {
        let rest = nonblank_parts(parts.skip(1));
        if trimmed(parts[0]).len() == 0 {
            rest
        } else {
            seq![trimmed(parts[0])] + rest
        }
    }
}

proof fn lemma_first_char(s: Seq<char>, c: char)
    ensures
        first_char(s, c) matches Some(at) ==> 0 <= at < s.len() && s[at] == c,
    decreases s.len(),
{
    if s.len() > 0 {
        lemma_first_char(s.drop_last(), c);
    }
}

fn add_part(parts: &mut Vec<String>, part: &str)
    ensures
        texts(final(parts)@) == if trimmed(part@).len() == 0 {
            texts(old(parts)@)
        } else {
            texts(old(parts)@).push(trimmed(part@))
        },
{
    let part = trim(part);
    if !part.is_empty() {
        let ghost before = texts(parts@);
        parts.push(part.to_owned());
        assert(texts(parts@) =~= before.push(part@));
    }
}

/// What a machine can do, from a list with commas.
pub fn parse_capabilities(value: &str) -> (list: Vec<String>)
    ensures
        texts(list@) == nonblank_parts(comma_parts(value@)),
{
    let ghost all = nonblank_parts(comma_parts(value@));
    let mut list: Vec<String> = Vec::new();
    let mut rest = value.to_owned();
    assert(texts(list@) + nonblank_parts(comma_parts(rest@)) =~= all);
    loop
        invariant_except_break
            all == nonblank_parts(comma_parts(value@)),
            texts(list@) + nonblank_parts(comma_parts(rest@)) == all,
        ensures
            texts(list@) == all,
        decreases rest@.len(),
    {
        let ghost before = texts(list@);
        let ghost text = rest@;
        proof {
            lemma_first_char(text, ',');
        }
        match split_once(rest.as_str(), ',') {
            Some((part, behind)) => {
                add_part(&mut list, part.as_str());
                proof {
                    let parts = comma_parts(text);
                    assert(parts[0] == part@);
                    assert(parts.skip(1) =~= comma_parts(behind@));
                    assert(texts(list@) + nonblank_parts(comma_parts(behind@)) =~= all);
                }
                rest = behind;
            },
            None => {
                add_part(&mut list, rest.as_str());
                proof {
                    let parts = comma_parts(text);
                    assert(parts.skip(1) =~= seq![]);
                    assert(nonblank_parts(parts.skip(1)) =~= seq![]);
                    assert(texts(list@) =~= all);
                }
                break;
            },
        }
    }
    list
}

/// Whether an address is preferred to another: loopback addresses come last, those of the older
/// protocol come first, and else their texts decide.
pub open spec fn reached_rather(a: ServiceAddress, b: ServiceAddress) -> bool {
    if a.is_loopback != b.is_loopback {
        b.is_loopback
    } else {
        crate::discovery::probe::preferred(a.address, b.address)
    }
}

/// Whether the address at `at` is a real one and none is preferred to it.
pub open spec fn is_best_service(addresses: Seq<ServiceAddress>, at: int) -> bool {
    &&& 0 <= at < addresses.len()
    &&& !addresses[at].is_unspecified
    &&& forall|i: int|
        0 <= i < addresses.len() && !(#[trigger] addresses[i]).is_unspecified ==> !reached_rather(
            addresses[i],
            addresses[at],
        )
}

fn is_reached_rather(a: &ServiceAddress, b: &ServiceAddress) -> (yes: bool)
    ensures
        yes == reached_rather(*a, *b),
{
    if a.is_loopback != b.is_loopback {
        b.is_loopback
    } else if a.address.is_v4 == b.address.is_v4 {
        is_before(a.address.text.as_str(), b.address.text.as_str())
    } else {
        a.address.is_v4
    }
}

proof fn lemma_reached_transitive(a: ServiceAddress, b: ServiceAddress, c: ServiceAddress)
    requires
        reached_rather(a, b),
        reached_rather(b, c),
    ensures
        reached_rather(a, c),
{
    if text_before(a.address.text@, b.address.text@) && text_before(
        b.address.text@,
        c.address.text@,
    ) {
        crate::text::lemma_order_transitive(a.address.text@, b.address.text@, c.address.text@);
    }
}

/// The web address of a service, `None` where it has no real address.
pub fn worker_url_from_service(service: &ResolvedService) -> (url: Option<String>)
    ensures
        match url {
            Some(url) => exists|at: int|
                #![trigger service.addresses@[at]]
                is_best_service(service.addresses@, at) && url@ == "http://"@ + host_part(
                    service.addresses@[at].address,
                ) + ":"@ + decimal(service.port as nat),
            None => forall|i: int|
                0 <= i < service.addresses@.len() ==> (
                #[trigger] service.addresses@[i]).is_unspecified,
        },
{
    let addresses = &service.addresses;
    let mut best: Option<usize> = None;
    let mut i: usize = 0;
    while i < addresses.len()
        invariant
            i <= addresses.len(),
            match best {
                Some(best) => best < i && !addresses@[best as int].is_unspecified && forall|j: int|
                    0 <= j < i && !(#[trigger] addresses@[j]).is_unspecified ==> !reached_rather(
                        addresses@[j],
                        addresses@[best as int],
                    ),
                None => forall|j: int|
                    0 <= j < i ==> (#[trigger] addresses@[j]).is_unspecified,
            },
        decreases addresses.len() - i,
    {
        if !addresses[i].is_unspecified {
            let better = match best {
                Some(best) => is_reached_rather(&addresses[i], &addresses[best]),
                None => true,
            };
            if better {
                proof {
                    let new = addresses@[i as int];
                    crate::text::lemma_order_strict(new.address.text@);
                    assert forall|j: int|
                        0 <= j < i + 1 && !(
                        #[trigger] addresses@[j]).is_unspecified implies !reached_rather(
                        addresses@[j],
                        new,
                    ) by {
                        if reached_rather(addresses@[j], new) && j < i {
                            lemma_reached_transitive(
                                addresses@[j],
                                new,
                                addresses@[best->0 as int],
                            );
                        }
                    }
                }
                best = Some(i);
            }
        }
        i += 1;
    }
    match best {
        Some(at) => {
            assert(is_best_service(service.addresses@, at as int));
            Some(address_url(&addresses[at].address, service.port))
        },
        None => None,
    }
}

pub open spec fn told_or(told: Option<String>, default: Seq<char>) -> Seq<char> {
    match told {
        Some(told) => told@,
        None => default,
    }
}

fn told_text(told: &Option<String>, default: &str) -> (out: String)
    ensures
        out@ == told_or(*told, default@),
{
    match told {
        Some(told) => told.clone(),
        None => default.to_owned(),
    }
}

/// What a service says it can do.
pub open spec fn announced_capabilities(told: Option<String>) -> Seq<Seq<char>> {
    match told {
        Some(told) => {
            let list = nonblank_parts(comma_parts(told@));
            if list.len() == 0 {
                usual_capabilities()
            } else {
                list
            }
        },
        None => usual_capabilities(),
    }
}

/// Whether a service is this machine, or cannot be reached.
pub open spec fn is_of_no_use(service: ResolvedService, own_device: Seq<char>) -> bool {
    told_or(service.device_id, service.fullname@) == own_device || forall|i: int|
        0 <= i < service.addresses@.len() ==> (#[trigger] service.addresses@[i]).is_unspecified
}

/// Whether `worker` is the machine that a service announces.
pub open spec fn is_announced(worker: WorkerView, service: ResolvedService, now: u64) -> bool {
    &&& worker == (WorkerView {
        source_id: service.fullname@,
        device_id: told_or(service.device_id, service.fullname@),
        user_id: told_or(service.user_id, "unknown"@),
        display_name: told_or(service.display_name, service.fullname@),
        hostname: service.hostname@,
        url: worker.url,
        capabilities: announced_capabilities(service.capabilities),
        auth: told_or(service.auth, "none"@),
        last_seen_epoch_millis: now,
    })
    &&& exists|at: int|
        #![trigger service.addresses@[at]]
        is_best_service(service.addresses@, at) && worker.url == "http://"@ + host_part(
            service.addresses@[at].address,
        ) + ":"@ + decimal(service.port as nat)
}

/// The machine that a service announces, `None` where it is this machine or cannot be reached.
pub fn discovered_worker_from_service(account: &LocalAccount, service: &ResolvedService, now: u64) -> (out:
    Option<DiscoveredWorker>)
    ensures
        match out {
            Some(worker) => !is_of_no_use(*service, account@.device_id) && is_announced(
                worker@,
                *service,
                now,
            ),
            None => is_of_no_use(*service, account@.device_id),
        },
{
    let device_id = told_text(&service.device_id, service.fullname.as_str());
    if same(device_id.as_str(), account.device_id.as_str()) {
        return None;
    }
    let url = match worker_url_from_service(service) {
        Some(url) => url,
        None => {
            return None;
        },
    };
    let mut capabilities = default_capabilities();
    if let Some(told) = &service.capabilities {
        let list = parse_capabilities(told.as_str());
        assert(texts(list@).len() == list@.len());
        if list.len() > 0 {
            capabilities = list;
        }
    }
    Some(
        DiscoveredWorker {
            source_id: service.fullname.clone(),
            device_id,
            user_id: told_text(&service.user_id, "unknown"),
            display_name: told_text(&service.display_name, service.fullname.as_str()),
            hostname: service.hostname.clone(),
            url,
            capabilities,
            auth: told_text(&service.auth, "none"),
            last_seen_epoch_millis: now,
        },
    )
}

/// Takes in what happens on the network.
pub fn handle_service_event(account: &LocalAccount, store: &mut WorkerStore, event: &ServiceEvent, now:
    u64)
    ensures
        match *event {
            ServiceEvent::Resolved(service) => if is_of_no_use(service, account@.device_id) {
                final(store)@ == old(store)@
            } else {
                exists|worker: WorkerView|
                    is_announced(worker, service, now) && final(store)@
                        == #[trigger] old(store)@.insert(worker.device_id, worker)
            },
            ServiceEvent::Removed { fullname } => final(store)@ == Map::<Seq<char>, WorkerView>::new(
                |id: Seq<char>|
                    old(store)@.contains_key(id) && old(store)@[id].source_id != fullname@,
                |id: Seq<char>| old(store)@[id],
            ),
            ServiceEvent::Other => final(store)@ == old(store)@,
        },
{
    match event {
        ServiceEvent::Resolved(service) => {
            if let Some(worker) = discovered_worker_from_service(account, service, now) {
                store.insert(worker);
            }
        },
        ServiceEvent::Removed { fullname } => {
            store.drop_source(fullname.as_str());
        },
        ServiceEvent::Other => {},
    }
}

/// The name under which a machine is announced.
pub open spec fn announced_host(hostname: Seq<char>) -> Seq<char> {
    let host = sanitized(hostname);
    if ".local"@.is_suffix_of(host) {
        host + "."@
    } else {
        host + ".local."@
    }
}

/// The name under which a machine is announced.
pub fn bonjour_host_name(hostname: &str) -> (name: String)
    ensures
        name@ == announced_host(hostname@),
{
    let mut name = sanitize_identifier(hostname);
    if ends_with(name.as_str(), ".local") {
        name.append(".");
    } else {
        name.append(".local.");
    }
    name
}

/// What a machine announces of itself.
#[derive(Debug)]
pub struct Announcement {
    pub instance_name: String,
    pub host_name: String,
    pub properties: Vec<(String, String)>,
}

/// The properties that a machine announces.
pub open spec fn announced_properties(
    account: crate::account::AccountView,
    hostname: Seq<char>,
    auth: Seq<char>,
) -> Seq<(Seq<char>, Seq<char>)> {
    Seq::empty().push(("version"@, "1"@)).push(("device_id"@, account.device_id)).push(
        ("user_id"@, account.user_id),
    ).push(("hostname"@, hostname)).push(("display_name"@, account.display_name)).push(
        ("app"@, "WarpSOLO"@),
    ).push(("api"@, "http"@)).push(("capabilities"@, "agent,terminal,workspace"@)).push(
        ("auth"@, auth),
    )
}

/// What this machine announces of its worker; nothing where it lets no other machine work on it, or
/// only this machine could reach it.
pub fn worker_announcement(
    account: &LocalAccount,
    config: &LocalAgentWorkerConfig,
    hostname: &str,
    is_loopback: bool,
) -> (out: Option<Announcement>)
    ensures
        out is None <==> !config.enabled || is_loopback,
        out matches Some(announcement) ==> {
            &&& announcement.instance_name@ == account@.device_id
            &&& announcement.host_name@ == announced_host(hostname@)
            &&& announcement.properties@.map_values(
                |pair: (String, String)| (pair.0@, pair.1@),
            ) == announced_properties(
                account@,
                hostname@,
                if config.token() is Some {
                    "pairing-token-v1"@
                } else {
                    "none"@
                },
            )
        },
{
    if !config.enabled || is_loopback {
        return None;
    }
    let auth = worker_auth(config);
    let mut properties: Vec<(String, String)> = Vec::new();
    properties.push(("version".to_owned(), "1".to_owned()));
    properties.push(("device_id".to_owned(), account.device_id.clone()));
    properties.push(("user_id".to_owned(), account.user_id.clone()));
    properties.push(("hostname".to_owned(), hostname.to_owned()));
    properties.push(("display_name".to_owned(), account.display_name.clone()));
    properties.push(("app".to_owned(), "WarpSOLO".to_owned()));
    properties.push(("api".to_owned(), "http".to_owned()));
    properties.push(("capabilities".to_owned(), "agent,terminal,workspace".to_owned()));
    properties.push(("auth".to_owned(), auth.to_owned()));
    assert(properties@.map_values(|pair: (String, String)| (pair.0@, pair.1@))
        =~= announced_properties(account@, hostname@, auth@));
    Some(
        Announcement {
            instance_name: account.device_id.clone(),
            host_name: bonjour_host_name(hostname),
            properties,
        },
    )
}

} // verus!
