//! What holds of the machines that are found.

use vstd::prelude::*;

use crate::account::{AccountView, LocalAgentPeerConfig, sanitized};
use crate::chat::provider::without_slashes;
use crate::discovery::bonjour::{
    ResolvedService, announced_host, announced_properties, comma_parts, is_announced, is_of_no_use,
};
use crate::discovery::probe::{
    CandidateView, CapabilitiesReply, LocalIpv4Subnet, PeerAddress, TailscalePeer, WorkerHealth,
    addresses, candidate_at, dotted, first_of_each_url, host_part, is_contiguous, is_host_address,
    is_worker, network_candidates, peer_name, preferred, reachable, told_auth, told_capabilities,
    worth_scanning,
};
use crate::discovery::workers::{
    WorkerView, after_probes, found_sources, is_answer, static_worker, usual_capabilities,
    with_found, with_peers,
};
use crate::text::laws::law_joined_texts_stand_in_order;
use crate::text::{decimal, first_char, is_blank, joined, lowered, texts, trimmed};

verus! {

/// A machine that the configuration names is reached at the address that it gives, and is known by
/// what it says of itself. A machine without an address, and this one, are left out.
pub proof fn law_named_machines(own: Seq<char>, peer: LocalAgentPeerConfig, now: u64)
    ensures
        static_worker(own, peer, now) matches Some(worker) ==> {
            &&& worker.device_id != own
            &&& worker.url.len() > 0
            &&& worker.url == without_slashes(trimmed(peer.url@))
            &&& worker.source_id == "static:"@ + worker.device_id
            &&& peer.device_id matches Some(id) ==> (!is_blank(id@) ==> worker.device_id == trimmed(
                id@,
            ))
            &&& peer.name matches Some(name) ==> (!is_blank(name@) ==> worker.display_name
                == trimmed(name@))
            &&& peer.name is None ==> worker.display_name == worker.device_id
            &&& peer.hostname matches Some(name) ==> (!is_blank(name@) ==> worker.hostname
                == trimmed(name@))
            &&& peer.hostname is None ==> worker.hostname == worker.device_id
            &&& peer.user_id matches Some(id) ==> (!is_blank(id@) ==> worker.user_id == trimmed(
                id@,
            ))
            &&& peer.user_id is None ==> worker.user_id == "static-peer"@
            &&& worker.auth == "none"@
            &&& worker.last_seen_epoch_millis == now
        },
        peer.device_id matches Some(id) ==> (!is_blank(id@) && trimmed(id@) != own && !is_blank(
            peer.url@,
        ) && trimmed(peer.url@)[0] != '/' ==> static_worker(own, peer, now) is Some),
        peer.device_id matches Some(id) ==> (!is_blank(id@) && trimmed(id@) == own
            ==> static_worker(own, peer, now) is None),
{
    let url = trimmed(peer.url@);
    if url.len() > 0 && url[0] != '/' {
        lemma_without_slashes(url);
    }
}

proof fn lemma_without_slashes(url: Seq<char>)
    requires
        url.len() > 0,
        url[0] != '/',
    ensures
        without_slashes(url).len() > 0,
    decreases url.len(),
{
    if url.last() == '/' {
        lemma_without_slashes(url.drop_last());
    }
}

/// A machine that a probe finds is known from then on, as it was found last. This machine is not
/// taken for another, and what was known otherwise stays.
pub proof fn law_found_machines_are_known(
    store: Map<Seq<char>, WorkerView>,
    own: Seq<char>,
    found: Seq<WorkerView>,
    worker: WorkerView,
    other: Seq<char>,
)
    ensures
        worker.device_id != own ==> {
            let after = after_probes(store, own, found.push(worker));
            &&& after.contains_key(worker.device_id)
            &&& after[worker.device_id] == worker
        },
        store.contains_key(other) && !"probe:"@.is_prefix_of(store[other].source_id) && (forall|
            i: int,
        |
            0 <= i < found.len() ==> (#[trigger] found[i]).device_id != other) ==> {
            let after = after_probes(store, own, found);
            &&& after.contains_key(other)
            &&& after[other] == store[other]
        },
{
    let more = found.push(worker);
    assert(more.drop_last() =~= found);
    if worker.device_id != own {
        assert(found_sources(own, more).last() == worker.source_id);
        assert(found_sources(own, more).contains(worker.source_id));
    }
    if forall|i: int| 0 <= i < found.len() ==> (#[trigger] found[i]).device_id != other {
        lemma_others_stay(store, own, found, other);
    }
}

proof fn lemma_others_stay(
    store: Map<Seq<char>, WorkerView>,
    own: Seq<char>,
    found: Seq<WorkerView>,
    other: Seq<char>,
)
    requires
        forall|i: int| 0 <= i < found.len() ==> (#[trigger] found[i]).device_id != other,
    ensures
        with_found(store, own, found).contains_key(other) == store.contains_key(other),
        with_found(store, own, found)[other] == store[other],
    decreases found.len(),
{
    if found.len() > 0 {
        assert(found[found.len() - 1].device_id != other);
        assert forall|i: int| 0 <= i < found.drop_last().len() implies (
        #[trigger] found.drop_last()[i]).device_id != other by {
            assert(found.drop_last()[i] == found[i]);
        }
        lemma_others_stay(store, own, found.drop_last(), other);
    }
}

/// The machines that the configuration names are all known, the later one where two have one id.
pub proof fn law_named_machines_are_known(
    store: Map<Seq<char>, WorkerView>,
    own: Seq<char>,
    peers: Seq<LocalAgentPeerConfig>,
    peer: LocalAgentPeerConfig,
    now: u64,
)
    ensures
        static_worker(own, peer, now) matches Some(worker) ==> {
            let after = with_peers(store, own, peers.push(peer), now);
            &&& after.contains_key(worker.device_id)
            &&& after[worker.device_id] == worker
            &&& forall|id: Seq<char>|
                id != worker.device_id && with_peers(store, own, peers, now).contains_key(id)
                    ==> #[trigger] after.contains_key(id)
        },
        static_worker(own, peer, now) is None ==> with_peers(store, own, peers.push(peer), now)
            == with_peers(store, own, peers, now),
{
    assert(peers.push(peer).drop_last() =~= peers);
}

/// Who asks for a machine gets one that goes by that name: by its id, its name, its host or where
/// it was found. An empty name, and the name of the app itself, ask for no other machine.
pub proof fn law_machines_are_asked_for_by_name(
    store: Map<Seq<char>, WorkerView>,
    host: Seq<char>,
    found: Option<WorkerView>,
)
    requires
        is_answer(store, host, found),
    ensures
        is_blank(host) ==> found is None,
        lowered(trimmed(host)) == lowered("warp"@) ==> found is None,
        found matches Some(worker) ==> exists|id: Seq<char>|
            store.contains_key(id) && #[trigger] store[id] == worker,
        !is_blank(host) && lowered(trimmed(host)) != lowered("warp"@) ==> forall|id: Seq<char>|
            store.contains_key(id) && (lowered((#[trigger] store[id]).device_id) == lowered(
                trimmed(host),
            ) || lowered(store[id].display_name) == lowered(trimmed(host)) || lowered(
                store[id].hostname,
            ) == lowered(trimmed(host)) || lowered(store[id].source_id) == lowered(trimmed(host)))
                ==> found is Some,
{
    if let Some(worker) = found {
        let id = choose|id: Seq<char>| store.contains_key(id) && #[trigger] store[id] == worker;
        assert(store[id] == worker);
    } else if !is_blank(host) && lowered(trimmed(host)) != lowered("warp"@) {
        assert forall|id: Seq<char>| store.contains_key(id) implies !(
        #[trigger] store[id]).goes_by(trimmed(host)) by {
            assert(store.contains_value(store[id]));
        }
    }
}

/// An address in dots is its four bytes, the highest first.
pub proof fn law_dotted_addresses(a: u8, b: u8, c: u8, d: u8)
    ensures
        ({
            let addr = (a * 0x100_0000 + b * 0x1_0000 + c * 0x100 + d) as u32;
            &&& dotted(addr) == decimal(a as nat) + "."@ + decimal(b as nat) + "."@ + decimal(
                c as nat,
            ) + "."@ + decimal(d as nat)
            &&& is_host_address(addr) <==> a != 127 && !(a == 169 && b == 254) && !(224 <= a <= 239)
                && !(a == 255 && b == 255 && c == 255 && d == 255) && !(a == 0 && b == 0 && c == 0
                && d == 0)
        }),
{
    lemma_bytes(a as int, b as int, c as int, d as int);
    let addr = (a * 0x100_0000 + b * 0x1_0000 + c * 0x100 + d) as u32;
    assert(addr == a * 0x100_0000 + b * 0x1_0000 + c * 0x100 + d);
    assert(addr / 0x100_0000 == a);
    assert(addr / 0x1_0000 % 256 == b);
    assert(addr / 0x100 % 256 == c);
    assert(addr % 256 == d);
}

proof fn lemma_bytes(a: int, b: int, c: int, d: int)
    requires
        0 <= a < 256 && 0 <= b < 256 && 0 <= c < 256 && 0 <= d < 256,
    ensures
        ({
            let addr = a * 0x100_0000 + b * 0x1_0000 + c * 0x100 + d;
            &&& 0 <= addr < 0x1_0000_0000
            &&& addr / 0x100_0000 == a
            &&& addr / 0x1_0000 == 256 * a + b
            &&& addr / 0x1_0000 % 256 == b
            &&& addr / 0x100 == 0x1_0000 * a + 256 * b + c
            &&& addr / 0x100 % 256 == c
            &&& addr % 256 == d
        }),
{
    let addr = a * 0x100_0000 + b * 0x1_0000 + c * 0x100 + d;
    let low = b * 0x1_0000 + c * 0x100 + d;
    assert(addr == a * 0x100_0000 + low && 0 <= low < 0x100_0000);
    let lower = c * 0x100 + d;
    assert(addr == (256 * a + b) * 0x1_0000 + lower && 0 <= lower < 0x1_0000);
    assert(addr == (0x1_0000 * a + 256 * b + c) * 0x100 + d);
}

/// What is looked at in a network is each address between its lowest and its highest one, but for
/// this machine's own, and each once.
pub proof fn law_every_address_is_looked_at(low: int, high: int, own: u32, addr: u32)
    requires
        0 <= low,
        high <= 0x1_0000_0000,
    ensures
        addresses(low, high, own).contains(addr) <==> low <= addr < high && addr != own,
        forall|i: int|
            0 <= i < addresses(low, high, own).len() ==> low <= #[trigger] addresses(low, high, own)[i]
                < high,
        addresses(low, high, own).no_duplicates(),
    decreases high - low,
{
    let all = addresses(low, high, own);
    if high > low {
        law_every_address_is_looked_at(low, high - 1, own, addr);
        let before = addresses(low, high - 1, own);
        if high - 1 != own {
            assert(all.last() == high - 1);
            if before.contains(addr) {
                let i = before.index_of(addr);
                assert(all[i] == addr);
            }
            if addr == high - 1 {
                assert(all[all.len() - 1] == addr);
            }
            if all.contains(addr) && addr != high - 1 {
                let i = all.index_of(addr);
                assert(before[i] == addr);
            }
        }
    }
}

/// What is asked at an address: it by itself, at the port.
pub proof fn law_candidates(addr: u32, port: u16)
    ensures
        candidate_at(addr, port).source_id == "probe:local:"@ + dotted(addr),
        candidate_at(addr, port).hostname == dotted(addr),
        candidate_at(addr, port).url == "http://"@ + dotted(addr) + ":"@ + decimal(port as nat),
{
}

/// A network that this machine is in is looked at if its address is one that a machine can have and
/// its mask is one block of ones.
pub proof fn law_networks_worth_looking_at(interfaces: Seq<LocalIpv4Subnet>, subnet: LocalIpv4Subnet)
    ensures
        is_host_address(subnet.addr) && is_contiguous(subnet.mask) ==> worth_scanning(
            interfaces.push(subnet),
        ) == worth_scanning(interfaces).push(subnet),
        !is_host_address(subnet.addr) || !is_contiguous(subnet.mask) ==> worth_scanning(
            interfaces.push(subnet),
        ) == worth_scanning(interfaces),
        worth_scanning(seq![]).len() == 0,
{
    assert(interfaces.push(subnet).drop_last() =~= interfaces);
}

/// A small network is looked at as a whole, and of a large one the block of addresses that differ
/// from this machine's in the last byte alone.
pub proof fn law_blocks_that_are_looked_at(subnet: LocalIpv4Subnet)
    ensures
        subnet.hosts() <= 254 ==> subnet.lowest() == subnet.addr & subnet.mask && subnet.highest()
            == (subnet.addr & subnet.mask) | !subnet.mask,
        subnet.hosts() > 254 ==> subnet.lowest() == subnet.addr - subnet.addr % 256
            && subnet.highest() == subnet.lowest() + 255,
{
    let addr = subnet.addr;
    assert(addr & 0xffff_ff00 == addr - addr % 256) by (bit_vector);
    assert((addr & 0xffff_ff00) | !0xffff_ff00u32 == addr - addr % 256 + 255) by (bit_vector);
}

/// Every address of every network is a candidate.
pub proof fn law_networks_give_candidates(
    subnets: Seq<LocalIpv4Subnet>,
    subnet: LocalIpv4Subnet,
    at: int,
    port: u16,
)
    requires
        0 <= at < subnet.scanned().len(),
    ensures
        network_candidates(subnets, port).is_prefix_of(
            network_candidates(subnets.push(subnet), port),
        ),
        network_candidates(subnets.push(subnet), port).contains(
            candidate_at(subnet.scanned()[at], port),
        ),
{
    let before = network_candidates(subnets, port);
    let after = network_candidates(subnets.push(subnet), port);
    assert(subnets.push(subnet).drop_last() =~= subnets);
    assert(before =~= after.take(before.len() as int));
    assert(after[before.len() + at] == candidate_at(subnet.scanned()[at], port));
}

/// Every address that is a candidate is asked, once, as the first of its candidates says.
pub proof fn law_every_url_is_asked(candidates: Seq<CandidateView>, at: int)
    requires
        0 <= at < candidates.len(),
    ensures
        exists|i: int|
            0 <= i < first_of_each_url(candidates).len() && (#[trigger] first_of_each_url(
                candidates,
            )[i]).url == candidates[at].url,
    decreases candidates.len(),
{
    let before = first_of_each_url(candidates.drop_last());
    let all = first_of_each_url(candidates);
    if at == candidates.len() - 1 {
        if exists|i: int|
            0 <= i < before.len() && (#[trigger] before[i]).url == candidates.last().url {
            let i = choose|i: int|
                0 <= i < before.len() && (#[trigger] before[i]).url == candidates.last().url;
            assert(all[i].url == candidates[at].url);
        } else {
            assert(all[all.len() - 1].url == candidates[at].url);
        }
    } else {
        law_every_url_is_asked(candidates.drop_last(), at);
        let i = choose|i: int|
            0 <= i < before.len() && (#[trigger] before[i]).url == candidates.drop_last()[at].url;
        assert(all[i] == before[i]);
    }
}

/// A machine that is not known to be away and has an address is asked.
pub proof fn law_peers_are_asked(peers: Seq<TailscalePeer>, peer: TailscalePeer)
    ensures
        peer.online != Some(false) && peer.tailscale_ips@.len() > 0 ==> reachable(peers.push(peer))
            == reachable(peers).push(peer),
        peer.online == Some(false) || peer.tailscale_ips@.len() == 0 ==> reachable(peers.push(peer))
            == reachable(peers),
        reachable(seq![]).len() == 0,
{
    assert(peers.push(peer).drop_last() =~= peers);
}

/// Addresses of the older kind go first, and the others stand in brackets.
pub proof fn law_older_addresses_go_first(a: PeerAddress, b: PeerAddress)
    requires
        a.is_v4,
        !b.is_v4,
    ensures
        preferred(a, b),
        !preferred(b, a),
        host_part(a) == a.text@,
        host_part(b) == "["@ + b.text@ + "]"@,
{
}

/// A machine of the overlay network goes by its name there, without a dot at the end.
pub proof fn law_peers_go_by_their_names(peer: TailscalePeer, name: Seq<char>)
    requires
        name.len() > 0,
        name.last() != '.',
    ensures
        peer.dns_name matches Some(told) ==> (told@ == name || told@ == name.push('.')
            ==> peer_name(peer) == name),
        peer.dns_name is None ==> (peer.host_name matches Some(told) ==> (told@ == name
            ==> peer_name(peer) == name)),
        peer.dns_name is None && peer.host_name is None ==> peer_name(peer) == "tailscale-peer"@,
{
    assert(name.push('.').drop_last() =~= name);
    reveal_with_fuel(crate::discovery::probe::without_dots, 2);
    reveal_strlit("tailscale-peer");
    assert("tailscale-peer"@.last() == 'r');
}

/// Only what says that it is well and that it is this app is a worker. What it can do and which
/// token it asks for is as it says; one that says nothing can do the usual and asks for none.
pub proof fn law_workers_are_told_apart(health: WorkerHealth, reply: CapabilitiesReply)
    ensures
        is_worker(health, reply) ==> health.ok && lowered(health.app@) == lowered("WarpSOLO"@)
            && !(reply is Refused),
        health.ok && lowered(health.app@) == lowered("WarpSOLO"@) && !(reply is Refused)
            ==> is_worker(health, reply),
        reply matches CapabilitiesReply::Known(told) ==> {
            &&& told.capabilities matches Some(list) ==> (list@.len() > 0 ==> told_capabilities(
                reply,
            ) == texts(list@))
            &&& told.auth matches Some(auth) ==> told_auth(reply) == auth@
            &&& told.auth is None ==> told_auth(reply) == "none"@
        },
        reply is Missing ==> told_capabilities(reply) == seq!["agent"@, "terminal"@, "workspace"@]
            && told_auth(reply) == "none"@,
{
    assert(usual_capabilities() =~= seq!["agent"@, "terminal"@, "workspace"@]);
}

/// A list with commas between its parts has those parts: put together again they are the list, and
/// none of them holds a comma.
pub proof fn law_lists_are_taken_apart(s: Seq<char>)
    ensures
        comma_parts(s).len() > 0,
        joined(comma_parts(s), ","@) == s,
        forall|i: int, j: int|
            0 <= i < comma_parts(s).len() && 0 <= j < comma_parts(s)[i].len()
                ==> #[trigger] comma_parts(s)[i][j] != ',',
    decreases s.len(),
{
    lemma_first_comma(s);
    reveal_strlit(",");
    match first_char(s, ',') {
        Some(at) => {
            let rest = comma_parts(s.skip(at + 1));
            law_lists_are_taken_apart(s.skip(at + 1));
            law_joined_texts_stand_in_order(seq![s.take(at)], rest, ","@);
            assert(joined(seq![s.take(at)], ","@) == s.take(at));
            assert(s =~= s.take(at) + ","@ + s.skip(at + 1));
        },
        None => {
            assert(joined(seq![s], ","@) == s);
        },
    }
}

proof fn lemma_first_comma(s: Seq<char>)
    ensures
        first_char(s, ',') matches Some(at) ==> 0 <= at < s.len() && s[at] == ',' && forall|i: int|
            0 <= i < at ==> s[i] != ',',
        first_char(s, ',') is None ==> forall|i: int| 0 <= i < s.len() ==> s[i] != ',',
    decreases s.len(),
{
    if s.len() > 0 {
        lemma_first_comma(s.drop_last());
        let front = s.drop_last();
        assert(forall|i: int| 0 <= i < front.len() ==> front[i] == s[i]);
    }
}

/// What a machine announces of itself is taken as it says, and it is reached at an address that it
/// announces.
pub proof fn law_announcements_are_believed(worker: WorkerView, service: ResolvedService, now: u64)
    requires
        is_announced(worker, service, now),
    ensures
        worker.source_id == service.fullname@,
        service.device_id matches Some(id) ==> worker.device_id == id@,
        service.device_id is None ==> worker.device_id == service.fullname@,
        service.user_id matches Some(id) ==> worker.user_id == id@,
        service.display_name matches Some(name) ==> worker.display_name == name@,
        worker.hostname == service.hostname@,
        service.auth matches Some(auth) ==> worker.auth == auth@,
        service.auth is None ==> worker.auth == "none"@,
        worker.last_seen_epoch_millis == now,
        exists|at: int|
            0 <= at < service.addresses@.len() && !(
            #[trigger] service.addresses@[at]).is_unspecified && worker.url == "http://"@ + (
            if service.addresses@[at].address.is_v4 {
                service.addresses@[at].address.text@
            } else {
                "["@ + service.addresses@[at].address.text@ + "]"@
            }) + ":"@ + decimal(service.port as nat),
{
}

/// An announcement by this machine itself, or one without an address, is of no use, and any other
/// one is.
pub proof fn law_useless_announcements(service: ResolvedService, own: Seq<char>, at: int)
    ensures
        service.device_id matches Some(id) ==> (id@ == own ==> is_of_no_use(service, own)),
        service.addresses@.len() == 0 ==> is_of_no_use(service, own),
        service.device_id matches Some(id) ==> (id@ != own && 0 <= at < service.addresses@.len()
            && !service.addresses@[at].is_unspecified ==> !is_of_no_use(service, own)),
{
}

/// This machine announces itself under its host name in the local network, with who it is, what it
/// can do and whether it asks for a token.
pub proof fn law_announcements(account: AccountView, hostname: Seq<char>, auth: Seq<char>)
    ensures
        ({
            let told = announced_properties(account, hostname, auth);
            &&& told.contains(("device_id"@, account.device_id))
            &&& told.contains(("user_id"@, account.user_id))
            &&& told.contains(("hostname"@, hostname))
            &&& told.contains(("display_name"@, account.display_name))
            &&& told.contains(("app"@, "WarpSOLO"@))
            &&& told.contains(("api"@, "http"@))
            &&& told.contains(("version"@, "1"@))
            &&& told.contains(("capabilities"@, "agent,terminal,workspace"@))
            &&& told.contains(("auth"@, auth))
            &&& told.len() == 9
        }),
        ".local"@.is_suffix_of(sanitized(hostname)) ==> announced_host(hostname) == sanitized(
            hostname,
        ) + "."@,
        !".local"@.is_suffix_of(sanitized(hostname)) ==> announced_host(hostname) == sanitized(
            hostname,
        ) + ".local."@,
{
    let told = announced_properties(account, hostname, auth);
    assert(told[0] == ("version"@, "1"@));
    assert(told[1] == ("device_id"@, account.device_id));
    assert(told[2] == ("user_id"@, account.user_id));
    assert(told[3] == ("hostname"@, hostname));
    assert(told[4] == ("display_name"@, account.display_name));
    assert(told[5] == ("app"@, "WarpSOLO"@));
    assert(told[6] == ("api"@, "http"@));
    assert(told[7] == ("capabilities"@, "agent,terminal,workspace"@));
    assert(told[8] == ("auth"@, auth));
}

} // verus!
