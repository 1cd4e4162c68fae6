//! Looking for other machines where they may be.

use vstd::prelude::*;

use vstd::arithmetic::power2::pow2;
use vstd::std_specs::bits::u32_leading_ones;

use crate::discovery::workers::{
    DiscoveredWorker, WorkerView, copy_texts, default_capabilities, usual_capabilities,
};
use crate::text::{
    decimal, is_before, lowered, push_decimal, same, same_ignoring_case, text_before,
    texts,
};

verus! {

/// How many hosts of a network are probed at most.
pub const MAX_LOCAL_SUBNET_HOSTS: u32 = 254;

/// A place where another machine may be.
#[derive(Debug)]
pub struct ProbeCandidate {
    pub source_id: String,
    pub hostname: String,
    pub url: String,
}

/// The mathematical content of a [`ProbeCandidate`].
#[verifier::ext_equal]
pub ghost struct CandidateView {
    pub source_id: Seq<char>,
    pub hostname: Seq<char>,
    pub url: Seq<char>,
}

impl View for ProbeCandidate {
    type V = CandidateView;

    open spec fn view(&self) -> CandidateView {
        CandidateView { source_id: self.source_id@, hostname: self.hostname@, url: self.url@ }
    }
}

pub open spec fn candidate_views(candidates: Seq<ProbeCandidate>) -> Seq<CandidateView> {
    candidates.map_values(|candidate: ProbeCandidate| candidate@)
}

/// A network that this machine is on.
#[derive(Debug, Clone, Copy, PartialEq, Eq, Structural)]
pub struct LocalIpv4Subnet {
    pub addr: u32,
    pub mask: u32,
}

/// An address in dotted notation.
pub open spec fn dotted(addr: u32) -> Seq<char> {
    decimal((addr / 0x100_0000) as nat) + "."@ + decimal((addr / 0x1_0000 % 256) as nat) + "."@
        + decimal((addr / 0x100 % 256) as nat) + "."@ + decimal((addr % 256) as nat)
}

/// An address in dotted notation.
pub fn dotted_text(addr: u32) -> (out: String)
    ensures
        out@ == dotted(addr),
{
    let mut out = String::new();
    push_decimal(&mut out, (addr / 0x100_0000) as u64);
    out.append(".");
    push_decimal(&mut out, (addr / 0x1_0000 % 256) as u64);
    out.append(".");
    push_decimal(&mut out, (addr / 0x100 % 256) as u64);
    out.append(".");
    push_decimal(&mut out, (addr % 256) as u64);
    assert(out@ =~= dotted(addr));
    out
}

/// Whether an address is one of a single machine on a network.
pub open spec fn is_host_address(addr: u32) -> bool {
    let first = addr / 0x100_0000;
    &&& first != 127
    &&& addr / 0x1_0000 != 0xa9fe
    &&& addr != 0xffff_ffff
    &&& addr != 0
    &&& !(224 <= first <= 239)
}

/// Whether the network of an address is worth looking at: not a loopback, link-local, broadcast,
/// unspecified or multicast address.
pub fn should_scan_ipv4(addr: u32) -> (yes: bool)
    ensures
        yes == is_host_address(addr),
{
    let first: u32 = addr / 0x100_0000;
    first != 127 && addr / 0x1_0000 != 0xa9fe && addr != 0xffff_ffff && addr != 0 && !(224 <= first
        && first <= 239)
}

/// Whether a mask has its ones before its zeros.
pub open spec fn is_contiguous(mask: u32) -> bool {
    exists|zeros: nat| zeros <= 32 && mask == 0x1_0000_0000 - #[trigger] pow2(zeros)
}

/// Whether a mask has its ones before its zeros.
pub fn is_contiguous_ipv4_mask(mask: u32) -> (yes: bool)
    ensures
        yes == is_contiguous(mask),
{
    let mut block: u64 = 1;
    let mut zeros: u32 = 0;
    proof {
        vstd::arithmetic::power2::lemma2_to64();
    }
    while zeros < 32
        invariant
            zeros <= 32,
            block == pow2(zeros as nat),
            block <= 0x1_0000_0000,
            zeros < 32 ==> block < 0x1_0000_0000,
            pow2(32) == 0x1_0000_0000,
            forall|n: nat| n < zeros ==> mask != 0x1_0000_0000 - #[trigger] pow2(n),
        decreases 32 - zeros,
    {
        if mask as u64 == 0x1_0000_0000 - block {
            return true;
        }
        proof {
            vstd::arithmetic::power2::lemma_pow2_unfold((zeros + 1) as nat);
            if zeros + 1 < 32 {
                vstd::arithmetic::power2::lemma_pow2_strictly_increases((zeros + 1) as nat, 32);
            }
        }
        block = block * 2;
        zeros += 1;
    }
    if mask == 0 {
        assert(mask == 0x1_0000_0000 - pow2(32));
        return true;
    }
    assert forall|n: nat| n <= 32 implies mask != 0x1_0000_0000 - #[trigger] pow2(n) by {
        if n < 32 {
            assert(mask != 0x1_0000_0000 - pow2(n));
        }
    }
    false
}

impl LocalIpv4Subnet {
    /// How many hosts there can be between the lowest and the highest address.
    pub open spec fn hosts(self) -> int {
        let prefix = u32_leading_ones(self.mask);
        if prefix >= 31 {
            0
        } else {
            pow2((32 - prefix) as nat) - 2
        }
    }

    /// The mask of the part of this network that is looked at.
    pub open spec fn scanned_mask(self) -> u32 {
        if self.hosts() > MAX_LOCAL_SUBNET_HOSTS {
            0xffff_ff00
        } else {
            self.mask
        }
    }

    pub open spec fn lowest(self) -> u32 {
        self.addr & self.scanned_mask()
    }

    pub open spec fn highest(self) -> u32 {
        self.lowest() | !self.scanned_mask()
    }

    /// The addresses of this network that are looked at, in their order.
    pub open spec fn scanned(self) -> Seq<u32> {
        addresses(self.lowest() + 1, self.highest() as int, self.addr)
    }

    /// How many hosts there can be between the lowest and the highest address.
    pub fn host_count(self) -> (n: u32)
        requires
            self.mask >= 0x8000_0000,
        ensures
            n == self.hosts(),
    {
        broadcast use vstd::std_specs::bits::axiom_u32_leading_ones;

        let mask = self.mask;
        let prefix: u32 = mask.leading_ones();
        if prefix >= 31 {
            0
        } else {
            proof {
                if prefix == 0 {
                    assert((mask >> 31) & 1 == 1) by (bit_vector)
                        requires
                            mask >= 0x8000_0000u32,
                    ;
                }
            }
            let bits: u32 = 32 - prefix;
            proof {
                vstd::arithmetic::power2::lemma2_to64();
                vstd::bits::lemma_u32_shl_is_mul(1, bits);
                vstd::bits::lemma_u32_pow2_no_overflow(bits as nat);
                vstd::arithmetic::power2::lemma_pow2_strictly_increases(1, bits as nat);
            }
            (1u32 << bits) - 2
        }
    }
}

/// The addresses from `low` up to but not including `high`, without `own`.
pub open spec fn addresses(low: int, high: int, own: u32) -> Seq<u32>
    decreases high - low,
{
    if high <= low {
        seq![]
    } else if high - 1 == own {
        addresses(low, high - 1, own)
    } else {
        addresses(low, high - 1, own).push((high - 1) as u32)
    }
}

/// The place to look at for an address.
pub open spec fn candidate_at(addr: u32, port: u16) -> CandidateView {
    CandidateView {
        source_id: "probe:local:"@ + dotted(addr),
        hostname: dotted(addr),
        url: "http://"@ + dotted(addr) + ":"@ + decimal(port as nat),
    }
}

fn local_candidate(addr: u32, port: u16) -> (candidate: ProbeCandidate)
    ensures
        candidate@ == candidate_at(addr, port),
{
    let hostname = dotted_text(addr);
    let mut source_id = "probe:local:".to_owned();
    source_id.append(hostname.as_str());
    let url = http_url(hostname.as_str(), port);
    ProbeCandidate { source_id, hostname, url }
}

fn http_url(host: &str, port: u16) -> (url: String)
    ensures
        url@ == "http://"@ + host@ + ":"@ + decimal(port as nat),
{
    let mut url = "http://".to_owned();
    url.append(host);
    url.append(":");
    push_decimal(&mut url, port as u64);
    url
}

/// The places to look at on a network.
pub fn probe_candidates_for_ipv4_subnet(subnet: LocalIpv4Subnet, port: u16) -> (candidates: Vec<
    ProbeCandidate,
>)
    requires
        subnet.mask >= 0x8000_0000,
        subnet.addr & subnet.mask != 0xffff_ffff,
    ensures
        candidate_views(candidates@) == subnet.scanned().map_values(
            |addr: u32| candidate_at(addr, port),
        ),
{
    let mask: u32 = if subnet.host_count() > MAX_LOCAL_SUBNET_HOSTS {
        0xffff_ff00
    } else {
        subnet.mask
    };
    let own = subnet.addr;
    let network: u32 = own & mask;
    let broadcast: u32 = network | !mask;
    assert(own & 0xffff_ff00 != 0xffff_ffff) by (bit_vector);
    let ghost found = |addr: u32| candidate_at(addr, port);
    let mut candidates: Vec<ProbeCandidate> = Vec::new();
    let mut addr: u32 = network + 1;
    if broadcast <= addr {
        assert(subnet.scanned() =~= seq![]);
        assert(candidate_views(candidates@) =~= subnet.scanned().map_values(found));
        return candidates;
    }
    assert(candidate_views(candidates@) =~= addresses(network + 1, addr as int, own).map_values(
        found,
    ));
    while addr < broadcast
        invariant
            network < addr <= broadcast,
            found == (|addr: u32| candidate_at(addr, port)),
            candidate_views(candidates@) == addresses(network + 1, addr as int, own).map_values(
                found,
            ),
        decreases broadcast - addr,
    {
        let ghost before = candidate_views(candidates@);
        if addr != own {
            let candidate = local_candidate(addr, port);
            candidates.push(candidate);
            assert(candidate_views(candidates@) =~= before.push(candidate@));
            assert(candidate_views(candidates@) =~= addresses(
                network + 1,
                addr + 1,
                own,
            ).map_values(found));
        }
        addr += 1;
    }
    candidates
}

proof fn lemma_addresses(low: int, high: int, own: u32)
    requires
        0 <= low,
        high <= 0x1_0000_0000,
    ensures
        addresses(low, high, own).len() <= if low <= high {
            high - low
        } else {
            0
        },
        low <= own < high ==> addresses(low, high, own).len() == high - low - 1,
        low <= high && (own < low || high <= own) ==> addresses(low, high, own).len() == high - low,
        forall|i: int|
            0 <= i < addresses(low, high, own).len() ==> low <= (
            #[trigger] addresses(low, high, own)[i]) < high && addresses(low, high, own)[i] != own,
        forall|addr: u32|
            low <= addr < high && addr != own ==> #[trigger] addresses(low, high, own).contains(
                addr,
            ),
    decreases high - low,
{
    if low < high {
        lemma_addresses(low, high - 1, own);
        let all = addresses(low, high, own);
        let before = addresses(low, high - 1, own);
        assert forall|addr: u32| low <= addr < high && addr != own implies #[trigger] all.contains(
            addr,
        ) by {
            if addr < high - 1 {
                assert(before.contains(addr));
                let i = choose|i: int| 0 <= i < before.len() && before[i] == addr;
                assert(all[i] == addr);
            } else {
                assert(all[all.len() - 1] == addr);
            }
        }
    }
}

proof fn lemma_span(addr: u32, mask: u32)
    ensures
        (addr & mask) | !mask == (addr & mask) + !mask,
{
    assert((addr & mask) | !mask == (addr & mask) + !mask) by (bit_vector);
}

proof fn lemma_zeros(mask: u32)
    requires
        mask >= 0x8000_0000,
    ensures
        u32_leading_ones(mask) >= 24 ==> !mask <= 0xff,
        1 <= u32_leading_ones(mask) <= 32,
{
    broadcast use vstd::std_specs::bits::axiom_u32_leading_ones;

    let prefix = u32_leading_ones(mask);
    if prefix == 0 {
        assert((mask >> 31) & 1 == 1) by (bit_vector)
            requires
                mask >= 0x8000_0000u32,
        ;
    }
    if prefix >= 24 {
        let shift: u32 = (32 - prefix) as u32;
        assert(!mask >> shift == 0);
        assert(!mask <= 0xff) by (bit_vector)
            requires
                !mask >> shift == 0,
                shift <= 8,
        ;
    }
}

/// However large a network is, at most 254 of its addresses are looked at: all between the lowest
/// and the highest of a block around this machine's own, which is not among them.
pub proof fn law_scans_are_bounded(subnet: LocalIpv4Subnet)
    requires
        subnet.mask >= 0x8000_0000,
    ensures
        subnet.scanned().len() <= 254,
        !subnet.scanned().contains(subnet.addr),
        forall|addr: u32|
            subnet.lowest() < addr < subnet.highest() && addr != subnet.addr ==> #[trigger]
            subnet.scanned().contains(addr),
        subnet.lowest() <= subnet.addr <= subnet.highest(),
{
    let addr = subnet.addr;
    let mask = subnet.scanned_mask();
    lemma_span(addr, mask);
    lemma_zeros(subnet.mask);
    vstd::arithmetic::power2::lemma2_to64();
    let prefix = u32_leading_ones(subnet.mask);
    if subnet.hosts() > MAX_LOCAL_SUBNET_HOSTS {
        assert(!0xffff_ff00u32 == 0xff) by (bit_vector);
    } else if prefix < 24 {
        vstd::arithmetic::power2::lemma_pow2_strictly_increases(8, (32 - prefix) as nat);
        assert(false);
    }
    assert(!mask <= 0xff);
    assert(subnet.highest() - subnet.lowest() <= 255);
    lemma_addresses(subnet.lowest() + 1, subnet.highest() as int, addr);
    assert(addr & mask <= addr && addr <= (addr & mask) | !mask) by (bit_vector);
}

fn is_listed(seen: &Vec<LocalIpv4Subnet>, subnet: LocalIpv4Subnet) -> (yes: bool)
    ensures
        yes == seen@.contains(subnet),
{
    let mut i: usize = 0;
    while i < seen.len()
        invariant
            i <= seen.len(),
            forall|j: int| 0 <= j < i ==> (#[trigger] seen@[j]) != subnet,
        decreases seen.len() - i,
    {
        if seen[i] == subnet {
            return true;
        }
        i += 1;
    }
    false
}

/// The first of each kind, in their order.
pub open spec fn distinct<A>(all: Seq<A>) -> Seq<A>
    decreases all.len(),
{
    if all.len() == 0 {
        seq![]
    } else {
        let before = distinct(all.drop_last());
        if before.contains(all.last()) {
            before
        } else {
            before.push(all.last())
        }
    }
}

/// The networks without repetitions.
pub fn dedupe_subnets(subnets: &Vec<LocalIpv4Subnet>) -> (out: Vec<LocalIpv4Subnet>)
    ensures
        out@ == distinct(subnets@),
{
    let mut out: Vec<LocalIpv4Subnet> = Vec::new();
    let mut i: usize = 0;
    assert(subnets@.take(0) =~= seq![]);
    while i < subnets.len()
        invariant
            i <= subnets.len(),
            out@ == distinct(subnets@.take(i as int)),
        decreases subnets.len() - i,
    {
        assert(subnets@.take(i + 1).drop_last() =~= subnets@.take(i as int));
        if !is_listed(&out, subnets[i]) {
            out.push(subnets[i]);
        }
        i += 1;
    }
    assert(subnets@.take(subnets@.len() as int) =~= subnets@);
    out
}

/// The networks among interfaces that are worth looking at.
pub open spec fn worth_scanning(interfaces: Seq<LocalIpv4Subnet>) -> Seq<LocalIpv4Subnet>
    decreases interfaces.len(),
{
    if interfaces.len() == 0 {
        seq![]
    } else {
        let before = worth_scanning(interfaces.drop_last());
        let last = interfaces.last();
        if is_host_address(last.addr) && is_contiguous(last.mask) {
            before.push(last)
        } else {
            before
        }
    }
}

/// The networks among the addresses and masks of this machine's interfaces that are looked at.
pub fn local_ipv4_subnets(interfaces: &Vec<LocalIpv4Subnet>) -> (subnets: Vec<LocalIpv4Subnet>)
    ensures
        subnets@ == distinct(worth_scanning(interfaces@)),
{
    let mut subnets: Vec<LocalIpv4Subnet> = Vec::new();
    let mut i: usize = 0;
    assert(interfaces@.take(0) =~= seq![]);
    while i < interfaces.len()
        invariant
            i <= interfaces.len(),
            subnets@ == worth_scanning(interfaces@.take(i as int)),
        decreases interfaces.len() - i,
    {
        assert(interfaces@.take(i + 1).drop_last() =~= interfaces@.take(i as int));
        let interface = interfaces[i];
        if should_scan_ipv4(interface.addr) && is_contiguous_ipv4_mask(interface.mask) {
            subnets.push(interface);
        }
        i += 1;
    }
    assert(interfaces@.take(interfaces@.len() as int) =~= interfaces@);
    dedupe_subnets(&subnets)
}

proof fn lemma_distinct<A>(all: Seq<A>)
    ensures
        distinct(all).no_duplicates(),
        forall|x: A| #[trigger] distinct(all).contains(x) <==> all.contains(x),
    decreases all.len(),
{
    if all.len() > 0 {
        let before = distinct(all.drop_last());
        let after = distinct(all);
        lemma_distinct(all.drop_last());
        assert forall|x: A| #[trigger] after.contains(x) <==> all.contains(x) by {
            if after.contains(x) {
                let i = choose|i: int| 0 <= i < after.len() && after[i] == x;
                if i < before.len() {
                    assert(before[i] == x);
                    assert(before.contains(x));
                    let j = choose|j: int| 0 <= j < all.drop_last().len() && all.drop_last()[j] == x;
                    assert(all[j] == x);
                } else {
                    assert(all[all.len() - 1] == x);
                }
            }
            if all.contains(x) {
                let i = choose|i: int| 0 <= i < all.len() && all[i] == x;
                if i < all.len() - 1 {
                    assert(all.drop_last()[i] == x);
                    assert(before.contains(x));
                    let j = choose|j: int| 0 <= j < before.len() && before[j] == x;
                    assert(after[j] == x);
                } else if before.contains(x) {
                    let j = choose|j: int| 0 <= j < before.len() && before[j] == x;
                    assert(after[j] == x);
                } else {
                    assert(after[before.len() as int] == x);
                }
            }
        }
    }
}

/// Each network is looked at once, and none that was found is left out.
pub proof fn law_networks_are_scanned_once(interfaces: Seq<LocalIpv4Subnet>)
    ensures
        distinct(worth_scanning(interfaces)).no_duplicates(),
        forall|subnet: LocalIpv4Subnet| #[trigger]
            distinct(worth_scanning(interfaces)).contains(subnet) <==> worth_scanning(
                interfaces,
            ).contains(subnet),
{
    lemma_distinct(worth_scanning(interfaces));
}

/// The candidates without those whose address came before.
pub open spec fn first_of_each_url(candidates: Seq<CandidateView>) -> Seq<CandidateView>
    decreases candidates.len(),
{
    if candidates.len() == 0 {
        seq![]
    } else {
        let before = first_of_each_url(candidates.drop_last());
        let last = candidates.last();
        if exists|i: int| 0 <= i < before.len() && (#[trigger] before[i]).url == last.url {
            before
        } else {
            before.push(last)
        }
    }
}

/// The candidates without those whose address came before.
pub fn dedupe_candidates(candidates: Vec<ProbeCandidate>) -> (out: Vec<ProbeCandidate>)
    ensures
        candidate_views(out@) == first_of_each_url(candidate_views(candidates@)),
{
    let ghost all = candidates@;
    let ghost views = candidate_views(all);
    let mut out: Vec<ProbeCandidate> = Vec::new();
    assert(views.take(0) =~= seq![]);
    assert(candidate_views(out@) =~= seq![]);
    for candidate in it: candidates
        invariant
            it.seq() == all,
            views == candidate_views(all),
            candidate_views(out@) == first_of_each_url(views.take(it.index())),
    {
        let ghost before = candidate_views(out@);
        let ghost index = it.index();
        assert(views.take(index + 1).drop_last() =~= views.take(index));
        assert(views.take(index + 1).last() == candidate@);
        let mut i: usize = 0;
        let mut seen = false;
        while i < out.len() && !seen
            invariant
                i <= out.len(),
                before == candidate_views(out@),
                seen ==> exists|j: int|
                    0 <= j < before.len() && (#[trigger] before[j]).url == candidate@.url,
                !seen ==> forall|j: int|
                    0 <= j < i ==> (#[trigger] before[j]).url != candidate@.url,
            decreases out.len() - i,
        {
            assert(before[i as int] == out@[i as int]@);
            if same(out[i].url.as_str(), candidate.url.as_str()) {
                assert(before[i as int].url == candidate@.url);
                seen = true;
            }
            i += 1;
        }
        if !seen {
            out.push(candidate);
            assert(candidate_views(out@) =~= before.push(candidate@));
        }
    }
    assert(views.take(views.len() as int) =~= views);
    out
}

/// No address is probed twice in a round.
pub proof fn law_addresses_are_probed_once(candidates: Seq<CandidateView>)
    ensures
        forall|i: int, j: int|
            0 <= i < j < first_of_each_url(candidates).len() ==> (
            #[trigger] first_of_each_url(candidates)[i]).url != (
            #[trigger] first_of_each_url(candidates)[j]).url,
    decreases candidates.len(),
{
    if candidates.len() > 0 {
        law_addresses_are_probed_once(candidates.drop_last());
        let before = first_of_each_url(candidates.drop_last());
        let after = first_of_each_url(candidates);
        assert forall|i: int, j: int| 0 <= i < j < after.len() implies (#[trigger] after[i]).url != (
        #[trigger] after[j]).url by {
            assert(after[i] == before[i]);
            if j < before.len() {
                assert(after[j] == before[j]);
            }
        }
    }
}

/// An address of a machine, as it is written.
#[derive(Debug)]
pub struct PeerAddress {
    pub text: String,
    pub is_v4: bool,
}

/// A machine of a Tailscale network.
#[derive(Debug)]
pub struct TailscalePeer {
    pub host_name: Option<String>,
    pub dns_name: Option<String>,
    pub tailscale_ips: Vec<PeerAddress>,
    pub online: Option<bool>,
}

/// Whether an address is preferred to another: those of the older protocol come first, and else
/// their texts decide.
pub open spec fn preferred(a: PeerAddress, b: PeerAddress) -> bool {
    if a.is_v4 == b.is_v4 {
        text_before(a.text@, b.text@)
    } else {
        a.is_v4
    }
}

/// Whether no address is preferred to the one at `at`.
pub open spec fn is_best(addresses: Seq<PeerAddress>, at: int) -> bool {
    0 <= at < addresses.len() && forall|i: int|
        0 <= i < addresses.len() ==> !preferred(#[trigger] addresses[i], addresses[at])
}

fn is_preferred(a: &PeerAddress, b: &PeerAddress) -> (yes: bool)
    ensures
        yes == preferred(*a, *b),
{
    if a.is_v4 == b.is_v4 {
        is_before(a.text.as_str(), b.text.as_str())
    } else {
        a.is_v4
    }
}

fn best_address(addresses: &Vec<PeerAddress>) -> (at: Option<usize>)
    ensures
        match at {
            Some(at) => is_best(addresses@, at as int),
            None => addresses@.len() == 0,
        },
{
    if addresses.len() == 0 {
        return None;
    }
    let mut best: usize = 0;
    let mut i: usize = 1;
    proof {
        crate::text::lemma_order_strict(addresses@[0].text@);
    }
    while i < addresses.len()
        invariant
            best < i <= addresses.len(),
            forall|j: int|
                0 <= j < i ==> !preferred(#[trigger] addresses@[j], addresses@[best as int]),
        decreases addresses.len() - i,
    {
        if is_preferred(&addresses[i], &addresses[best]) {
            proof {
                let ghost new = addresses@[i as int];
                let ghost old = addresses@[best as int];
                crate::text::lemma_order_strict(new.text@);
                assert forall|j: int| 0 <= j < i + 1 implies !preferred(
                    #[trigger] addresses@[j],
                    new,
                ) by {
                    let other = addresses@[j];
                    if preferred(other, new) {
                        lemma_preferred_transitive(other, new, old);
                    }
                }
            }
            best = i;
        }
        i += 1;
    }
    Some(best)
}

proof fn lemma_preferred_transitive(a: PeerAddress, b: PeerAddress, c: PeerAddress)
    requires
        preferred(a, b),
        preferred(b, c),
    ensures
        preferred(a, c),
{
    if a.is_v4 == b.is_v4 && b.is_v4 == c.is_v4 {
        crate::text::lemma_order_transitive(a.text@, b.text@, c.text@);
    }
}

/// An address as a part of a web address.
pub open spec fn host_part(address: PeerAddress) -> Seq<char> {
    if address.is_v4 {
        address.text@
    } else {
        "["@ + address.text@ + "]"@
    }
}

pub(crate) fn address_url(address: &PeerAddress, port: u16) -> (url: String)
    ensures
        url@ == "http://"@ + host_part(*address) + ":"@ + decimal(port as nat),
{
    if address.is_v4 {
        http_url(address.text.as_str(), port)
    } else {
        let mut host = "[".to_owned();
        host.append(address.text.as_str());
        host.append("]");
        http_url(host.as_str(), port)
    }
}

/// The text without dots at its end.
pub open spec fn without_dots(s: Seq<char>) -> Seq<char>
    decreases s.len(),
{
    if s.len() > 0 && s.last() == '.' {
        without_dots(s.drop_last())
    } else {
        s
    }
}

fn trim_dots(s: &str) -> (out: &str)
    ensures
        out@ == without_dots(s@),
{
    let mut end: usize = s.unicode_len();
    assert(s@.take(end as int) =~= s@);
    while end > 0 && s.get_char(end - 1) == '.'
        invariant
            end <= s@.len(),
            without_dots(s@) == without_dots(s@.take(end as int)),
        decreases end,
    {
        assert(s@.take(end as int).drop_last() =~= s@.take(end - 1));
        end -= 1;
    }
    let out = s.substring_char(0, end);
    assert(out@ =~= s@.take(end as int));
    out
}

/// What a machine of a Tailscale network is called.
pub open spec fn peer_name(peer: TailscalePeer) -> Seq<char> {
    without_dots(
        match peer.dns_name {
            Some(name) => name@,
            None => match peer.host_name {
                Some(name) => name@,
                None => "tailscale-peer"@,
            },
        },
    )
}

/// Whether `candidate` is the place to look at for a machine of a Tailscale network.
pub open spec fn is_peer_candidate(candidate: CandidateView, peer: TailscalePeer, port: u16) -> bool {
    &&& candidate.source_id == "probe:tailscale:"@ + peer_name(peer)
    &&& candidate.hostname == peer_name(peer)
    &&& exists|at: int|
        #![trigger peer.tailscale_ips@[at]]
        is_best(peer.tailscale_ips@, at) && candidate.url == "http://"@ + host_part(
            peer.tailscale_ips@[at],
        ) + ":"@ + decimal(port as nat)
}

/// The place to look at for a machine of a Tailscale network, if it has an address.
pub fn tailscale_peer_candidate(peer: &TailscalePeer, port: u16) -> (out: Option<ProbeCandidate>)
    ensures
        match out {
            Some(candidate) => is_peer_candidate(candidate@, *peer, port),
            None => peer.tailscale_ips@.len() == 0,
        },
{
    let at: usize = match best_address(&peer.tailscale_ips) {
        Some(at) => at,
        None => {
            return None;
        },
    };
    let url = address_url(&peer.tailscale_ips[at], port);
    let name = match &peer.dns_name {
        Some(name) => name.as_str(),
        None => match &peer.host_name {
            Some(name) => name.as_str(),
            None => "tailscale-peer",
        },
    };
    let hostname = trim_dots(name).to_owned();
    let mut source_id = "probe:tailscale:".to_owned();
    source_id.append(hostname.as_str());
    Some(ProbeCandidate { source_id, hostname, url })
}

/// The machines that are online, as far as is known, and have an address.
pub open spec fn reachable(peers: Seq<TailscalePeer>) -> Seq<TailscalePeer>
    decreases peers.len(),
{
    if peers.len() == 0 {
        seq![]
    } else {
        let last = peers.last();
        if last.online != Some(false) && last.tailscale_ips@.len() > 0 {
            reachable(peers.drop_last()).push(last)
        } else {
            reachable(peers.drop_last())
        }
    }
}

/// The places to look at on a Tailscale network.
pub fn tailscale_peer_candidates_from_status(peers: &Vec<TailscalePeer>, port: u16) -> (candidates: Vec<
    ProbeCandidate,
>)
    ensures
        candidates@.len() == reachable(peers@).len(),
        forall|i: int|
            0 <= i < candidates@.len() ==> is_peer_candidate(
                (#[trigger] candidates@[i])@,
                reachable(peers@)[i],
                port,
            ),
{
    let mut candidates: Vec<ProbeCandidate> = Vec::new();
    let mut i: usize = 0;
    assert(peers@.take(0) =~= seq![]);
    while i < peers.len()
        invariant
            i <= peers.len(),
            candidates@.len() == reachable(peers@.take(i as int)).len(),
            forall|j: int|
                0 <= j < candidates@.len() ==> is_peer_candidate(
                    (#[trigger] candidates@[j])@,
                    reachable(peers@.take(i as int))[j],
                    port,
                ),
        decreases peers.len() - i,
    {
        assert(peers@.take(i + 1).drop_last() =~= peers@.take(i as int));
        let online = match peers[i].online {
            Some(online) => online,
            None => true,
        };
        if online {
            if let Some(candidate) = tailscale_peer_candidate(&peers[i], port) {
                assert(peers@[i as int].tailscale_ips@.len() > 0);
                candidates.push(candidate);
            }
        }
        i += 1;
    }
    assert(peers@.take(peers@.len() as int) =~= peers@);
    candidates
}

/// What a machine says of itself when it is asked whether it is well.
#[derive(Debug)]
pub struct WorkerHealth {
    pub ok: bool,
    pub app: String,
    pub device_id: String,
    pub user_id: String,
    pub display_name: String,
}

/// What a machine says it can do.
#[derive(Debug)]
pub struct WorkerCapabilities {
    pub capabilities: Option<Vec<String>>,
    pub auth: Option<String>,
}

/// What came of asking a machine what it can do.
#[derive(Debug)]
pub enum CapabilitiesReply {
    /// It answered with an error.
    Refused,
    /// It did not answer, or not in a way that could be read.
    Missing,
    Known(WorkerCapabilities),
}

impl WorkerHealth {
    /// Whether this is what a machine says that is well and of the user's kind.
    pub open spec fn sound(&self) -> bool {
        self.ok && lowered(self.app@) == lowered("WarpSOLO"@)
    }

    /// Whether the machine is worth asking on.
    pub fn is_sound(&self) -> (yes: bool)
        ensures
            yes == self.sound(),
    {
        self.ok && same_ignoring_case(self.app.as_str(), "WarpSOLO")
    }
}

/// Whether a machine that was asked is one that can work for the user.
pub open spec fn is_worker(health: WorkerHealth, reply: CapabilitiesReply) -> bool {
    health.sound() && !(reply is Refused)
}

pub open spec fn told_capabilities(reply: CapabilitiesReply) -> Seq<Seq<char>> {
    match reply {
        CapabilitiesReply::Known(told) => match told.capabilities {
            Some(list) => if list@.len() > 0 {
                texts(list@)
            } else {
                usual_capabilities()
            },
            None => usual_capabilities(),
        },
        _ => usual_capabilities(),
    }
}

pub open spec fn told_auth(reply: CapabilitiesReply) -> Seq<char> {
    match reply {
        CapabilitiesReply::Known(WorkerCapabilities { auth: Some(auth), .. }) => auth@,
        _ => "none"@,
    }
}

/// The machine that answered at a place, if it can work for the user.
pub fn worker_from_probe(
    candidate: ProbeCandidate,
    health: WorkerHealth,
    reply: CapabilitiesReply,
    now: u64,
) -> (out: Option<DiscoveredWorker>)
    ensures
        match out {
            Some(worker) => is_worker(health, reply) && worker@ == (WorkerView {
                source_id: candidate@.source_id,
                device_id: health.device_id@,
                user_id: health.user_id@,
                display_name: health.display_name@,
                hostname: candidate@.hostname,
                url: candidate@.url,
                capabilities: told_capabilities(reply),
                auth: told_auth(reply),
                last_seen_epoch_millis: now,
            }),
            None => !is_worker(health, reply),
        },
{
    if !health.is_sound() {
        return None;
    }
    let mut capabilities = default_capabilities();
    let mut auth = "none".to_owned();
    match &reply {
        CapabilitiesReply::Refused => {
            return None;
        },
        CapabilitiesReply::Missing => {},
        CapabilitiesReply::Known(told) => {
            if let Some(list) = &told.capabilities {
                if list.len() > 0 {
                    capabilities = copy_texts(list);
                }
            }
            if let Some(told_auth) = &told.auth {
                auth = told_auth.clone();
            }
        },
    }
    Some(
        DiscoveredWorker {
            source_id: candidate.source_id,
            device_id: health.device_id,
            user_id: health.user_id,
            display_name: health.display_name,
            hostname: candidate.hostname,
            url: candidate.url,
            capabilities,
            auth,
            last_seen_epoch_millis: now,
        },
    )
}

/// The places to look at on several networks.
pub open spec fn network_candidates(subnets: Seq<LocalIpv4Subnet>, port: u16) -> Seq<CandidateView>
    decreases subnets.len(),
{
    if subnets.len() == 0 {
        seq![]
    } else {
        network_candidates(subnets.drop_last(), port) + subnets.last().scanned().map_values(
            |addr: u32| candidate_at(addr, port),
        )
    }
}

proof fn lemma_scannable(subnet: LocalIpv4Subnet)
    requires
        is_host_address(subnet.addr),
        is_contiguous(subnet.mask),
        subnet.mask != 0,
    ensures
        subnet.mask >= 0x8000_0000,
        subnet.addr & subnet.mask != 0xffff_ffff,
{
    let zeros = choose|zeros: nat|
        zeros <= 32 && subnet.mask == 0x1_0000_0000 - #[trigger] pow2(zeros);
    vstd::arithmetic::power2::lemma2_to64();
    assert(zeros < 32);
    if zeros < 31 {
        vstd::arithmetic::power2::lemma_pow2_strictly_increases(zeros, 31);
    }
    let addr = subnet.addr;
    let mask = subnet.mask;
    assert(addr & mask <= addr) by (bit_vector);
}

proof fn lemma_worth_scanning(interfaces: Seq<LocalIpv4Subnet>)
    ensures
        forall|i: int|
            0 <= i < worth_scanning(interfaces).len() ==> is_host_address(
                (#[trigger] worth_scanning(interfaces)[i]).addr,
            ) && is_contiguous(worth_scanning(interfaces)[i].mask) && interfaces.contains(
                worth_scanning(interfaces)[i],
            ),
    decreases interfaces.len(),
{
    if interfaces.len() > 0 {
        let before = worth_scanning(interfaces.drop_last());
        let after = worth_scanning(interfaces);
        lemma_worth_scanning(interfaces.drop_last());
        assert forall|i: int| 0 <= i < after.len() implies is_host_address(
            (#[trigger] after[i]).addr,
        ) && is_contiguous(after[i].mask) && interfaces.contains(after[i]) by {
            if i < before.len() {
                assert(after[i] == before[i]);
                let j = choose|j: int|
                    0 <= j < interfaces.drop_last().len() && interfaces.drop_last()[j] == before[i];
                assert(interfaces[j] == after[i]);
            } else {
                assert(interfaces[interfaces.len() - 1] == after[i]);
            }
        }
    }
}

/// The places to look at on the networks of this machine's interfaces.
pub fn local_subnet_candidates(interfaces: &Vec<LocalIpv4Subnet>, port: u16) -> (candidates: Vec<
    ProbeCandidate,
>)
    requires
        forall|i: int| 0 <= i < interfaces@.len() ==> (#[trigger] interfaces@[i]).mask != 0,
    ensures
        candidate_views(candidates@) == network_candidates(
            distinct(worth_scanning(interfaces@)),
            port,
        ),
{
    let subnets = local_ipv4_subnets(interfaces);
    let mut candidates: Vec<ProbeCandidate> = Vec::new();
    let mut i: usize = 0;
    proof {
        assert(subnets@.take(0) =~= seq![]);
        assert(candidate_views(candidates@) =~= seq![]);
        lemma_worth_scanning(interfaces@);
        lemma_distinct(worth_scanning(interfaces@));
    }
    while i < subnets.len()
        invariant
            i <= subnets.len(),
            candidate_views(candidates@) == network_candidates(subnets@.take(i as int), port),
            subnets@ == distinct(worth_scanning(interfaces@)),
            forall|j: int| 0 <= j < interfaces@.len() ==> (#[trigger] interfaces@[j]).mask != 0,
            forall|j: int|
                0 <= j < worth_scanning(interfaces@).len() ==> is_host_address(
                    (#[trigger] worth_scanning(interfaces@)[j]).addr,
                ) && is_contiguous(worth_scanning(interfaces@)[j].mask) && interfaces@.contains(
                    worth_scanning(interfaces@)[j],
                ),
            forall|x: LocalIpv4Subnet| #[trigger]
                subnets@.contains(x) <==> worth_scanning(interfaces@).contains(x),
        decreases subnets.len() - i,
    {
        let subnet = subnets[i];
        proof {
            assert(subnets@.contains(subnet));
            let at = choose|at: int|
                0 <= at < worth_scanning(interfaces@).len() && worth_scanning(interfaces@)[at]
                    == subnet;
            assert(interfaces@.contains(worth_scanning(interfaces@)[at]));
            let from = choose|from: int| 0 <= from < interfaces@.len() && interfaces@[from] == subnet;
            assert(interfaces@[from].mask != 0);
            lemma_scannable(subnet);
            assert(subnets@.take(i + 1).drop_last() =~= subnets@.take(i as int));
        }
        let ghost before = candidate_views(candidates@);
        let mut found = probe_candidates_for_ipv4_subnet(subnet, port);
        let ghost added = candidate_views(found@);
        candidates.append(&mut found);
        assert(candidate_views(candidates@) =~= before + added);
        i += 1;
    }
    assert(subnets@.take(subnets@.len() as int) =~= subnets@);
    candidates
}

/// All places to look at: on the networks of this machine, and on its Tailscale network.
pub fn probe_candidates(local: Vec<ProbeCandidate>, tailscale: Vec<ProbeCandidate>) -> (candidates: Vec<
    ProbeCandidate,
>)
    ensures
        candidate_views(candidates@) == first_of_each_url(
            candidate_views(local@) + candidate_views(tailscale@),
        ),
{
    let mut all = local;
    let mut rest = tailscale;
    all.append(&mut rest);
    assert(candidate_views(all@) =~= candidate_views(local@) + candidate_views(tailscale@));
    dedupe_candidates(all)
}

} // verus!
