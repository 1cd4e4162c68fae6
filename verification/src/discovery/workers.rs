//! The machines that were found.

use vstd::prelude::*;

use crate::account::{LocalAccount, LocalAgentPeerConfig, LocalAgentWorkerConfig};
use crate::chat::provider::{trim_end_slashes, without_slashes};
use crate::ids::{hex_digit, hex_digits};
use crate::text::{
    byte_len, bytes_in, is_before, is_blank, lemma_ascii_bytes, lowered, nonblank, same, same_ignoring_case,
    starts_with, text_before, texts, trim, trim_nonblank, trimmed, utf8_bytes,
};

verus! {

/// The FNV-1a hash of some bytes.
pub open spec fn fnv1a(bytes: Seq<u8>) -> u64
    decreases bytes.len(),
{
    if bytes.len() == 0 {
        0xcbf2_9ce4_8422_2325
    } else {
        (((fnv1a(bytes.drop_last()) ^ (bytes.last() as u64)) * 0x100_0000_01b3)
            % 0x1_0000_0000_0000_0000) as u64
    }
}

/// The hash of a text, the same on every machine.
pub fn stable_hash64(value: &str) -> (hash: u64)
    ensures
        hash == fnv1a(vstd::utf8::encode_utf8(value@)),
{
    let bytes = utf8_bytes(value);
    let mut hash: u64 = 0xcbf2_9ce4_8422_2325;
    let mut i: usize = 0;
    assert(bytes@.take(0) =~= seq![]);
    while i < bytes.len()
        invariant
            i <= bytes.len(),
            hash == fnv1a(bytes@.take(i as int)),
        decreases bytes.len() - i,
    {
        assert(bytes@.take(i + 1).drop_last() =~= bytes@.take(i as int));
        let mixed: u64 = hash ^ (bytes[i] as u64);
        hash = mixed.wrapping_mul(0x100_0000_01b3);
        i += 1;
    }
    assert(bytes@.take(bytes@.len() as int) =~= bytes@);
    hash
}

fn hex_char(d: u64) -> (c: char)
    requires
        d < 16,
    ensures
        c == hex_digit(d as int),
{
    let code: u8 = if d < 10 {
        d as u8 + 48
    } else {
        d as u8 + 87
    };
    code as char
}

pub(crate) fn hex_text(n: u64, len: u32) -> (out: String)
    ensures
        out@ == hex_digits(n as int, len as nat),
    decreases len,
{
    if len == 0 {
        String::new()
    } else {
        let mut out = hex_text(n / 16, len - 1);
        out.push(hex_char(n % 16));
        out
    }
}

pub open spec fn hash_text(value: Seq<char>) -> Seq<char> {
    hex_digits(fnv1a(vstd::utf8::encode_utf8(value)) as int, 16)
}

/// The environment that stands for a machine.
pub open spec fn synthetic_id(device_id: Seq<char>) -> Seq<char> {
    "wsolo-"@ + hash_text(device_id)
}

/// The environment that stands for a machine.
pub fn synthetic_environment_id_for_device_id(device_id: &str) -> (id: String)
    ensures
        id@ == synthetic_id(device_id@),
{
    let mut id = "wsolo-".to_owned();
    id.append(hex_text(stable_hash64(device_id), 16).as_str());
    id
}

/// Whether a text can be an environment that stands for a machine.
pub open spec fn is_synthetic(id: Seq<char>) -> bool {
    "wsolo-"@.is_prefix_of(id) && bytes_in(id) == 22
}

pub fn is_synthetic_environment_id(id: &str) -> (yes: bool)
    ensures
        yes == is_synthetic(id@),
{
    starts_with(id, "wsolo-") && byte_len(id) == 22
}

proof fn lemma_hex_digits(n: int, len: nat)
    requires
        n >= 0,
    ensures
        hex_digits(n, len).len() == len,
        forall|i: int| 0 <= i < len ==> (#[trigger] hex_digits(n, len)[i]) as int <= 0x7f,
    decreases len,
{
    if len > 0 {
        lemma_hex_digits(n / 16, (len - 1) as nat);
        assert(0 <= n % 16 < 16);
    }
}

/// The environment of a machine is known as one: it has its prefix and is 22 bytes long.
pub proof fn law_synthetic_ids_are_known(device_id: Seq<char>)
    ensures
        is_synthetic(synthetic_id(device_id)),
{
    reveal_strlit("wsolo-");
    let id = synthetic_id(device_id);
    lemma_hex_digits(fnv1a(vstd::utf8::encode_utf8(device_id)) as int, 16);
    assert forall|i: int| 0 <= i < id.len() implies (#[trigger] id[i]) as int <= 0x7f by {
        if i >= 6 {
            assert(id[i] == hash_text(device_id)[i - 6]);
        }
    }
    lemma_ascii_bytes(id);
    assert("wsolo-"@ =~= id.take(6));
}

/// A machine that was found.
#[derive(Debug)]
pub struct DiscoveredWorker {
    pub source_id: String,
    pub device_id: String,
    pub user_id: String,
    pub display_name: String,
    pub hostname: String,
    pub url: String,
    pub capabilities: Vec<String>,
    pub auth: String,
    pub last_seen_epoch_millis: u64,
}

/// The mathematical content of a [`DiscoveredWorker`].
#[verifier::ext_equal]
pub ghost struct WorkerView {
    pub source_id: Seq<char>,
    pub device_id: Seq<char>,
    pub user_id: Seq<char>,
    pub display_name: Seq<char>,
    pub hostname: Seq<char>,
    pub url: Seq<char>,
    pub capabilities: Seq<Seq<char>>,
    pub auth: Seq<char>,
    pub last_seen_epoch_millis: u64,
}

impl View for DiscoveredWorker {
    type V = WorkerView;

    open spec fn view(&self) -> WorkerView {
        WorkerView {
            source_id: self.source_id@,
            device_id: self.device_id@,
            user_id: self.user_id@,
            display_name: self.display_name@,
            hostname: self.hostname@,
            url: self.url@,
            capabilities: texts(self.capabilities@),
            auth: self.auth@,
            last_seen_epoch_millis: self.last_seen_epoch_millis,
        }
    }
}

pub(crate) fn copy_texts(list: &Vec<String>) -> (copy: Vec<String>)
    ensures
        texts(copy@) == texts(list@),
{
    let mut copy: Vec<String> = Vec::new();
    let mut i: usize = 0;
    while i < list.len()
        invariant
            i <= list.len(),
            copy.len() == i,
            forall|j: int| 0 <= j < i ==> (#[trigger] copy@[j])@ == list@[j]@,
        decreases list.len() - i,
    {
        copy.push(list[i].clone());
        i += 1;
    }
    assert(texts(copy@) =~= texts(list@));
    copy
}

impl Clone for DiscoveredWorker {
    fn clone(&self) -> (copy: Self)
        ensures
            copy@ == self@,
    {
        DiscoveredWorker {
            source_id: self.source_id.clone(),
            device_id: self.device_id.clone(),
            user_id: self.user_id.clone(),
            display_name: self.display_name.clone(),
            hostname: self.hostname.clone(),
            url: self.url.clone(),
            capabilities: copy_texts(&self.capabilities),
            auth: self.auth.clone(),
            last_seen_epoch_millis: self.last_seen_epoch_millis,
        }
    }
}

pub open spec fn same_name(a: Seq<char>, b: Seq<char>) -> bool {
    lowered(a) == lowered(b)
}

impl WorkerView {
    /// Whether a machine goes by a name.
    pub open spec fn goes_by(self, host: Seq<char>) -> bool {
        ||| same_name(self.device_id, host)
        ||| same_name(self.display_name, host)
        ||| same_name(self.hostname, host)
        ||| same_name(self.source_id, host)
        ||| same_name(synthetic_id(self.device_id), host)
    }

    /// Whether this machine is listed before another.
    pub open spec fn before(self, other: WorkerView) -> bool {
        ||| text_before(self.display_name, other.display_name)
        ||| self.display_name == other.display_name && text_before(self.device_id, other.device_id)
    }
}

impl DiscoveredWorker {
    pub fn url(&self) -> (url: &str)
        ensures
            url@ == self@.url,
    {
        self.url.as_str()
    }

    /// Whether this machine goes by a name.
    pub fn matches(&self, host: &str) -> (yes: bool)
        ensures
            yes == self@.goes_by(host@),
    {
        same_ignoring_case(self.device_id.as_str(), host) || same_ignoring_case(
            self.display_name.as_str(),
            host,
        ) || same_ignoring_case(self.hostname.as_str(), host) || same_ignoring_case(
            self.source_id.as_str(),
            host,
        ) || same_ignoring_case(
            synthetic_environment_id_for_device_id(self.device_id.as_str()).as_str(),
            host,
        )
    }

    fn listed_before(&self, other: &DiscoveredWorker) -> (yes: bool)
        ensures
            yes == self@.before(other@),
    {
        is_before(self.display_name.as_str(), other.display_name.as_str()) || (same(
            self.display_name.as_str(),
            other.display_name.as_str(),
        ) && is_before(self.device_id.as_str(), other.device_id.as_str()))
    }
}

/// The environment that stands for a machine.
pub fn synthetic_environment_id_for_worker(worker: &DiscoveredWorker) -> (id: String)
    ensures
        id@ == synthetic_id(worker@.device_id),
{
    synthetic_environment_id_for_device_id(worker.device_id.as_str())
}

/// What a machine can do unless it says otherwise.
pub open spec fn usual_capabilities() -> Seq<Seq<char>> {
    Seq::empty().push("agent"@).push("terminal"@).push("workspace"@)
}

/// What a machine can do unless it says otherwise.
pub fn default_capabilities() -> (list: Vec<String>)
    ensures
        texts(list@) == usual_capabilities(),
{
    let mut list: Vec<String> = Vec::new();
    list.push("agent".to_owned());
    list.push("terminal".to_owned());
    list.push("workspace".to_owned());
    assert(texts(list@) =~= usual_capabilities());
    list
}

pub open spec fn text_or(text: Option<String>, default: Seq<char>) -> Seq<char> {
    match text {
        Some(text) => match nonblank(text@) {
            Some(text) => text,
            None => default,
        },
        None => default,
    }
}

fn nonblank_or(text: &Option<String>, default: &str) -> (out: String)
    ensures
        out@ == text_or(*text, default@),
{
    if let Some(text) = text {
        if let Some(text) = trim_nonblank(text.as_str()) {
            return text;
        }
    }
    default.to_owned()
}

/// The machine that a configured peer is, `None` where it has no address or is this machine.
pub open spec fn static_worker(own_device: Seq<char>, peer: LocalAgentPeerConfig, now: u64) -> Option<
    WorkerView,
> {
    let url = without_slashes(trimmed(peer.url@));
    let device_id = text_or(peer.device_id, "static-peer-"@ + hash_text(url));
    if url.len() == 0 || device_id == own_device {
        None
    } else {
        Some(
            WorkerView {
                source_id: "static:"@ + device_id,
                device_id,
                user_id: text_or(peer.user_id, "static-peer"@),
                display_name: text_or(peer.name, device_id),
                hostname: text_or(peer.hostname, device_id),
                url,
                capabilities: usual_capabilities(),
                auth: "none"@,
                last_seen_epoch_millis: now,
            },
        )
    }
}

/// The machine that a configured peer is.
pub fn static_worker_from_config(account: &LocalAccount, peer: &LocalAgentPeerConfig, now: u64) -> (out:
    Option<DiscoveredWorker>)
    ensures
        match out {
            Some(worker) => static_worker(account@.device_id, *peer, now) == Some(worker@),
            None => static_worker(account@.device_id, *peer, now) is None,
        },
{
    let url = trim_end_slashes(trim(peer.url.as_str())).to_owned();
    if url.as_str().is_empty() {
        return None;
    }
    let mut made_up = "static-peer-".to_owned();
    made_up.append(hex_text(stable_hash64(url.as_str()), 16).as_str());
    let device_id = nonblank_or(&peer.device_id, made_up.as_str());
    if same(device_id.as_str(), account.device_id.as_str()) {
        return None;
    }
    let mut source_id = "static:".to_owned();
    source_id.append(device_id.as_str());
    Some(
        DiscoveredWorker {
            source_id,
            user_id: nonblank_or(&peer.user_id, "static-peer"),
            display_name: nonblank_or(&peer.name, device_id.as_str()),
            hostname: nonblank_or(&peer.hostname, device_id.as_str()),
            device_id,
            url,
            capabilities: default_capabilities(),
            auth: "none".to_owned(),
            last_seen_epoch_millis: now,
        },
    )
}

spec fn unique(workers: Seq<DiscoveredWorker>) -> bool {
    forall|i: int, j: int|
        0 <= i < j < workers.len() ==> (#[trigger] workers[i]).device_id@ != (
        #[trigger] workers[j]).device_id@
}

pub open spec fn by_device(workers: Seq<DiscoveredWorker>) -> Map<Seq<char>, WorkerView>
    decreases workers.len(),
{
    if workers.len() == 0 {
        Map::empty()
    } else {
        by_device(workers.drop_last()).insert(workers.last().device_id@, workers.last()@)
    }
}

proof fn lemma_by_device(workers: Seq<DiscoveredWorker>)
    requires
        unique(workers),
    ensures
        forall|i: int|
            0 <= i < workers.len() ==> by_device(workers).contains_key(
                (#[trigger] workers[i]).device_id@,
            ) && by_device(workers)[workers[i].device_id@] == workers[i]@,
        forall|id: Seq<char>| #[trigger]
            by_device(workers).contains_key(id) ==> exists|i: int|
                0 <= i < workers.len() && (#[trigger] workers[i]).device_id@ == id,
        by_device(workers).dom().finite(),
        by_device(workers).len() == workers.len(),
    decreases workers.len(),
{
    if workers.len() > 0 {
        let rest = workers.drop_last();
        lemma_by_device(rest);
        let last = workers.last();
        assert(!by_device(rest).contains_key(last.device_id@));
        assert forall|i: int| 0 <= i < workers.len() implies by_device(workers).contains_key(
            (#[trigger] workers[i]).device_id@,
        ) && by_device(workers)[workers[i].device_id@] == workers[i]@ by {
            if i < rest.len() {
                assert(rest[i] == workers[i]);
            }
        }
        assert forall|id: Seq<char>| #[trigger]
            by_device(workers).contains_key(id) implies exists|i: int|
            0 <= i < workers.len() && (#[trigger] workers[i]).device_id@ == id by {
            if id == last.device_id@ {
                assert(workers[workers.len() - 1].device_id@ == id);
            } else {
                let i = choose|i: int|
                    0 <= i < rest.len() && (#[trigger] rest[i]).device_id@ == id;
                assert(workers[i].device_id@ == id);
            }
        }
    }
}

/// The machines that were found, each once.
#[derive(Debug)]
pub struct WorkerStore {
    workers: Vec<DiscoveredWorker>,
}

impl View for WorkerStore {
    type V = Map<Seq<char>, WorkerView>;

    closed spec fn view(&self) -> Map<Seq<char>, WorkerView> {
        by_device(self.workers@)
    }
}

/// Whether the machine of a probe was not found again.
pub open spec fn is_stale(worker: WorkerView, found: Seq<Seq<char>>) -> bool {
    "probe:"@.is_prefix_of(worker.source_id) && !found.contains(worker.source_id)
}

fn is_listed(list: &Vec<String>, text: &str) -> (yes: bool)
    ensures
        yes == texts(list@).contains(text@),
{
    let mut i: usize = 0;
    while i < list.len()
        invariant
            i <= list.len(),
            forall|j: int| 0 <= j < i ==> (#[trigger] texts(list@)[j]) != text@,
        decreases list.len() - i,
    {
        assert(texts(list@)[i as int] == list@[i as int]@);
        if same(list[i].as_str(), text) {
            return true;
        }
        i += 1;
    }
    false
}

impl WorkerStore {
    #[verifier::type_invariant]
    spec fn well_formed(self) -> bool {
        unique(self.workers@)
    }

    pub fn new() -> (store: Self)
        ensures
            store@ == Map::<Seq<char>, WorkerView>::empty(),
    {
        WorkerStore { workers: Vec::new() }
    }

    /// How many machines there are.
    pub fn len(&self) -> (n: usize)
        ensures
            n == self@.len(),
            self@.dom().finite(),
    {
        proof {
            use_type_invariant(self);
            lemma_by_device(self.workers@);
        }
        self.workers.len()
    }

    /// Adds a machine, in the place of one with the same device.
    pub fn insert(&mut self, worker: DiscoveredWorker)
        ensures
            final(self)@ == old(self)@.insert(worker@.device_id, worker@),
    {
        proof {
            use_type_invariant(&*self);
        }
        let mut workers: Vec<DiscoveredWorker> = Vec::new();
        std::mem::swap(&mut workers, &mut self.workers);
        let ghost before = workers@;
        let ghost id = worker.device_id@;
        let ghost view = worker@;
        proof {
            lemma_by_device(before);
        }
        let mut i: usize = 0;
        while i < workers.len() && !same(
            workers[i].device_id.as_str(),
            worker.device_id.as_str(),
        )
            invariant
                i <= workers.len(),
                workers@ == before,
                id == worker.device_id@,
                forall|j: int| 0 <= j < i ==> (#[trigger] before[j]).device_id@ != id,
            decreases workers.len() - i,
        {
            i += 1;
        }
        if i < workers.len() {
            workers.set(i, worker);
        } else {
            workers.push(worker);
        }
        assert(workers@[i as int].device_id@ == id && workers@[i as int]@ == view);
        assert forall|a: int, b: int| 0 <= a < b < workers@.len() implies (
        #[trigger] workers@[a]).device_id@ != (#[trigger] workers@[b]).device_id@ by {
            if a != i {
                assert(workers@[a] == before[a]);
            }
            if b != i {
                assert(workers@[b] == before[b]);
            }
        }
        proof {
            lemma_by_device(workers@);
            let old_map = by_device(before);
            let new_map = by_device(workers@);
            assert forall|key: Seq<char>| #[trigger]
                new_map.contains_key(key) == old_map.insert(id, view).contains_key(key) by {
                if new_map.contains_key(key) && key != id {
                    let at = choose|at: int|
                        0 <= at < workers@.len() && (#[trigger] workers@[at]).device_id@ == key;
                    assert(before[at].device_id@ == key);
                }
                if old_map.contains_key(key) && key != id {
                    let at = choose|at: int|
                        0 <= at < before.len() && (#[trigger] before[at]).device_id@ == key;
                    assert(workers@[at].device_id@ == key);
                }
            }
            assert forall|key: Seq<char>| #[trigger] new_map.contains_key(key) implies new_map[key]
                == old_map.insert(id, view)[key] by {
                let at = choose|at: int|
                    0 <= at < workers@.len() && (#[trigger] workers@[at]).device_id@ == key;
                if at != i {
                    assert(before[at] == workers@[at]);
                }
            }
            assert(new_map =~= old_map.insert(id, view));
        }
        self.workers = workers;
    }

    /// Drops the machines that are not kept.
    fn keep(&mut self, kept: Vec<bool>, Ghost(keeps): Ghost<spec_fn(WorkerView) -> bool>)
        requires
            kept@.len() == old(self).workers@.len(),
            forall|i: int|
                0 <= i < kept@.len() ==> (#[trigger] kept@[i]) == keeps(old(self).workers@[i]@),
        ensures
            final(self)@ == Map::<Seq<char>, WorkerView>::new(
                |id: Seq<char>| old(self)@.contains_key(id) && keeps(old(self)@[id]),
                |id: Seq<char>| old(self)@[id],
            ),
    {
        proof {
            use_type_invariant(&*self);
        }
        let ghost all = self.workers@;
        proof {
            lemma_by_device(all);
        }
        let mut workers: Vec<DiscoveredWorker> = Vec::new();
        let ghost mut from: Seq<int> = seq![];
        let mut i: usize = 0;
        while i < self.workers.len()
            invariant
                i <= self.workers.len(),
                self.workers@ == all,
                unique(all),
                kept@.len() == all.len(),
                forall|j: int| 0 <= j < kept@.len() ==> (#[trigger] kept@[j]) == keeps(all[j]@),
                from.len() == workers@.len(),
                forall|j: int|
                    0 <= j < from.len() ==> 0 <= (#[trigger] from[j]) < i && kept@[from[j]]
                        && workers@[j]@ == all[from[j]]@,
                forall|a: int, b: int| 0 <= a < b < from.len() ==> #[trigger] from[a] < #[trigger] from[b],
                forall|j: int| 0 <= j < i && #[trigger] kept@[j] ==> from.contains(j),
            decreases self.workers.len() - i,
        {
            if kept[i] {
                workers.push(self.workers[i].clone());
                proof {
                    let before = from;
                    from = from.push(i as int);
                    assert(from[before.len() as int] == i);
                    assert forall|j: int| 0 <= j < i + 1 && #[trigger] kept@[j] implies from.contains(
                        j,
                    ) by {
                        if j < i {
                            let at = choose|at: int| 0 <= at < before.len() && before[at] == j;
                            assert(from[at] == j);
                        }
                    }
                }
            }
            i += 1;
        }
        assert forall|a: int, b: int| 0 <= a < b < workers@.len() implies (
        #[trigger] workers@[a]).device_id@ != (#[trigger] workers@[b]).device_id@ by {
            assert(from[a] < from[b]);
            assert(workers@[a]@.device_id == all[from[a]]@.device_id);
            assert(workers@[b]@.device_id == all[from[b]]@.device_id);
            assert(all[from[a]].device_id@ != all[from[b]].device_id@);
        }
        proof {
            lemma_by_device(workers@);
            let old_map = by_device(all);
            let new_map = by_device(workers@);
            let wanted = Map::<Seq<char>, WorkerView>::new(
                |id: Seq<char>| old_map.contains_key(id) && keeps(old_map[id]),
                |id: Seq<char>| old_map[id],
            );
            assert forall|key: Seq<char>| #[trigger]
                new_map.contains_key(key) == wanted.contains_key(key) by {
                if new_map.contains_key(key) {
                    let at = choose|at: int|
                        0 <= at < workers@.len() && (#[trigger] workers@[at]).device_id@ == key;
                    assert(workers@[at]@.device_id == all[from[at]]@.device_id);
                    assert(all[from[at]].device_id@ == key);
                }
                if wanted.contains_key(key) {
                    let at = choose|at: int|
                        0 <= at < all.len() && (#[trigger] all[at]).device_id@ == key;
                    assert(kept@[at]);
                    let to = choose|to: int| 0 <= to < from.len() && from[to] == at;
                    assert(workers@[to]@.device_id == all[at]@.device_id);
                    assert(workers@[to].device_id@ == key);
                }
            }
            assert forall|key: Seq<char>| #[trigger] new_map.contains_key(key) implies new_map[key]
                == wanted[key] by {
                let at = choose|at: int|
                    0 <= at < workers@.len() && (#[trigger] workers@[at]).device_id@ == key;
                assert(workers@[at]@ == all[from[at]]@);
                assert(all[from[at]].device_id@ == key);
            }
            assert(new_map =~= wanted);
        }
        self.workers = workers;
    }

    /// Drops the machines of probes that were not found again.
    pub fn drop_stale_probes(&mut self, found: &Vec<String>)
        ensures
            final(self)@ == Map::<Seq<char>, WorkerView>::new(
                |id: Seq<char>|
                    old(self)@.contains_key(id) && !is_stale(old(self)@[id], texts(found@)),
                |id: Seq<char>| old(self)@[id],
            ),
    {
        let ghost keeps = |worker: WorkerView| !is_stale(worker, texts(found@));
        let mut kept: Vec<bool> = Vec::new();
        let mut i: usize = 0;
        while i < self.workers.len()
            invariant
                i <= self.workers.len(),
                *self == *old(self),
                kept@.len() == i,
                forall|j: int|
                    0 <= j < i ==> (#[trigger] kept@[j]) == !is_stale(
                        self.workers@[j]@,
                        texts(found@),
                    ),
            decreases self.workers.len() - i,
        {
            let source = self.workers[i].source_id.as_str();
            kept.push(!starts_with(source, "probe:") || is_listed(found, source));
            i += 1;
        }
        self.keep(kept, Ghost(keeps));
        assert(self@ =~= Map::<Seq<char>, WorkerView>::new(
            |id: Seq<char>| old(self)@.contains_key(id) && !is_stale(old(self)@[id], texts(found@)),
            |id: Seq<char>| old(self)@[id],
        ));
    }

    /// Drops the machines that came from a source.
    pub fn drop_source(&mut self, source: &str)
        ensures
            final(self)@ == Map::<Seq<char>, WorkerView>::new(
                |id: Seq<char>|
                    old(self)@.contains_key(id) && old(self)@[id].source_id != source@,
                |id: Seq<char>| old(self)@[id],
            ),
    {
        let ghost keeps = |worker: WorkerView| worker.source_id != source@;
        let mut kept: Vec<bool> = Vec::new();
        let mut i: usize = 0;
        while i < self.workers.len()
            invariant
                i <= self.workers.len(),
                *self == *old(self),
                kept@.len() == i,
                forall|j: int|
                    0 <= j < i ==> (#[trigger] kept@[j]) == (self.workers@[j]@.source_id
                        != source@),
            decreases self.workers.len() - i,
        {
            kept.push(!same(self.workers[i].source_id.as_str(), source));
            i += 1;
        }
        self.keep(kept, Ghost(keeps));
        assert(self@ =~= Map::<Seq<char>, WorkerView>::new(
            |id: Seq<char>| old(self)@.contains_key(id) && old(self)@[id].source_id != source@,
            |id: Seq<char>| old(self)@[id],
        ));
    }
}

/// Whether a name stands for no machine but this one.
pub open spec fn names_no_machine(host: Seq<char>) -> bool {
    is_blank(host) || same_name(trimmed(host), "warp"@)
}

/// Whether a name stands for no machine but this one.
pub fn stands_for_this_machine(host: &str) -> (yes: bool)
    ensures
        yes == names_no_machine(host@),
{
    let name = trim(host);
    name.is_empty() || same_ignoring_case(name, "warp")
}

/// Whether `found` is the answer to the question for another machine: one that goes by the name.
/// None answers to a name that stands for this one.
pub open spec fn is_answer(
    store: Map<Seq<char>, WorkerView>,
    host: Seq<char>,
    found: Option<WorkerView>,
) -> bool {
    if names_no_machine(host) {
        found is None
    } else {
        match found {
            Some(worker) => store.contains_value(worker) && worker.goes_by(trimmed(host)),
            None => forall|worker: WorkerView| #[trigger]
                store.contains_value(worker) ==> !worker.goes_by(trimmed(host)),
        }
    }
}

pub open spec fn worker_view(worker: Option<DiscoveredWorker>) -> Option<WorkerView> {
    match worker {
        Some(worker) => Some(worker@),
        None => None,
    }
}

/// Whether the machines are listed by their names, and those of one name by their devices.
pub open spec fn in_order(workers: Seq<DiscoveredWorker>) -> bool {
    forall|i: int, j: int|
        0 <= i < j < workers.len() ==> (#[trigger] workers[i])@.before((#[trigger] workers[j])@)
}

/// Whether the machines of a store are listed, each once, in order.
pub open spec fn lists(workers: Seq<DiscoveredWorker>, store: Map<Seq<char>, WorkerView>) -> bool {
    &&& in_order(workers)
    &&& by_device(workers) == store
    &&& workers.len() == store.len()
}

proof fn lemma_before_total(a: WorkerView, b: WorkerView)
    ensures
        a.before(b) || b.before(a) || a.device_id == b.device_id,
{
    crate::text::lemma_order_total(a.display_name, b.display_name);
    crate::text::lemma_order_total(a.device_id, b.device_id);
}

proof fn lemma_before_transitive(a: WorkerView, b: WorkerView, c: WorkerView)
    requires
        a.before(b),
        b.before(c),
    ensures
        a.before(c),
{
    if text_before(a.display_name, b.display_name) && text_before(b.display_name, c.display_name) {
        crate::text::lemma_order_transitive(a.display_name, b.display_name, c.display_name);
    }
    if text_before(a.device_id, b.device_id) && text_before(b.device_id, c.device_id) {
        crate::text::lemma_order_transitive(a.device_id, b.device_id, c.device_id);
    }
}

/// Puts a machine at its place.
fn place(workers: &mut Vec<DiscoveredWorker>, worker: DiscoveredWorker) -> (at: usize)
    requires
        in_order(old(workers)@),
        forall|i: int|
            0 <= i < old(workers)@.len() ==> (#[trigger] old(workers)@[i]).device_id@
                != worker.device_id@,
    ensures
        in_order(final(workers)@),
        at <= old(workers)@.len(),
        final(workers)@ == old(workers)@.insert(at as int, worker),
{
    let ghost before = workers@;
    let mut i: usize = 0;
    while i < workers.len() && workers[i].listed_before(&worker)
        invariant
            i <= workers.len(),
            workers@ == before,
            forall|j: int| 0 <= j < i ==> (#[trigger] before[j])@.before(worker@),
        decreases workers.len() - i,
    {
        i += 1;
    }
    workers.insert(i, worker);
    assert forall|a: int, b: int| 0 <= a < b < workers@.len() implies (
    #[trigger] workers@[a])@.before((#[trigger] workers@[b])@) by {
        let old_a = if a < i {
            a
        } else {
            a - 1
        };
        let old_b = if b < i {
            b
        } else {
            b - 1
        };
        if a == i {
            lemma_before_total(before[i as int]@, worker@);
            if old_b > i {
                assert(before[i as int]@.before(before[old_b]@));
                lemma_before_transitive(worker@, before[i as int]@, before[old_b]@);
            }
        } else if b != i {
            assert(before[old_a]@.before(before[old_b]@));
        }
    }
    i
}

impl WorkerStore {
    proof fn lemma_values(&self)
        requires
            unique(self.workers@),
        ensures
            forall|i: int|
                0 <= i < self.workers@.len() ==> self@.contains_value(
                    (#[trigger] self.workers@[i])@,
                ),
            forall|worker: WorkerView| #[trigger]
                self@.contains_value(worker) ==> exists|i: int|
                    0 <= i < self.workers@.len() && (#[trigger] self.workers@[i])@ == worker,
            self@.len() == self.workers@.len(),
    {
        let workers = self.workers@;
        lemma_by_device(workers);
        assert forall|i: int| 0 <= i < workers.len() implies self@.contains_value(
            (#[trigger] workers[i])@,
        ) by {
            assert(self@.contains_key(workers[i].device_id@));
        }
        assert forall|worker: WorkerView| #[trigger] self@.contains_value(worker) implies exists|
            i: int,
        |
            0 <= i < workers.len() && (#[trigger] workers[i])@ == worker by {
            let id = choose|id: Seq<char>| #[trigger] self@.contains_key(id) && self@[id] == worker;
            let i = choose|i: int| 0 <= i < workers.len() && (#[trigger] workers[i]).device_id@ == id;
            assert(workers[i]@ == worker);
        }
    }

    /// The other machine that a name stands for.
    pub fn find_worker(&self, host: &str) -> (found: Option<DiscoveredWorker>)
        ensures
            is_answer(self@, host@, worker_view(found)),
    {
        proof {
            use_type_invariant(self);
            self.lemma_values();
        }
        if stands_for_this_machine(host) {
            return None;
        }
        let name = trim(host);
        let mut i: usize = 0;
        while i < self.workers.len()
            invariant
                i <= self.workers.len(),
                name@ == trimmed(host@),
                !names_no_machine(host@),
                forall|j: int|
                    0 <= j < i ==> !(#[trigger] self.workers@[j])@.goes_by(name@),
                forall|j: int|
                    0 <= j < self.workers@.len() ==> self@.contains_value(
                        (#[trigger] self.workers@[j])@,
                    ),
            decreases self.workers.len() - i,
        {
            if self.workers[i].matches(name) {
                return Some(self.workers[i].clone());
            }
            i += 1;
        }
        None
    }

    /// The machine that an environment stands for.
    pub fn find_worker_by_synthetic_environment_id(&self, environment: &str) -> (found: Option<
        DiscoveredWorker,
    >)
        ensures
            match found {
                Some(worker) => self@.contains_value(worker@) && synthetic_id(worker@.device_id)
                    == trimmed(environment@),
                None => forall|worker: WorkerView| #[trigger]
                    self@.contains_value(worker) ==> synthetic_id(worker.device_id) != trimmed(
                        environment@,
                    ),
            },
    {
        proof {
            use_type_invariant(self);
            self.lemma_values();
        }
        let id = trim(environment);
        if !is_synthetic_environment_id(id) {
            assert forall|worker: WorkerView| #[trigger] self@.contains_value(worker) implies
                synthetic_id(worker.device_id) != id@ by {
                law_synthetic_ids_are_known(worker.device_id);
            }
            return None;
        }
        let mut i: usize = 0;
        while i < self.workers.len()
            invariant
                i <= self.workers.len(),
                id@ == trimmed(environment@),
                forall|j: int|
                    0 <= j < i ==> synthetic_id((#[trigger] self.workers@[j])@.device_id)
                        != id@,
                forall|j: int|
                    0 <= j < self.workers@.len() ==> self@.contains_value(
                        (#[trigger] self.workers@[j])@,
                    ),
            decreases self.workers.len() - i,
        {
            let known = synthetic_environment_id_for_worker(&self.workers[i]);
            if same(known.as_str(), id) {
                return Some(self.workers[i].clone());
            }
            i += 1;
        }
        None
    }

    /// All machines, by their names.
    pub fn discovered_workers(&self) -> (list: Vec<DiscoveredWorker>)
        ensures
            lists(list@, self@),
    {
        proof {
            use_type_invariant(self);
            lemma_by_device(self.workers@);
        }
        let ghost all = self.workers@;
        let mut list: Vec<DiscoveredWorker> = Vec::new();
        let mut i: usize = 0;
        assert(all.take(0) =~= seq![]);
        while i < self.workers.len()
            invariant
                i <= self.workers.len(),
                all == self.workers@,
                unique(all),
                unique(list@),
                in_order(list@),
                list@.len() == i,
                by_device(list@) == by_device(all.take(i as int)),
            decreases self.workers.len() - i,
        {
            let worker = self.workers[i].clone();
            let ghost view = worker@;
            let ghost id = worker.device_id@;
            let ghost before = list@;
            proof {
                assert(all.take(i + 1).drop_last() =~= all.take(i as int));
                assert(worker@.device_id == all[i as int]@.device_id);
                lemma_by_device(before);
                assert(unique(all.take(i as int)));
                lemma_by_device(all.take(i as int));
                assert forall|j: int| 0 <= j < before.len() implies (
                #[trigger] before[j]).device_id@ != id by {
                    assert(by_device(before).contains_key(before[j].device_id@));
                    let at = choose|at: int|
                        0 <= at < i && (#[trigger] all.take(i as int)[at]).device_id@
                            == before[j].device_id@;
                    assert(all[at].device_id@ != all[i as int].device_id@);
                }
            }
            let at: usize = place(&mut list, worker);
            proof {
                assert forall|a: int, b: int| 0 <= a < b < list@.len() implies (
                #[trigger] list@[a]).device_id@ != (#[trigger] list@[b]).device_id@ by {
                    let old_a = if a < at { a } else { a - 1 };
                    let old_b = if b < at { b } else { b - 1 };
                    if a != at && b != at {
                        assert(before[old_a].device_id@ != before[old_b].device_id@);
                    } else if a == at {
                        assert(before[old_b].device_id@ != id);
                    } else {
                        assert(before[old_a].device_id@ != id);
                    }
                }
                lemma_by_device(list@);
                let new_map = by_device(list@);
                let old_map = by_device(before);
                assert forall|key: Seq<char>| #[trigger]
                    new_map.contains_key(key) == old_map.insert(id, view).contains_key(key) by {
                    if new_map.contains_key(key) && key != id {
                        let to = choose|to: int|
                            0 <= to < list@.len() && (#[trigger] list@[to]).device_id@ == key;
                        let was = if to < at { to } else { to - 1 };
                        assert(before[was].device_id@ == key);
                    }
                    if old_map.contains_key(key) {
                        let was = choose|was: int|
                            0 <= was < before.len() && (#[trigger] before[was]).device_id@ == key;
                        let to = if was < at { was } else { was + 1 };
                        assert(list@[to].device_id@ == key);
                    }
                    assert(list@[at as int].device_id@ == id);
                }
                assert forall|key: Seq<char>| #[trigger]
                    new_map.contains_key(key) implies new_map[key] == old_map.insert(id, view)[key] by {
                    let to = choose|to: int|
                        0 <= to < list@.len() && (#[trigger] list@[to]).device_id@ == key;
                    if to != at {
                        let was = if to < at { to } else { to - 1 };
                        assert(list@[to] == before[was]);
                    }
                }
                assert(new_map =~= old_map.insert(id, view));
            }
            i += 1;
        }
        assert(all.take(all.len() as int) =~= all);
        list
    }

    /// Adds the machines that the user has named.
    pub fn seed_static_workers(
        &mut self,
        account: &LocalAccount,
        config: &LocalAgentWorkerConfig,
        now: u64,
    )
        ensures
            final(self)@ == with_peers(old(self)@, account@.device_id, config.peers@, now),
    {
        let mut i: usize = 0;
        assert(config.peers@.take(0) =~= seq![]);
        while i < config.peers.len()
            invariant
                i <= config.peers.len(),
                self@ == with_peers(
                    old(self)@,
                    account@.device_id,
                    config.peers@.take(i as int),
                    now,
                ),
            decreases config.peers.len() - i,
        {
            assert(config.peers@.take(i + 1).drop_last() =~= config.peers@.take(i as int));
            if let Some(worker) = static_worker_from_config(account, &config.peers[i], now) {
                self.insert(worker);
            }
            i += 1;
        }
        assert(config.peers@.take(config.peers@.len() as int) =~= config.peers@);
    }

    /// Takes in what a round of probes found; this machine is not kept.
    pub fn take_probes(&mut self, own_device: &str, found: Vec<DiscoveredWorker>)
        ensures
            final(self)@ == after_probes(old(self)@, own_device@, worker_views(found@)),
    {
        let ghost views = worker_views(found@);
        let mut sources: Vec<String> = Vec::new();
        let mut i: usize = 0;
        assert(views.take(0) =~= seq![]);
        assert(texts(sources@) =~= seq![]);
        while i < found.len()
            invariant
                i <= found.len(),
                views == worker_views(found@),
                self@ == with_found(old(self)@, own_device@, views.take(i as int)),
                texts(sources@) == found_sources(own_device@, views.take(i as int)),
            decreases found.len() - i,
        {
            assert(views.take(i + 1).drop_last() =~= views.take(i as int));
            assert(views.take(i + 1).last() == found@[i as int]@);
            if !same(found[i].device_id.as_str(), own_device) {
                let ghost before = texts(sources@);
                let source = found[i].source_id.clone();
                sources.push(source);
                assert(texts(sources@) =~= before.push(source@));
                self.insert(found[i].clone());
            }
            i += 1;
        }
        assert(views.take(views.len() as int) =~= views);
        self.drop_stale_probes(&sources);
    }
}

pub open spec fn worker_views(workers: Seq<DiscoveredWorker>) -> Seq<WorkerView> {
    workers.map_values(|worker: DiscoveredWorker| worker@)
}

/// The machines with those that the user has named.
pub open spec fn with_peers(
    store: Map<Seq<char>, WorkerView>,
    own_device: Seq<char>,
    peers: Seq<LocalAgentPeerConfig>,
    now: u64,
) -> Map<Seq<char>, WorkerView>
    decreases peers.len(),
{
    if peers.len() == 0 {
        store
    } else {
        let before = with_peers(store, own_device, peers.drop_last(), now);
        match static_worker(own_device, peers.last(), now) {
            Some(worker) => before.insert(worker.device_id, worker),
            None => before,
        }
    }
}

/// The machines with those that probes found.
pub open spec fn with_found(
    store: Map<Seq<char>, WorkerView>,
    own_device: Seq<char>,
    found: Seq<WorkerView>,
) -> Map<Seq<char>, WorkerView>
    decreases found.len(),
{
    if found.len() == 0 {
        store
    } else {
        let before = with_found(store, own_device, found.drop_last());
        if found.last().device_id == own_device {
            before
        } else {
            before.insert(found.last().device_id, found.last())
        }
    }
}

/// The sources of the machines that probes found.
pub open spec fn found_sources(own_device: Seq<char>, found: Seq<WorkerView>) -> Seq<Seq<char>>
    decreases found.len(),
{
    if found.len() == 0 {
        seq![]
    } else {
        let before = found_sources(own_device, found.drop_last());
        if found.last().device_id == own_device {
            before
        } else {
            before.push(found.last().source_id)
        }
    }
}

/// The machines after a round of probes: those found are there, and those of earlier rounds that
/// were not found again are gone.
pub open spec fn after_probes(
    store: Map<Seq<char>, WorkerView>,
    own_device: Seq<char>,
    found: Seq<WorkerView>,
) -> Map<Seq<char>, WorkerView> {
    let added = with_found(store, own_device, found);
    let sources = found_sources(own_device, found);
    Map::new(
        |id: Seq<char>| added.contains_key(id) && !is_stale(added[id], sources),
        |id: Seq<char>| added[id],
    )
}

proof fn lemma_found_is_not_own(
    store: Map<Seq<char>, WorkerView>,
    own_device: Seq<char>,
    found: Seq<WorkerView>,
)
    requires
        !store.contains_key(own_device),
    ensures
        !with_found(store, own_device, found).contains_key(own_device),
    decreases found.len(),
{
    if found.len() > 0 {
        lemma_found_is_not_own(store, own_device, found.drop_last());
    }
}

proof fn lemma_peers_are_not_own(
    store: Map<Seq<char>, WorkerView>,
    own_device: Seq<char>,
    peers: Seq<LocalAgentPeerConfig>,
    now: u64,
)
    requires
        !store.contains_key(own_device),
    ensures
        !with_peers(store, own_device, peers, now).contains_key(own_device),
    decreases peers.len(),
{
    if peers.len() > 0 {
        lemma_peers_are_not_own(store, own_device, peers.drop_last(), now);
    }
}

/// A machine never finds itself, neither among its peers nor by its probes.
pub proof fn law_a_machine_does_not_find_itself(
    store: Map<Seq<char>, WorkerView>,
    own_device: Seq<char>,
    peers: Seq<LocalAgentPeerConfig>,
    found: Seq<WorkerView>,
    now: u64,
)
    requires
        !store.contains_key(own_device),
    ensures
        !with_peers(store, own_device, peers, now).contains_key(own_device),
        !after_probes(store, own_device, found).contains_key(own_device),
{
    lemma_peers_are_not_own(store, own_device, peers, now);
    lemma_found_is_not_own(store, own_device, found);
}

/// A round of probes that finds nothing leaves no machine of an earlier probe, and all others.
pub proof fn law_lost_probes_are_dropped(
    store: Map<Seq<char>, WorkerView>,
    own_device: Seq<char>,
    id: Seq<char>,
)
    requires
        store.contains_key(id),
    ensures
        after_probes(store, own_device, seq![]).contains_key(id) <==> !"probe:"@.is_prefix_of(
            store[id].source_id,
        ),
{
}

/// A machine that is known by its device or by its environment is found under either name.
pub proof fn law_machines_go_by_their_names(worker: WorkerView)
    ensures
        worker.goes_by(worker.device_id),
        worker.goes_by(worker.display_name),
        worker.goes_by(worker.hostname),
        worker.goes_by(synthetic_id(worker.device_id)),
{
}

} // verus!
