//! Health of the Art-Net targets as the sender reports it: a target that
//! failed counts as connecting until its cooldown has run out.

use vstd::prelude::*;
use crate::clock::{clamped, elapsed, now_millis, shifted};
use crate::controller::{address_text, text_view};
use crate::text::{
    chars_of,
    find_separator,
    join,
    next_separator,
    parse_number,
    parse_up_to,
    push_decimal,
};

verus! {

/// What is known of one target.
#[derive(Debug, Clone)]
pub struct ControllerStatus {
    pub ip: String,
    pub port: u16,
    pub is_routable: bool,
    /// True while a cooldown runs.
    pub is_connecting: bool,
    pub last_success: Option<i64>,
    pub last_failure: Option<i64>,
    pub failure_count: u64,
    pub last_error: Option<String>,
    /// The end of the cooldown that the last failure started.
    pub cooldown_until: Option<i64>,
}

pub struct StatusView {
    pub ip: Seq<char>,
    pub port: u16,
    pub is_routable: bool,
    pub is_connecting: bool,
    pub last_success: Option<i64>,
    pub last_failure: Option<i64>,
    pub failure_count: u64,
    pub last_error: Option<Seq<char>>,
    pub cooldown_until: Option<i64>,
}

impl View for ControllerStatus {
    type V = StatusView;

    open spec fn view(&self) -> StatusView {
        StatusView {
            ip: self.ip@,
            port: self.port,
            is_routable: self.is_routable,
            is_connecting: self.is_connecting,
            last_success: self.last_success,
            last_failure: self.last_failure,
            failure_count: self.failure_count,
            last_error: text_view(self.last_error),
            cooldown_until: self.cooldown_until,
        }
    }
}

impl StatusView {
    /// A target as it is registered: connected, with no failure on record.
    pub open spec fn registered(ip: Seq<char>, port: u16, now: i64) -> StatusView {
        StatusView {
            ip,
            port,
            is_routable: true,
            is_connecting: false,
            last_success: Some(now),
            last_failure: None,
            failure_count: 0,
            last_error: None,
            cooldown_until: None,
        }
    }

    /// Whether a cooldown still runs at `now`.
    pub open spec fn cooling(self, now: i64) -> bool {
        self.cooldown_until matches Some(until) && now < until
    }

    /// After a success: it is always noted; while the cooldown runs nothing
    /// else changes, and from its end on the target is connected again.
    pub open spec fn succeeded(self, now: i64) -> StatusView {
        if self.cooling(now) {
            StatusView { last_success: Some(now), ..self }
        } else {
            StatusView {
                last_success: Some(now),
                is_routable: true,
                is_connecting: false,
                last_error: None,
                cooldown_until: None,
                ..self
            }
        }
    }

    /// After a failure: the target is connecting, and a cooldown of
    /// `cooldown_ms` starts at `now`.
    pub open spec fn failed(self, error: Seq<char>, now: i64, cooldown_ms: i64) -> StatusView {
        StatusView {
            is_routable: false,
            is_connecting: true,
            last_failure: Some(now),
            failure_count: if self.failure_count == u64::MAX {
                u64::MAX
            } else {
                (self.failure_count + 1) as u64
            },
            last_error: Some(error),
            cooldown_until: Some(clamped(now + cooldown_ms)),
            ..self
        }
    }

    /// After the periodic look: a connecting target whose cooldown has run
    /// out is connected again.
    pub open spec fn promoted(self, now: i64) -> StatusView {
        if self.cooldown_until is Some && !self.cooling(now) && self.is_connecting {
            StatusView { is_routable: true, is_connecting: false, cooldown_until: None, ..self }
        } else {
            self
        }
    }
}

impl ControllerStatus {
    /// A copy of the record.
    pub fn copy(&self) -> (out: ControllerStatus)
        ensures
            out@ == self@,
    {
        ControllerStatus {
            ip: self.ip.clone(),
            port: self.port,
            is_routable: self.is_routable,
            is_connecting: self.is_connecting,
            last_success: self.last_success,
            last_failure: self.last_failure,
            failure_count: self.failure_count,
            last_error: match &self.last_error {
                Some(e) => Some(e.clone()),
                None => None,
            },
            cooldown_until: self.cooldown_until,
        }
    }

    pub fn registered(ip: String, port: u16, now: i64) -> (status: ControllerStatus)
        ensures
            status@ == StatusView::registered(ip@, port, now),
    {
        ControllerStatus {
            ip,
            port,
            is_routable: true,
            is_connecting: false,
            last_success: Some(now),
            last_failure: None,
            failure_count: 0,
            last_error: None,
            cooldown_until: None,
        }
    }

    /// Notes a success at `now`.
    pub fn succeed(&mut self, now: i64)
        ensures
            final(self)@ == old(self)@.succeeded(now),
    {
        self.last_success = Some(now);
        if let Some(until) = self.cooldown_until {
            if now < until {
                return ;
            }
        }
        self.is_routable = true;
        self.is_connecting = false;
        self.last_error = None;
        self.cooldown_until = None;
    }

    /// Notes a failure at `now` and starts the cooldown.
    pub fn fail(&mut self, error: &str, now: i64, cooldown_ms: i64)
        ensures
            final(self)@ == old(self)@.failed(error@, now, cooldown_ms),
    {
        self.is_routable = false;
        self.is_connecting = true;
        self.last_failure = Some(now);
        if self.failure_count < u64::MAX {
            self.failure_count = self.failure_count + 1;
        }
        self.last_error = Some(join(error, ""));
        self.cooldown_until = Some(shifted(now, cooldown_ms));
        assert(error@ + ""@ =~= error@) by {
            reveal_strlit("");
        }
    }

    /// Ends a cooldown that has run out.
    pub fn promote(&mut self, now: i64)
        ensures
            final(self)@ == old(self)@.promoted(now),
    {
        if let Some(until) = self.cooldown_until {
            if now >= until && self.is_connecting {
                self.is_routable = true;
                self.is_connecting = false;
                self.cooldown_until = None;
            }
        }
    }
}

/// Cooldown monotonicity, first half: after a failure at `t0` with a
/// cooldown of `cooldown_ms`, every success before `t0 + cooldown_ms`
/// leaves the target connecting and not routable, and so does the periodic
/// look. (The end of a cooldown is an instant; one that would lie behind
/// the last instant ends there. The last instant itself is left out.)
pub proof fn lemma_success_in_cooldown(
    s: StatusView,
    error: Seq<char>,
    t0: i64,
    cooldown_ms: i64,
    t: i64,
)
    requires
        t < t0 + cooldown_ms,
        t < i64::MAX,
    ensures
        s.failed(error, t0, cooldown_ms).succeeded(t).is_connecting,
        !s.failed(error, t0, cooldown_ms).succeeded(t).is_routable,
        s.failed(error, t0, cooldown_ms).succeeded(t).cooldown_until == s.failed(
            error,
            t0,
            cooldown_ms,
        ).cooldown_until,
        s.failed(error, t0, cooldown_ms).promoted(t) == s.failed(error, t0, cooldown_ms),
{
}

/// Cooldown monotonicity, second half: at or after `t0 + cooldown_ms` the
/// first success, or the periodic look, makes the target routable again.
pub proof fn lemma_success_after_cooldown(
    s: StatusView,
    error: Seq<char>,
    t0: i64,
    cooldown_ms: i64,
    t: i64,
)
    requires
        t >= t0 + cooldown_ms,
    ensures
        s.failed(error, t0, cooldown_ms).succeeded(t).is_routable,
        !s.failed(error, t0, cooldown_ms).succeeded(t).is_connecting,
        s.failed(error, t0, cooldown_ms).succeeded(t).cooldown_until is None,
        s.failed(error, t0, cooldown_ms).promoted(t).is_routable,
        !s.failed(error, t0, cooldown_ms).promoted(t).is_connecting,
{
}

/// Successes during the cooldown do not shorten it: whatever successes
/// come before its end, the target stays connecting, and the first success
/// from its end on makes it routable.
pub proof fn lemma_cooldown_survives_successes(
    s: StatusView,
    error: Seq<char>,
    t0: i64,
    cooldown_ms: i64,
    early: Seq<i64>,
    t: i64,
)
    requires
        forall|i: int| 0 <= i < early.len() ==> early[i] < t0 + cooldown_ms,
        t >= t0 + cooldown_ms,
    ensures
        after_successes(s.failed(error, t0, cooldown_ms), early).is_connecting,
        !after_successes(s.failed(error, t0, cooldown_ms), early).is_routable,
        after_successes(s.failed(error, t0, cooldown_ms), early).succeeded(t).is_routable,
        !after_successes(s.failed(error, t0, cooldown_ms), early).succeeded(t).is_connecting,
    decreases early.len(),
{
    let f = s.failed(error, t0, cooldown_ms);
    lemma_early_successes(f, t0, cooldown_ms, early);
}

proof fn lemma_early_successes(f: StatusView, t0: i64, cooldown_ms: i64, early: Seq<i64>)
    requires
        forall|i: int| 0 <= i < early.len() ==> early[i] < t0 + cooldown_ms,
        t0 + cooldown_ms <= i64::MAX,
        f.cooldown_until == Some(clamped(t0 + cooldown_ms)),
        f.is_connecting,
        !f.is_routable,
    ensures
        after_successes(f, early).is_connecting,
        !after_successes(f, early).is_routable,
        after_successes(f, early).cooldown_until == f.cooldown_until,
    decreases early.len(),
{
    if early.len() > 0 {
        lemma_early_successes(f, t0, cooldown_ms, early.drop_last());
        assert(early[early.len() - 1] < t0 + cooldown_ms);
    }
}

/// The record after successes at the given times, in order.
pub open spec fn after_successes(s: StatusView, times: Seq<i64>) -> StatusView
    decreases times.len(),
{
    if times.len() == 0 {
        s
    } else {
        after_successes(s, times.drop_last()).succeeded(times.last())
    }
}

#[verifier::external_type_specification]
#[verifier::external_body]
#[verifier::reject_recursive_types(K)]
#[verifier::reject_recursive_types(V)]
#[verifier::reject_recursive_types(S)]
pub struct ExDashMap<K, V, S>(dashmap::DashMap<K, V, S>);

/// The targets by their keys.
pub type Registry = dashmap::DashMap<String, ControllerStatus>;

/// The records of the targets by their keys, as plain values.
pub type RegistryView = Map<Seq<char>, StatusView>;

/// What a map of targets holds: the record under each key.
pub uninterp spec fn registry_contents(m: Registry) -> RegistryView;

/// `DashMap::new`: a map that holds nothing.
#[verifier::external_body]
fn registry_new() -> (m: Registry)
    ensures
        registry_contents(m) == RegistryView::empty(),
{
    dashmap::DashMap::new()
}

/// `DashMap::insert`: afterwards the key holds the value, whether it held
/// one before or not, and the other keys hold what they held.
#[verifier::external_body]
fn registry_insert(
    m: &mut Registry,
    key: String,
    status: ControllerStatus,
)
    ensures
        registry_contents(*final(m)) == registry_contents(*old(m)).insert(key@, status@),
{
    m.insert(key, status);
}

/// `DashMap::get`: a copy of the value under the key, if the map holds one.
#[verifier::external_body]
fn registry_get(m: &Registry, key: &str) -> (status: Option<
    ControllerStatus,
>)
    ensures
        match status {
            Some(s) => registry_contents(*m).dom().contains(key@) && registry_contents(*m)[key@]
                == s@,
            None => !registry_contents(*m).dom().contains(key@),
        },
{
    m.get(key).map(|entry| entry.value().clone())
}

/// `DashMap::len`: the number of keys.
#[verifier::external_body]
fn registry_len(m: &Registry) -> (n: usize)
    ensures
        n == registry_contents(*m).dom().len(),
{
    m.len()
}

/// `DashMap::iter`: every entry of the map once, as copies, in an order
/// that the map chooses.
#[verifier::external_body]
fn registry_entries(m: &Registry) -> (entries: Vec<
    (String, ControllerStatus),
>)
    ensures
        is_listing(registry_contents(*m), entries_view(entries@)),
{
    m.iter().map(|entry| (entry.key().clone(), entry.value().clone())).collect()
}

/// Keys and records as plain values.
pub open spec fn entries_view(entries: Seq<(String, ControllerStatus)>) -> Seq<
    (Seq<char>, StatusView),
> {
    entries.map_values(|e: (String, ControllerStatus)| (e.0@, e.1@))
}

/// A listing of a map names every key once, with what the map holds
/// under it.
pub open spec fn is_listing(
    contents: Map<Seq<char>, StatusView>,
    listing: Seq<(Seq<char>, StatusView)>,
) -> bool {
    &&& forall|i: int|
        0 <= i < listing.len() ==> contents.dom().contains((#[trigger] listing[i]).0)
            && contents[listing[i].0] == listing[i].1
    &&& forall|i: int, j: int|
        0 <= i < j < listing.len() ==> (#[trigger] listing[i]).0 != (#[trigger] listing[j]).0
    &&& forall|k: Seq<char>| #[trigger]
        contents.dom().contains(k) ==> exists|i: int|
            0 <= i < listing.len() && (#[trigger] listing[i]).0 == k
}

/// Uptime and frame count. The frame rate is the count divided by the
/// uptime in seconds.
#[derive(Clone, Copy, Debug, PartialEq, Eq, Structural)]
pub struct SystemStats {
    pub uptime_ms: i64,
    pub total_frames: u64,
    pub last_update: i64,
}

/// What the monitor publishes.
#[derive(Debug)]
pub struct SenderMonitorStats {
    /// The targets, ordered by the numbers of their addresses.
    pub controllers: Vec<ControllerStatus>,
    pub system: SystemStats,
}

/// The records of a list of targets.
pub open spec fn statuses_view(list: Seq<ControllerStatus>) -> Seq<StatusView> {
    list.map_values(|s: ControllerStatus| s@)
}

/// The key of a target in the map: `ip:port`.
pub fn controller_key(ip: &str, port: u16) -> (key: String)
    ensures
        key@ == address_text(ip@, port),
{
    let mut key: String = join(ip, ":");
    push_decimal(&mut key, port as u64);
    key
}

/// The numbers of an address from field `start` on: the fields between the
/// dots that read as a number from 0 to 255, in order. Fields that do not
/// are passed over.
pub open spec fn octets_from(ip: Seq<char>, start: int) -> Seq<u8>
    decreases ip.len() - start,
{
    if start > ip.len() || start < 0 {
        Seq::empty()
    } else {
        let end = next_separator(ip, '.', start);
        let head = match parse_up_to(ip.subrange(start, end), 255) {
            Some(v) => seq![v as u8],
            None => Seq::empty(),
        };
        if start <= end < ip.len() {
            head + octets_from(ip, end + 1)
        } else {
            head
        }
    }
}

/// The numbers by which addresses are ordered.
pub open spec fn ip_sort_key(ip: Seq<char>) -> Seq<u8> {
    octets_from(ip, 0)
}

/// Reads the numbers of an address for ordering: `10.0.0.7` gives 10, 0, 0, 7.
pub fn parse_ip_for_sorting(ip: &str) -> (key: Vec<u8>)
    ensures
        key@ == ip_sort_key(ip@),
{
    let chars: Vec<char> = chars_of(ip);
    let n: usize = chars.len();
    let mut key: Vec<u8> = Vec::new();
    let mut start: usize = 0;
    let mut done: bool = false;
    while !done
        invariant
            start <= n,
            n == chars@.len(),
            chars@ == ip@,
            !done ==> key@ + octets_from(ip@, start as int) == ip_sort_key(ip@),
            done ==> key@ == ip_sort_key(ip@),
        decreases n - start + (if done {
            0int
        } else {
            1int
        }),
    {
        let end: usize = find_separator(&chars, '.', start);
        let ghost before = key@;
        match parse_number(&chars, start, end, 255) {
            Some(v) => {
                key.push(v as u8);
            },
            None => {},
        }
        proof {
            let head = match parse_up_to(ip@.subrange(start as int, end as int), 255) {
                Some(v) => seq![v as u8],
                None => Seq::empty(),
            };
            assert(key@ =~= before + head);
            if end < n {
                assert(key@ + octets_from(ip@, end + 1) =~= before + octets_from(ip@, start as int));
            } else {
                assert(key@ =~= before + octets_from(ip@, start as int));
            }
        }
        if end < n {
            start = end + 1;
        } else {
            done = true;
        }
    }
    key
}

/// The order of the keys: number by number, and a key that is the
/// beginning of another comes first.
pub open spec fn key_le(a: Seq<u8>, b: Seq<u8>) -> bool
    decreases a.len(),
{
    if a.len() == 0 {
        true
    } else if b.len() == 0 {
        false
    } else if a[0] != b[0] {
        a[0] < b[0]
    } else {
        key_le(a.drop_first(), b.drop_first())
    }
}

/// Any two keys are in order one way or the other.
pub proof fn lemma_key_le_total(a: Seq<u8>, b: Seq<u8>)
    ensures
        key_le(a, b) || key_le(b, a),
    decreases a.len(),
{
    if a.len() > 0 && b.len() > 0 && a[0] == b[0] {
        lemma_key_le_total(a.drop_first(), b.drop_first());
    }
}

/// The order of the keys carries over.
pub proof fn lemma_key_le_transitive(a: Seq<u8>, b: Seq<u8>, c: Seq<u8>)
    requires
        key_le(a, b),
        key_le(b, c),
    ensures
        key_le(a, c),
    decreases a.len(),
{
    if a.len() > 0 && b.len() > 0 && c.len() > 0 && a[0] == b[0] && b[0] == c[0] {
        lemma_key_le_transitive(a.drop_first(), b.drop_first(), c.drop_first());
    }
}

/// Whether key `a` comes before key `b` or is equal to it.
pub fn key_in_order(a: &Vec<u8>, b: &Vec<u8>) -> (le: bool)
    ensures
        le == key_le(a@, b@),
{
    let mut i: usize = 0;
    assert(a@.skip(0) =~= a@ && b@.skip(0) =~= b@);
    while i < a.len() && i < b.len()
        invariant
            i <= a@.len(),
            i <= b@.len(),
            key_le(a@, b@) == key_le(a@.skip(i as int), b@.skip(i as int)),
        decreases a@.len() - i,
    {
        proof {
            let x = a@.skip(i as int);
            let y = b@.skip(i as int);
            assert(x[0] == a@[i as int] && y[0] == b@[i as int]);
            assert(x.drop_first() =~= a@.skip(i + 1));
            assert(y.drop_first() =~= b@.skip(i + 1));
        }
        if a[i] != b[i] {
            return a[i] < b[i];
        }
        i += 1;
    }
    proof {
        assert(a@.skip(i as int).len() == a@.len() - i);
        assert(b@.skip(i as int).len() == b@.len() - i);
    }
    i == a.len()
}

/// A list of targets in the order of their addresses.
pub open spec fn sorted_by_ip(list: Seq<StatusView>) -> bool {
    forall|i: int, j: int|
        0 <= i < j < list.len() ==> key_le(
            ip_sort_key((#[trigger] list[i]).ip),
            ip_sort_key((#[trigger] list[j]).ip),
        )
}

/// Orders targets by the numbers of their addresses. Targets with the same
/// numbers keep the order they came in.
pub fn sort_by_ip(list: Vec<ControllerStatus>) -> (sorted: Vec<ControllerStatus>)
    ensures
        sorted_by_ip(statuses_view(sorted@)),
        statuses_view(sorted@).to_multiset() == statuses_view(list@).to_multiset(),
{
    let mut sorted: Vec<ControllerStatus> = Vec::new();
    let mut keys: Vec<Vec<u8>> = Vec::new();
    let mut rest: Vec<ControllerStatus> = list;
    let ghost all = statuses_view(list@);
    let ghost total = list@.len();
    proof {
        assert(statuses_view(sorted@) =~= Seq::<StatusView>::empty());
        assert(all.take(0) =~= Seq::<StatusView>::empty());
    }
    while rest.len() > 0
        invariant
            rest@.len() <= total,
            all.len() == total,
            statuses_view(rest@) == all.skip(total - rest@.len()),
            sorted@.len() == keys@.len(),
            sorted@.len() == total - rest@.len(),
            forall|i: int|
                0 <= i < sorted@.len() ==> (#[trigger] keys@[i])@ == ip_sort_key(sorted@[i]@.ip),
            sorted_by_ip(statuses_view(sorted@)),
            statuses_view(sorted@).to_multiset() == all.take(total - rest@.len()).to_multiset(),
        decreases rest@.len(),
    {
        let ghost done = total - rest@.len();
        let ghost before_rest = rest@;
        let item: ControllerStatus = rest.remove(0);
        proof {
            assert(item == before_rest[0]);
            assert(statuses_view(before_rest)[0] == item@);
            assert(all[done] == item@);
            assert(rest@ =~= before_rest.skip(1));
            assert(statuses_view(rest@) =~= statuses_view(before_rest).skip(1));
            assert(all.skip(done).skip(1) =~= all.skip(done + 1));
        }
        let key: Vec<u8> = parse_ip_for_sorting(item.ip.as_str());
        // Behind every target whose numbers do not come later.
        let mut at: usize = sorted.len();
        while at > 0 && !key_in_order(&keys[at - 1], &key)
            invariant
                at <= sorted@.len(),
                sorted@.len() == keys@.len(),
                key@ == ip_sort_key(item@.ip),
                forall|i: int|
                    0 <= i < sorted@.len() ==> (#[trigger] keys@[i])@ == ip_sort_key(
                        sorted@[i]@.ip,
                    ),
                forall|i: int| at <= i < sorted@.len() ==> !key_le((#[trigger] keys@[i])@, key@),
            decreases at,
        {
            at -= 1;
        }
        let ghost old_sorted = statuses_view(sorted@);
        let ghost old_keys = keys@;
        sorted.insert(at, item);
        keys.insert(at, key);
        proof {
            let new_sorted = statuses_view(sorted@);
            assert(new_sorted =~= old_sorted.insert(at as int, item@));
            vstd::seq_lib::to_multiset_insert(old_sorted, at as int, item@);
            vstd::seq_lib::to_multiset_build(all.take(done), item@);
            assert(all.take(done + 1) =~= all.take(done).push(item@));
            assert forall|i: int| 0 <= i < sorted@.len() implies (#[trigger] keys@[i])@
                == ip_sort_key(sorted@[i]@.ip) by {
                if i < at {
                    assert(keys@[i] == old_keys[i]);
                } else if i > at {
                    assert(keys@[i] == old_keys[i - 1]);
                }
            }
            assert forall|i: int, j: int| 0 <= i < j < new_sorted.len() implies key_le(
                ip_sort_key((#[trigger] new_sorted[i]).ip),
                ip_sort_key((#[trigger] new_sorted[j]).ip),
            ) by {
                let ki = ip_sort_key(new_sorted[i].ip);
                let kj = ip_sort_key(new_sorted[j].ip);
                if j < at {
                    assert(new_sorted[i] == old_sorted[i] && new_sorted[j] == old_sorted[j]);
                } else if i > at {
                    assert(new_sorted[i] == old_sorted[i - 1] && new_sorted[j] == old_sorted[j - 1]);
                } else if i == at {
                    // j > at: the target behind the new one comes later.
                    assert(new_sorted[j] == old_sorted[j - 1]);
                    assert(old_keys[j - 1]@ == kj);
                    assert(!key_le(old_keys[j - 1]@, key@));
                    lemma_key_le_total(kj, key@);
                } else if j == at {
                    // i < at: the target before the new one does not come later.
                    assert(new_sorted[i] == old_sorted[i]);
                    assert(old_keys[at - 1]@ == ip_sort_key(old_sorted[at - 1].ip));
                    assert(key_le(old_keys[at - 1]@, key@));
                    if i < at - 1 {
                        assert(key_le(ki, ip_sort_key(old_sorted[at - 1].ip)));
                        lemma_key_le_transitive(ki, old_keys[at - 1]@, key@);
                    }
                } else {
                    // i < at < j
                    assert(new_sorted[i] == old_sorted[i] && new_sorted[j] == old_sorted[j - 1]);
                }
            }
        }
    }
    proof {
        assert(all.take(total as int) =~= all);
    }
    sorted
}

/// A command for the mapping tester.
#[derive(Debug, Clone)]
pub struct MappingTesterCommand {
    /// `xy`, `xz` or `yz`.
    pub orientation: String,
    pub layer: usize,
    /// A colour such as `#FF0000`.
    pub color: String,
}

/// A command for the power-draw tester. The four numbers are carried as
/// the bit patterns of double-precision numbers; the library does not read
/// them.
#[derive(Debug, Clone)]
pub struct PowerDrawTesterCommand {
    pub color: String,
    /// `sin` or `square`.
    pub modulation_type: String,
    pub frequency: u64,
    pub amplitude: u64,
    pub offset: u64,
    pub global_brightness: u64,
}

/// One cube of the installation.
#[derive(Debug)]
pub struct CubeInfo {
    pub id: String,
    pub position: (usize, usize, usize),
    pub dimensions: (usize, usize, usize),
}

/// What the debug endpoints store for the producer of the raster.
#[derive(Debug, Clone)]
pub struct DebugCommand {
    /// `mapping_tester`, `power_draw_tester` or `clear`.
    pub command_type: String,
    pub mapping_tester: Option<MappingTesterCommand>,
    pub power_draw_tester: Option<PowerDrawTesterCommand>,
}

/// The numbers of the command last stored, for the dashboard.
#[derive(Debug, Clone)]
pub enum DebugData {
    Empty,
    MappingTester { orientation: String, layer: usize, color: String },
    PowerDrawTester {
        color: String,
        modulation_type: String,
        frequency: u64,
        amplitude: u64,
        offset: u64,
        global_brightness: u64,
    },
}

pub enum DebugDataView {
    Empty,
    MappingTester { orientation: Seq<char>, layer: usize, color: Seq<char> },
    PowerDrawTester {
        color: Seq<char>,
        modulation_type: Seq<char>,
        frequency: u64,
        amplitude: u64,
        offset: u64,
        global_brightness: u64,
    },
}

impl View for DebugData {
    type V = DebugDataView;

    open spec fn view(&self) -> DebugDataView {
        match self {
            DebugData::Empty => DebugDataView::Empty,
            DebugData::MappingTester { orientation, layer, color } => DebugDataView::MappingTester {
                orientation: orientation@,
                layer: *layer,
                color: color@,
            },
            DebugData::PowerDrawTester {
                color,
                modulation_type,
                frequency,
                amplitude,
                offset,
                global_brightness,
            } => DebugDataView::PowerDrawTester {
                color: color@,
                modulation_type: modulation_type@,
                frequency: *frequency,
                amplitude: *amplitude,
                offset: *offset,
                global_brightness: *global_brightness,
            },
        }
    }
}

#[derive(Debug, Clone)]
pub struct DebugState {
    pub is_debug_mode: bool,
    pub is_paused: bool,
    pub current_debug_command: Option<String>,
    pub debug_data: DebugData,
}

pub struct DebugStateView {
    pub is_debug_mode: bool,
    pub is_paused: bool,
    pub current_debug_command: Option<Seq<char>>,
    pub debug_data: DebugDataView,
}

impl View for DebugState {
    type V = DebugStateView;

    open spec fn view(&self) -> DebugStateView {
        DebugStateView {
            is_debug_mode: self.is_debug_mode,
            is_paused: self.is_paused,
            current_debug_command: text_view(self.current_debug_command),
            debug_data: self.debug_data@,
        }
    }
}

impl DebugStateView {
    /// Switching debug mode off also ends the pause and forgets the command.
    pub open spec fn with_mode(self, enabled: bool) -> DebugStateView {
        if enabled {
            DebugStateView { is_debug_mode: true, ..self }
        } else {
            DebugStateView {
                is_debug_mode: false,
                is_paused: false,
                current_debug_command: None,
                debug_data: DebugDataView::Empty,
            }
        }
    }

    /// A stored command is named in the state; a mapping tester or a
    /// power-draw tester that comes with its numbers shows them, any other
    /// command leaves the numbers shown as they are.
    pub open spec fn with_command(self, command: DebugCommand) -> DebugStateView {
        DebugStateView {
            current_debug_command: Some(command.command_type@),
            debug_data: if command.command_type@ == "mapping_tester"@ {
                match command.mapping_tester {
                    Some(mt) => DebugDataView::MappingTester {
                        orientation: mt.orientation@,
                        layer: mt.layer,
                        color: mt.color@,
                    },
                    None => self.debug_data,
                }
            } else if command.command_type@ == "power_draw_tester"@ {
                match command.power_draw_tester {
                    Some(pdt) => DebugDataView::PowerDrawTester {
                        color: pdt.color@,
                        modulation_type: pdt.modulation_type@,
                        frequency: pdt.frequency,
                        amplitude: pdt.amplitude,
                        offset: pdt.offset,
                        global_brightness: pdt.global_brightness,
                    },
                    None => self.debug_data,
                }
            } else {
                self.debug_data
            },
            ..self
        }
    }
}

/// The default cooldown: thirty seconds.
pub const DEFAULT_COOLDOWN_SECONDS: i64 = 30;

/// The longest cooldown that can be counted in milliseconds, in seconds.
pub const MAX_COOLDOWN_SECONDS: i64 = 9_223_372_036_854_775;

/// The health monitor of the sender.
pub struct SenderMonitor {
    pub controllers: Registry,
    pub system_stats: SystemStats,
    pub start_time: i64,
    pub frame_counter: u64,
    /// The length of a cooldown in milliseconds.
    pub cooldown_ms: i64,
    pub debug_state: DebugState,
    pub debug_command: Option<DebugCommand>,
    pub world_dimensions: Option<(usize, usize, usize)>,
    pub cube_list: Vec<CubeInfo>,
}

fn same_text(a: &str, b: &str) -> (same: bool)
    ensures
        same == (a@ == b@),
{
    let x: Vec<char> = chars_of(a);
    let y: Vec<char> = chars_of(b);
    if x.len() != y.len() {
        return false;
    }
    let mut i: usize = 0;
    while i < x.len()
        invariant
            i <= x@.len(),
            x@.len() == y@.len(),
            x@ == a@,
            y@ == b@,
            forall|k: int| 0 <= k < i ==> x@[k] == y@[k],
        decreases x@.len() - i,
    {
        if x[i] != y[i] {
            return false;
        }
        i += 1;
    }
    assert(x@ =~= y@);
    true
}

impl SenderMonitor {
    /// The targets by their keys, as plain values.
    pub open spec fn targets(&self) -> RegistryView {
        registry_contents(self.controllers)
    }

    /// What stays as it is while the targets change.
    pub open spec fn same_settings(&self, other: &SenderMonitor) -> bool {
        &&& self.system_stats == other.system_stats
        &&& self.start_time == other.start_time
        &&& self.frame_counter == other.frame_counter
        &&& self.cooldown_ms == other.cooldown_ms
        &&& self.debug_state == other.debug_state
        &&& self.debug_command == other.debug_command
        &&& self.world_dimensions == other.world_dimensions
        &&& self.cube_list == other.cube_list
    }

    /// A monitor that knows no target, started at `now`.
    pub fn new_at(now: i64) -> (monitor: SenderMonitor)
        ensures
            monitor.targets() == RegistryView::empty(),
            monitor.start_time == now,
            monitor.frame_counter == 0,
            monitor.cooldown_ms == 30_000,
            monitor.system_stats == (SystemStats {
                uptime_ms: 0,
                total_frames: 0,
                last_update: now,
            }),
            monitor.debug_state@ == (DebugStateView {
                is_debug_mode: false,
                is_paused: false,
                current_debug_command: None,
                debug_data: DebugDataView::Empty,
            }),
            monitor.debug_command is None,
            monitor.world_dimensions is None,
            monitor.cube_list@.len() == 0,
    {
        SenderMonitor {
            controllers: registry_new(),
            system_stats: SystemStats { uptime_ms: 0, total_frames: 0, last_update: now },
            start_time: now,
            frame_counter: 0,
            cooldown_ms: DEFAULT_COOLDOWN_SECONDS * 1000,
            debug_state: DebugState {
                is_debug_mode: false,
                is_paused: false,
                current_debug_command: None,
                debug_data: DebugData::Empty,
            },
            debug_command: None,
            world_dimensions: None,
            cube_list: Vec::new(),
        }
    }

    /// A monitor that knows no target, started at the time of the clock.
    pub fn new() -> (monitor: SenderMonitor)
        ensures
            monitor.targets() == RegistryView::empty(),
            monitor.frame_counter == 0,
            monitor.cooldown_ms == 30_000,
            monitor.system_stats == (SystemStats {
                uptime_ms: 0,
                total_frames: 0,
                last_update: monitor.start_time,
            }),
            monitor.debug_state@ == (DebugStateView {
                is_debug_mode: false,
                is_paused: false,
                current_debug_command: None,
                debug_data: DebugDataView::Empty,
            }),
            monitor.debug_command is None,
            monitor.world_dimensions is None,
            monitor.cube_list@.len() == 0,
    {
        let now: i64 = now_millis();
        SenderMonitor::new_at(now)
    }

    /// The same monitor with another cooldown.
    pub fn with_cooldown_duration(self, cooldown_seconds: i64) -> (monitor: SenderMonitor)
        requires
            -MAX_COOLDOWN_SECONDS <= cooldown_seconds <= MAX_COOLDOWN_SECONDS,
        ensures
            monitor.cooldown_ms == cooldown_seconds * 1000,
            monitor.controllers == self.controllers,
            monitor.system_stats == self.system_stats,
            monitor.start_time == self.start_time,
            monitor.frame_counter == self.frame_counter,
            monitor.debug_state == self.debug_state,
            monitor.debug_command == self.debug_command,
            monitor.world_dimensions == self.world_dimensions,
            monitor.cube_list == self.cube_list,
    {
        let mut monitor = self;
        monitor.cooldown_ms = cooldown_seconds * 1000;
        monitor
    }

    /// Sets the cooldown that failures start from now on.
    pub fn set_cooldown_duration(&mut self, cooldown_seconds: i64)
        requires
            -MAX_COOLDOWN_SECONDS <= cooldown_seconds <= MAX_COOLDOWN_SECONDS,
        ensures
            final(self).cooldown_ms == cooldown_seconds * 1000,
            final(self).controllers == old(self).controllers,
            final(self).system_stats == old(self).system_stats,
            final(self).start_time == old(self).start_time,
            final(self).frame_counter == old(self).frame_counter,
            final(self).debug_state == old(self).debug_state,
            final(self).debug_command == old(self).debug_command,
            final(self).world_dimensions == old(self).world_dimensions,
            final(self).cube_list == old(self).cube_list,
    {
        self.cooldown_ms = cooldown_seconds * 1000;
    }

    /// Registers a target, or registers it anew: it counts as connected,
    /// with a success at `now` and no failure on record.
    pub fn register_controller_at(&mut self, ip: String, port: u16, now: i64)
        ensures
            final(self).targets() == old(self).targets().insert(
                address_text(ip@, port),
                StatusView::registered(ip@, port, now),
            ),
            final(self).same_settings(old(self)),
    {
        let key: String = controller_key(ip.as_str(), port);
        let status: ControllerStatus = ControllerStatus::registered(ip, port, now);
        registry_insert(&mut self.controllers, key, status);
    }

    /// Registers a target at the time of the clock.
    pub fn register_controller(&mut self, ip: String, port: u16)
        ensures
            exists|now: i64|
                final(self).targets() == old(self).targets().insert(
                    address_text(ip@, port),
                    StatusView::registered(ip@, port, now),
                ),
            final(self).same_settings(old(self)),
    {
        let now: i64 = now_millis();
        self.register_controller_at(ip, port, now);
    }

    /// Notes that a frame went out to a target. A target that was never
    /// registered is not known and nothing changes.
    pub fn report_controller_success_at(&mut self, ip: &str, port: u16, now: i64)
        ensures
            final(self).targets() == (if old(self).targets().dom().contains(
                address_text(ip@, port),
            ) {
                old(self).targets().insert(
                    address_text(ip@, port),
                    old(self).targets()[address_text(ip@, port)].succeeded(now),
                )
            } else {
                old(self).targets()
            }),
            final(self).same_settings(old(self)),
    {
        let key: String = controller_key(ip, port);
        match registry_get(&self.controllers, key.as_str()) {
            Some(mut status) => {
                status.succeed(now);
                registry_insert(&mut self.controllers, key, status);
            },
            None => {},
        }
    }

    /// Notes a success at the time of the clock.
    pub fn report_controller_success(&mut self, ip: &str, port: u16)
        ensures
            exists|now: i64|
                final(self).targets() == (if old(self).targets().dom().contains(
                    address_text(ip@, port),
                ) {
                    old(self).targets().insert(
                        address_text(ip@, port),
                        old(self).targets()[address_text(ip@, port)].succeeded(now),
                    )
                } else {
                    old(self).targets()
                }),
            final(self).same_settings(old(self)),
    {
        let now: i64 = now_millis();
        self.report_controller_success_at(ip, port, now);
    }

    /// Notes that sending to a target failed, which starts its cooldown. A
    /// target that was never registered is not known and nothing changes.
    pub fn report_controller_failure_at(&mut self, ip: &str, port: u16, error: &str, now: i64)
        ensures
            final(self).targets() == (if old(self).targets().dom().contains(
                address_text(ip@, port),
            ) {
                old(self).targets().insert(
                    address_text(ip@, port),
                    old(self).targets()[address_text(ip@, port)].failed(
                        error@,
                        now,
                        old(self).cooldown_ms,
                    ),
                )
            } else {
                old(self).targets()
            }),
            final(self).same_settings(old(self)),
    {
        let key: String = controller_key(ip, port);
        match registry_get(&self.controllers, key.as_str()) {
            Some(mut status) => {
                status.fail(error, now, self.cooldown_ms);
                registry_insert(&mut self.controllers, key, status);
            },
            None => {},
        }
    }

    /// Notes a failure at the time of the clock.
    pub fn report_controller_failure(&mut self, ip: &str, port: u16, error: &str)
        ensures
            exists|now: i64|
                final(self).targets() == (if old(self).targets().dom().contains(
                    address_text(ip@, port),
                ) {
                    old(self).targets().insert(
                        address_text(ip@, port),
                        old(self).targets()[address_text(ip@, port)].failed(
                            error@,
                            now,
                            old(self).cooldown_ms,
                        ),
                    )
                } else {
                    old(self).targets()
                }),
            final(self).same_settings(old(self)),
    {
        let now: i64 = now_millis();
        self.report_controller_failure_at(ip, port, error, now);
    }

    /// Counts a frame.
    pub fn report_frame(&mut self)
        ensures
            final(self).frame_counter == (if old(self).frame_counter == u64::MAX {
                u64::MAX
            } else {
                (old(self).frame_counter + 1) as u64
            }),
            final(self).frame_counter >= old(self).frame_counter,
            final(self).controllers == old(self).controllers,
            final(self).system_stats == old(self).system_stats,
            final(self).start_time == old(self).start_time,
            final(self).cooldown_ms == old(self).cooldown_ms,
            final(self).debug_state == old(self).debug_state,
            final(self).debug_command == old(self).debug_command,
            final(self).world_dimensions == old(self).world_dimensions,
            final(self).cube_list == old(self).cube_list,
    {
        if self.frame_counter < u64::MAX {
            self.frame_counter = self.frame_counter + 1;
        }
    }

    /// Brings uptime and frame count up to date.
    pub fn update_system_stats_at(&mut self, now: i64)
        ensures
            final(self).system_stats == (SystemStats {
                uptime_ms: clamped(now - old(self).start_time),
                total_frames: old(self).frame_counter,
                last_update: now,
            }),
            final(self).controllers == old(self).controllers,
            final(self).start_time == old(self).start_time,
            final(self).frame_counter == old(self).frame_counter,
            final(self).cooldown_ms == old(self).cooldown_ms,
            final(self).debug_state == old(self).debug_state,
            final(self).debug_command == old(self).debug_command,
            final(self).world_dimensions == old(self).world_dimensions,
            final(self).cube_list == old(self).cube_list,
    {
        self.system_stats = SystemStats {
            uptime_ms: elapsed(self.start_time, now),
            total_frames: self.frame_counter,
            last_update: now,
        };
    }

    /// The number of targets.
    pub fn get_controller_count(&self) -> (count: usize)
        ensures
            count == self.targets().dom().len(),
    {
        registry_len(&self.controllers)
    }
}

/// The records of a listing, without their keys.
pub open spec fn listed_records(listing: Seq<(Seq<char>, StatusView)>) -> Seq<StatusView> {
    listing.map_values(|e: (Seq<char>, StatusView)| e.1)
}

/// How many of the first `n` entries of a listing are routable.
pub open spec fn routable_among(listing: Seq<(Seq<char>, StatusView)>, n: int) -> int
    decreases n,
{
    if n <= 0 {
        0
    } else {
        routable_among(listing, n - 1) + (if listing[n - 1].1.is_routable {
            1int
        } else {
            0int
        })
    }
}

/// Every target after the periodic look.
pub open spec fn all_promoted(targets: RegistryView, now: i64) -> RegistryView {
    targets.map_values(|s: StatusView| s.promoted(now))
}

impl SenderMonitor {
    /// The periodic look: every connecting target whose cooldown has run
    /// out is connected again.
    pub fn update_controller_statuses_at(&mut self, now: i64)
        ensures
            final(self).targets() == all_promoted(old(self).targets(), now),
            final(self).same_settings(old(self)),
    {
        let mut entries: Vec<(String, ControllerStatus)> = registry_entries(&self.controllers);
        let ghost before = self.targets();
        let ghost listing = entries_view(entries@);
        let ghost total = entries@.len();
        while entries.len() > 0
            invariant
                entries@.len() <= total,
                listing.len() == total,
                is_listing(before, listing),
                entries_view(entries@) == listing.take(entries@.len() as int),
                self.same_settings(old(self)),
                self.targets().dom() == before.dom(),
                forall|i: int|
                    0 <= i < total ==> self.targets()[(#[trigger] listing[i]).0] == (if i
                        < entries@.len() {
                        listing[i].1
                    } else {
                        listing[i].1.promoted(now)
                    }),
            decreases entries@.len(),
        {
            let ghost n = entries@.len() - 1;
            let ghost prev = entries@;
            let ghost targets_before = self.targets();
            let entry: Option<(String, ControllerStatus)> = entries.pop();
            let (key, mut status) = entry.unwrap();
            proof {
                assert(entries_view(prev)[n] == (key@, status@));
                assert(listing[n] == (key@, status@));
                assert(entries_view(entries@) =~= listing.take(n));
            }
            status.promote(now);
            registry_insert(&mut self.controllers, key, status);
            proof {
                assert(before.dom().contains(listing[n].0));
                assert(self.targets().dom() =~= before.dom());
                assert forall|i: int| 0 <= i < total implies self.targets()[(
                #[trigger] listing[i]).0] == (if i < n {
                    listing[i].1
                } else {
                    listing[i].1.promoted(now)
                }) by {
                    if i != n {
                        if i < n {
                            assert(listing[i].0 != listing[n].0);
                        } else {
                            assert(listing[n].0 != listing[i].0);
                        }
                        assert(self.targets()[listing[i].0] == targets_before[listing[i].0]);
                    }
                }
            }
        }
        proof {
            let goal = all_promoted(before, now);
            assert forall|k: Seq<char>| #[trigger] goal.dom().contains(k) implies self.targets()[k]
                == goal[k] by {
                assert(before.dom().contains(k));
                let i = choose|i: int| 0 <= i < listing.len() && (#[trigger] listing[i]).0 == k;
                assert(before[listing[i].0] == listing[i].1);
            }
            assert(self.targets() =~= goal);
        }
    }

    /// The periodic look at the time of the clock.
    pub fn update_controller_statuses(&mut self)
        ensures
            exists|now: i64| final(self).targets() == all_promoted(old(self).targets(), now),
            final(self).same_settings(old(self)),
    {
        let now: i64 = now_millis();
        self.update_controller_statuses_at(now);
    }

    /// What the monitor publishes at `now`: uptime and frames, and every
    /// target once, after the periodic look, in the order of their addresses.
    pub fn get_stats_at(&mut self, now: i64) -> (stats: SenderMonitorStats)
        ensures
            final(self).targets() == all_promoted(old(self).targets(), now),
            stats.system == (SystemStats {
                uptime_ms: clamped(now - old(self).start_time),
                total_frames: old(self).frame_counter,
                last_update: now,
            }),
            final(self).system_stats == stats.system,
            sorted_by_ip(statuses_view(stats.controllers@)),
            exists|listing: Seq<(Seq<char>, StatusView)>|
                #![trigger is_listing(final(self).targets(), listing)]
                is_listing(final(self).targets(), listing) && statuses_view(
                    stats.controllers@,
                ).to_multiset() == listed_records(listing).to_multiset(),
            final(self).start_time == old(self).start_time,
            final(self).frame_counter == old(self).frame_counter,
            final(self).cooldown_ms == old(self).cooldown_ms,
            final(self).debug_state == old(self).debug_state,
            final(self).debug_command == old(self).debug_command,
            final(self).world_dimensions == old(self).world_dimensions,
            final(self).cube_list == old(self).cube_list,
    {
        self.update_system_stats_at(now);
        self.update_controller_statuses_at(now);
        let mut entries: Vec<(String, ControllerStatus)> = registry_entries(&self.controllers);
        let ghost listing = entries_view(entries@);
        let ghost total = entries@.len();
        let mut controllers: Vec<ControllerStatus> = Vec::new();
        proof {
            assert(statuses_view(controllers@) =~= listed_records(listing).skip(total as int));
        }
        while entries.len() > 0
            invariant
                entries@.len() <= total,
                listing.len() == total,
                entries_view(entries@) == listing.take(entries@.len() as int),
                statuses_view(controllers@).to_multiset() == listed_records(listing).skip(
                    entries@.len() as int,
                ).to_multiset(),
            decreases entries@.len(),
        {
            let ghost n = entries@.len() - 1;
            let ghost prev = entries@;
            let ghost gathered = statuses_view(controllers@);
            let entry: Option<(String, ControllerStatus)> = entries.pop();
            let (_, status) = entry.unwrap();
            proof {
                assert(entries_view(prev)[n] == (prev[n].0@, status@));
                assert(listing[n].1 == status@);
                assert(entries_view(entries@) =~= listing.take(n));
            }
            controllers.push(status);
            proof {
                let records = listed_records(listing);
                assert(statuses_view(controllers@) =~= gathered.push(status@));
                vstd::seq_lib::to_multiset_build(gathered, status@);
                assert(records.skip(n) =~= seq![status@] + records.skip(n + 1));
                vstd::seq_lib::to_multiset_insert(records.skip(n + 1), 0, status@);
                assert(records.skip(n + 1).insert(0, status@) =~= records.skip(n));
            }
        }
        proof {
            assert(listed_records(listing).skip(0) =~= listed_records(listing));
        }
        let sorted: Vec<ControllerStatus> = sort_by_ip(controllers);
        SenderMonitorStats { controllers: sorted, system: self.system_stats }
    }

    /// What the monitor publishes at the time of the clock.
    pub fn get_stats(&mut self) -> (stats: SenderMonitorStats)
        ensures
            exists|now: i64|
                final(self).targets() == all_promoted(old(self).targets(), now) && stats.system
                    == (SystemStats {
                    uptime_ms: clamped(now - old(self).start_time),
                    total_frames: old(self).frame_counter,
                    last_update: now,
                }),
            final(self).system_stats == stats.system,
            final(self).start_time == old(self).start_time,
            final(self).frame_counter == old(self).frame_counter,
            final(self).cooldown_ms == old(self).cooldown_ms,
            final(self).debug_state == old(self).debug_state,
            final(self).debug_command == old(self).debug_command,
            final(self).world_dimensions == old(self).world_dimensions,
            final(self).cube_list == old(self).cube_list,
            sorted_by_ip(statuses_view(stats.controllers@)),
            exists|listing: Seq<(Seq<char>, StatusView)>|
                #![trigger is_listing(final(self).targets(), listing)]
                is_listing(final(self).targets(), listing) && statuses_view(
                    stats.controllers@,
                ).to_multiset() == listed_records(listing).to_multiset(),
    {
        let now: i64 = now_millis();
        self.get_stats_at(now)
    }

    /// The number of targets that are routable.
    pub fn get_routable_controller_count(&self) -> (count: usize)
        ensures
            exists|listing: Seq<(Seq<char>, StatusView)>|
                #![trigger is_listing(self.targets(), listing)]
                is_listing(self.targets(), listing) && count == routable_among(
                    listing,
                    listing.len() as int,
                ),
    {
        let entries: Vec<(String, ControllerStatus)> = registry_entries(&self.controllers);
        let ghost listing = entries_view(entries@);
        let mut count: usize = 0;
        let mut i: usize = 0;
        while i < entries.len()
            invariant
                i <= entries@.len(),
                listing == entries_view(entries@),
                is_listing(self.targets(), listing),
                count == routable_among(listing, i as int),
                count <= i,
            decreases entries@.len() - i,
        {
            if entries[i].1.is_routable {
                count += 1;
            }
            i += 1;
        }
        count
    }
}

impl MappingTesterCommand {
    pub fn copy(&self) -> (out: MappingTesterCommand)
        ensures
            out == *self,
    {
        MappingTesterCommand {
            orientation: self.orientation.clone(),
            layer: self.layer,
            color: self.color.clone(),
        }
    }
}

impl PowerDrawTesterCommand {
    pub fn copy(&self) -> (out: PowerDrawTesterCommand)
        ensures
            out == *self,
    {
        PowerDrawTesterCommand {
            color: self.color.clone(),
            modulation_type: self.modulation_type.clone(),
            frequency: self.frequency,
            amplitude: self.amplitude,
            offset: self.offset,
            global_brightness: self.global_brightness,
        }
    }
}

impl DebugCommand {
    pub fn copy(&self) -> (out: DebugCommand)
        ensures
            out == *self,
    {
        DebugCommand {
            command_type: self.command_type.clone(),
            mapping_tester: match &self.mapping_tester {
                Some(mt) => Some(mt.copy()),
                None => None,
            },
            power_draw_tester: match &self.power_draw_tester {
                Some(pdt) => Some(pdt.copy()),
                None => None,
            },
        }
    }
}

impl DebugData {
    pub fn copy(&self) -> (out: DebugData)
        ensures
            out == *self,
    {
        match self {
            DebugData::Empty => DebugData::Empty,
            DebugData::MappingTester { orientation, layer, color } => DebugData::MappingTester {
                orientation: orientation.clone(),
                layer: *layer,
                color: color.clone(),
            },
            DebugData::PowerDrawTester {
                color,
                modulation_type,
                frequency,
                amplitude,
                offset,
                global_brightness,
            } => DebugData::PowerDrawTester {
                color: color.clone(),
                modulation_type: modulation_type.clone(),
                frequency: *frequency,
                amplitude: *amplitude,
                offset: *offset,
                global_brightness: *global_brightness,
            },
        }
    }
}

impl DebugState {
    pub fn copy(&self) -> (out: DebugState)
        ensures
            out == *self,
    {
        DebugState {
            is_debug_mode: self.is_debug_mode,
            is_paused: self.is_paused,
            current_debug_command: match &self.current_debug_command {
                Some(c) => Some(c.clone()),
                None => None,
            },
            debug_data: self.debug_data.copy(),
        }
    }
}

impl CubeInfo {
    pub fn copy(&self) -> (out: CubeInfo)
        ensures
            out == *self,
    {
        CubeInfo { id: self.id.clone(), position: self.position, dimensions: self.dimensions }
    }
}

impl SenderMonitor {
    /// What stays as it is while the debug store changes.
    pub open spec fn same_monitoring(&self, other: &SenderMonitor) -> bool {
        &&& self.controllers == other.controllers
        &&& self.system_stats == other.system_stats
        &&& self.start_time == other.start_time
        &&& self.frame_counter == other.frame_counter
        &&& self.cooldown_ms == other.cooldown_ms
    }

    /// Switches debug mode on or off. Switching it off ends the pause and
    /// forgets the command shown.
    pub fn set_debug_mode(&mut self, enabled: bool)
        ensures
            final(self).debug_state@ == old(self).debug_state@.with_mode(enabled),
            final(self).same_monitoring(old(self)),
            final(self).debug_command == old(self).debug_command,
            final(self).world_dimensions == old(self).world_dimensions,
            final(self).cube_list == old(self).cube_list,
    {
        self.debug_state.is_debug_mode = enabled;
        if !enabled {
            self.debug_state.is_paused = false;
            self.debug_state.current_debug_command = None;
            self.debug_state.debug_data = DebugData::Empty;
        }
    }

    pub fn set_debug_pause(&mut self, paused: bool)
        ensures
            final(self).debug_state@ == (DebugStateView {
                is_paused: paused,
                ..old(self).debug_state@
            }),
            final(self).same_monitoring(old(self)),
            final(self).debug_command == old(self).debug_command,
            final(self).world_dimensions == old(self).world_dimensions,
            final(self).cube_list == old(self).cube_list,
    {
        self.debug_state.is_paused = paused;
    }

    /// Stores a command for the producer of the raster and shows it in the
    /// debug state.
    pub fn set_debug_command(&mut self, command: DebugCommand)
        ensures
            final(self).debug_command == Some(command),
            final(self).debug_state@ == old(self).debug_state@.with_command(command),
            final(self).same_monitoring(old(self)),
            final(self).world_dimensions == old(self).world_dimensions,
            final(self).cube_list == old(self).cube_list,
    {
        self.debug_state.current_debug_command = Some(command.command_type.clone());
        if same_text(command.command_type.as_str(), "mapping_tester") {
            if let Some(mt) = &command.mapping_tester {
                self.debug_state.debug_data = DebugData::MappingTester {
                    orientation: mt.orientation.clone(),
                    layer: mt.layer,
                    color: mt.color.clone(),
                };
            }
        } else if same_text(command.command_type.as_str(), "power_draw_tester") {
            if let Some(pdt) = &command.power_draw_tester {
                self.debug_state.debug_data = DebugData::PowerDrawTester {
                    color: pdt.color.clone(),
                    modulation_type: pdt.modulation_type.clone(),
                    frequency: pdt.frequency,
                    amplitude: pdt.amplitude,
                    offset: pdt.offset,
                    global_brightness: pdt.global_brightness,
                };
            }
        }
        self.debug_command = Some(command);
    }

    pub fn get_debug_state(&self) -> (state: DebugState)
        ensures
            state == self.debug_state,
    {
        self.debug_state.copy()
    }

    /// The command last stored, if any.
    pub fn get_debug_command(&self) -> (command: Option<DebugCommand>)
        ensures
            command == self.debug_command,
    {
        match &self.debug_command {
            Some(c) => Some(c.copy()),
            None => None,
        }
    }

    pub fn is_debug_mode(&self) -> (on: bool)
        ensures
            on == self.debug_state.is_debug_mode,
    {
        self.debug_state.is_debug_mode
    }

    pub fn is_paused(&self) -> (paused: bool)
        ensures
            paused == self.debug_state.is_paused,
    {
        self.debug_state.is_paused
    }

    pub fn set_world_dimensions(&mut self, width: usize, height: usize, length: usize)
        ensures
            final(self).world_dimensions == Some((width, height, length)),
            final(self).same_monitoring(old(self)),
            final(self).debug_state == old(self).debug_state,
            final(self).debug_command == old(self).debug_command,
            final(self).cube_list == old(self).cube_list,
    {
        self.world_dimensions = Some((width, height, length));
    }

    pub fn get_world_dimensions(&self) -> (dimensions: Option<(usize, usize, usize)>)
        ensures
            dimensions == self.world_dimensions,
    {
        self.world_dimensions
    }

    pub fn set_cube_list(&mut self, cubes: Vec<CubeInfo>)
        ensures
            final(self).cube_list == cubes,
            final(self).same_monitoring(old(self)),
            final(self).debug_state == old(self).debug_state,
            final(self).debug_command == old(self).debug_command,
            final(self).world_dimensions == old(self).world_dimensions,
    {
        self.cube_list = cubes;
    }

    pub fn get_cube_list(&self) -> (cubes: Vec<CubeInfo>)
        ensures
            cubes@ == self.cube_list@,
    {
        let mut cubes: Vec<CubeInfo> = Vec::new();
        let mut i: usize = 0;
        while i < self.cube_list.len()
            invariant
                i <= self.cube_list@.len(),
                cubes@ == self.cube_list@.take(i as int),
            decreases self.cube_list@.len() - i,
        {
            cubes.push(self.cube_list[i].copy());
            assert(self.cube_list@.take(i + 1) =~= self.cube_list@.take(i as int).push(
                self.cube_list@[i as int],
            ));
            i += 1;
        }
        assert(self.cube_list@.take(self.cube_list@.len() as int) =~= self.cube_list@);
        cubes
    }
}

} // verus!
