//! Run-log buffer: the log lines that the front end pushes, kept per
//! instance so that a page reload can restore them, with a bound on how many
//! lines each instance keeps.

use std::collections::VecDeque;
use vstd::prelude::*;

verus! {

/// How many entries an instance keeps when nothing else was configured.
pub const DEFAULT_MAX_LOGS: usize = 2000;

/// The smallest per-instance bound that `set_max` accepts.
pub const MIN_MAX_LOGS: usize = 100;

/// One run-log entry as the front end sends it.
#[derive(Debug, Clone)]
pub struct LogEntryDto {
    pub id: String,
    pub log_type: String,
    pub message: String,
    pub html: Option<String>,
    pub timestamp: String,
}

/// The entries of one instance, oldest first.
pub struct InstanceLog {
    pub instance_id: String,
    pub entries: VecDeque<LogEntryDto>,
}

/// Run-log buffer, kept apart per instance, with a bound on the number of
/// entries each instance keeps.
///
/// The instances are held in a vector whose instance ids are pairwise
/// distinct; the buffer is read as a map from instance id to entries.
pub struct LogBuffer {
    logs: Vec<InstanceLog>,
    max_per_instance: usize,
}

/// What a `LogBuffer` stands for: the entries of each instance and the bound.
pub ghost struct LogBufferModel {
    pub logs: Map<Seq<char>, Seq<LogEntryDto>>,
    pub max_per_instance: nat,
}

/// No two instances in `s` share an id.
pub open spec fn ids_distinct(s: Seq<InstanceLog>) -> bool {
    forall|i: int, j: int|
        0 <= i < s.len() && 0 <= j < s.len() && i != j ==> #[trigger] s[i].instance_id@
            != #[trigger] s[j].instance_id@
}

/// Some instance in `s` has the id `k`.
pub open spec fn has_instance(s: Seq<InstanceLog>, k: Seq<char>) -> bool {
    exists|i: int| 0 <= i < s.len() && #[trigger] s[i].instance_id@ == k
}

/// Reads a vector of instance logs as a map from id to entries.
pub open spec fn instance_map(s: Seq<InstanceLog>) -> Map<Seq<char>, Seq<LogEntryDto>> {
    Map::new(
        |k: Seq<char>| has_instance(s, k),
        |k: Seq<char>| s[choose|i: int| 0 <= i < s.len() && #[trigger] s[i].instance_id@ == k].entries@,
    )
}

/// The last `max` elements of `s` (all of `s` when it is not longer).
pub open spec fn keep_last(s: Seq<LogEntryDto>, max: nat) -> Seq<LogEntryDto> {
    if s.len() > max {
        s.subrange(s.len() - max, s.len() as int)
    } else {
        s
    }
}

/// The entries of instance `k`, or none when it has never been seen.
pub open spec fn log_or_empty(m: Map<Seq<char>, Seq<LogEntryDto>>, k: Seq<char>) -> Seq<
    LogEntryDto,
> {
    if m.contains_key(k) {
        m[k]
    } else {
        Seq::empty()
    }
}

/// The logs after `entry` was appended to instance `k` under the bound `max`.
pub open spec fn pushed(
    m: Map<Seq<char>, Seq<LogEntryDto>>,
    k: Seq<char>,
    entry: LogEntryDto,
    max: nat,
) -> Map<Seq<char>, Seq<LogEntryDto>> {
    m.insert(k, keep_last(log_or_empty(m, k).push(entry), max))
}

/// The logs after instance `k` was cleared: a known instance keeps its
/// place with no entries, an unknown one is not created.
pub open spec fn cleared(m: Map<Seq<char>, Seq<LogEntryDto>>, k: Seq<char>) -> Map<
    Seq<char>,
    Seq<LogEntryDto>,
> {
    if m.contains_key(k) {
        m.insert(k, Seq::empty())
    } else {
        m
    }
}

/// The bound that `set_max(max)` installs.
pub open spec fn effective_max(max: nat) -> nat {
    if max > MIN_MAX_LOGS {
        max
    } else {
        MIN_MAX_LOGS as nat
    }
}

impl View for LogBuffer {
    type V = LogBufferModel;

    closed spec fn view(&self) -> LogBufferModel {
        LogBufferModel {
            logs: instance_map(self.logs@),
            max_per_instance: self.max_per_instance as nat,
        }
    }
}

proof fn lemma_lookup(s: Seq<InstanceLog>, j: int)
    requires
        ids_distinct(s),
        0 <= j < s.len(),
    ensures
        instance_map(s).contains_key(s[j].instance_id@),
        instance_map(s)[s[j].instance_id@] == s[j].entries@,
{
    let k = s[j].instance_id@;
    assert(has_instance(s, k));
    let c = choose|i: int| 0 <= i < s.len() && #[trigger] s[i].instance_id@ == k;
    assert(c == j);
}

/// Replacing the entries of the instance at `j` replaces them in the map.
proof fn lemma_update_entries(s: Seq<InstanceLog>, j: int, item: InstanceLog)
    requires
        ids_distinct(s),
        0 <= j < s.len(),
        item.instance_id@ == s[j].instance_id@,
    ensures
        ids_distinct(s.update(j, item)),
        instance_map(s.update(j, item)) == instance_map(s).insert(
            s[j].instance_id@,
            item.entries@,
        ),
{
    let s2 = s.update(j, item);
    let k = s[j].instance_id@;
    assert(ids_distinct(s2)) by {
        assert forall|a: int, b: int|
            0 <= a < s2.len() && 0 <= b < s2.len() && a != b implies #[trigger] s2[a].instance_id@
            != #[trigger] s2[b].instance_id@ by {
            assert(s[a].instance_id@ != s[b].instance_id@);
        }
    }
    let m = instance_map(s).insert(k, item.entries@);
    assert forall|x: Seq<char>| #[trigger] instance_map(s2).contains_key(x) <==> m.contains_key(
        x,
    ) by {
        if has_instance(s2, x) {
            let i = choose|i: int| 0 <= i < s2.len() && #[trigger] s2[i].instance_id@ == x;
            if i != j {
                lemma_lookup(s, i);
            }
        }
        if instance_map(s).contains_key(x) {
            let i = choose|i: int| 0 <= i < s.len() && #[trigger] s[i].instance_id@ == x;
            assert(s2[i].instance_id@ == x);
        }
        assert(s2[j].instance_id@ == k);
    }
    assert forall|x: Seq<char>| #[trigger] instance_map(s2).contains_key(x) implies instance_map(
        s2,
    )[x] == m[x] by {
        let i = choose|i: int| 0 <= i < s2.len() && #[trigger] s2[i].instance_id@ == x;
        lemma_lookup(s2, i);
        if i != j {
            lemma_lookup(s, i);
        }
    }
    assert(instance_map(s2) =~= m);
}

/// Appending an instance with a fresh id adds it to the map.
proof fn lemma_push_instance(s: Seq<InstanceLog>, item: InstanceLog)
    requires
        ids_distinct(s),
        !has_instance(s, item.instance_id@),
    ensures
        ids_distinct(s.push(item)),
        instance_map(s.push(item)) == instance_map(s).insert(item.instance_id@, item.entries@),
{
    let s2 = s.push(item);
    let k = item.instance_id@;
    let n = s.len() as int;
    assert(ids_distinct(s2)) by {
        assert forall|a: int, b: int|
            0 <= a < s2.len() && 0 <= b < s2.len() && a != b implies #[trigger] s2[a].instance_id@
            != #[trigger] s2[b].instance_id@ by {
            if a < n && b < n {
                assert(s[a].instance_id@ != s[b].instance_id@);
            } else if a < n {
                assert(s[a].instance_id@ == s2[a].instance_id@);
            } else {
                assert(s[b].instance_id@ == s2[b].instance_id@);
            }
        }
    }
    let m = instance_map(s).insert(k, item.entries@);
    assert forall|x: Seq<char>| #[trigger] instance_map(s2).contains_key(x) <==> m.contains_key(
        x,
    ) by {
        if has_instance(s2, x) {
            let i = choose|i: int| 0 <= i < s2.len() && #[trigger] s2[i].instance_id@ == x;
            if i < n {
                assert(s[i].instance_id@ == x);
            }
        }
        if instance_map(s).contains_key(x) {
            let i = choose|i: int| 0 <= i < s.len() && #[trigger] s[i].instance_id@ == x;
            assert(s2[i].instance_id@ == x);
        }
        assert(s2[n].instance_id@ == k);
    }
    assert forall|x: Seq<char>| #[trigger] instance_map(s2).contains_key(x) implies instance_map(
        s2,
    )[x] == m[x] by {
        let i = choose|i: int| 0 <= i < s2.len() && #[trigger] s2[i].instance_id@ == x;
        lemma_lookup(s2, i);
        if i < n {
            assert(s[i] == s2[i]);
            lemma_lookup(s, i);
        }
    }
    assert(instance_map(s2) =~= m);
}

/// Appends `entry` to `q`, then drops entries from the front until at most
/// `max` are left.
fn append_bounded(q: &mut VecDeque<LogEntryDto>, entry: LogEntryDto, max: usize)
    ensures
        final(q)@ == keep_last(old(q)@.push(entry), max as nat),
{
    let ghost full = old(q)@.push(entry);
    q.push_back(entry);
    while q.len() > max
        invariant
            full.len() >= q@.len(),
            q@ == full.subrange(full.len() - q@.len(), full.len() as int),
            q@.len() >= max || q@ == full,
        decreases q@.len(),
    {
        let _ = q.pop_front();
    }
    assert(q@ == keep_last(full, max as nat));
}

impl LogBuffer {
    /// The buffer's internal invariant: distinct instance ids and a bound of
    /// at least `MIN_MAX_LOGS`.
    pub closed spec fn wf(&self) -> bool {
        &&& ids_distinct(self.logs@)
        &&& self.max_per_instance >= MIN_MAX_LOGS
    }

    /// The position of the instance with id `key`, if there is one.
    fn find_instance(&self, key: &String) -> (r: Option<usize>)
        requires
            self.wf(),
        ensures
            match r {
                Some(i) => i < self.logs@.len() && self.logs@[i as int].instance_id@ == key@,
                None => !has_instance(self.logs@, key@),
            },
    {
        let n = self.logs.len();
        let mut i: usize = 0;
        while i < n
            invariant
                n == self.logs@.len(),
                i <= n,
                forall|j: int| 0 <= j < i ==> #[trigger] self.logs@[j].instance_id@ != key@,
            decreases n - i,
        {
            if self.logs[i].instance_id == *key {
                return Some(i);
            }
            i = i + 1;
        }
        None
    }

    /// Appends `entry` to the log of `instance_id` (creating that log when it
    /// is new) and then drops the oldest entries of that instance until at
    /// most `max_per_instance` are left. No other instance changes.
    pub fn push(&mut self, instance_id: &str, entry: LogEntryDto)
        requires
            old(self).wf(),
        ensures
            final(self).wf(),
            final(self)@.max_per_instance == old(self)@.max_per_instance,
            final(self)@.logs == pushed(
                old(self)@.logs,
                instance_id@,
                entry,
                old(self)@.max_per_instance,
            ),
    {
        let key = instance_id.to_owned();
        let max = self.max_per_instance;
        let ghost s = self.logs@;
        match self.find_instance(&key) {
            Some(i) => {
                proof {
                    lemma_lookup(s, i as int);
                }
                let item = &mut self.logs[i];
                append_bounded(&mut item.entries, entry, max);
                proof {
                    lemma_update_entries(s, i as int, self.logs@[i as int]);
                    assert(s.update(i as int, self.logs@[i as int]) =~= self.logs@);
                }
            },
            None => {
                let mut entries: VecDeque<LogEntryDto> = VecDeque::new();
                append_bounded(&mut entries, entry, max);
                let item = InstanceLog { instance_id: key, entries };
                proof {
                    lemma_push_instance(s, item);
                    assert(log_or_empty(instance_map(s), instance_id@) =~= Seq::<
                        LogEntryDto,
                    >::empty());
                }
                self.logs.push(item);
            },
        }
    }

    /// All instances with their entries, oldest entry first.
    pub fn get_all(&self) -> (r: &Vec<InstanceLog>)
        requires
            self.wf(),
        ensures
            ids_distinct(r@),
            instance_map(r@) == self@.logs,
    {
        &self.logs
    }

    /// Empties the log of `instance_id` when that instance is known; an
    /// unknown instance is not created.
    pub fn clear_instance(&mut self, instance_id: &str)
        requires
            old(self).wf(),
        ensures
            final(self).wf(),
            final(self)@.max_per_instance == old(self)@.max_per_instance,
            final(self)@.logs == cleared(old(self)@.logs, instance_id@),
    {
        let key = instance_id.to_owned();
        let ghost s = self.logs@;
        match self.find_instance(&key) {
            Some(i) => {
                proof {
                    lemma_lookup(s, i as int);
                }
                let item = &mut self.logs[i];
                item.entries.clear();
                proof {
                    lemma_update_entries(s, i as int, self.logs@[i as int]);
                    assert(s.update(i as int, self.logs@[i as int]) =~= self.logs@);
                }
            },
            None => {},
        }
    }

    /// Sets the per-instance bound to `max`, raised to `MIN_MAX_LOGS` when
    /// smaller. Entries already held are not dropped until the next push.
    pub fn set_max(&mut self, max: usize)
        requires
            old(self).wf(),
        ensures
            final(self).wf(),
            final(self)@.logs == old(self)@.logs,
            final(self)@.max_per_instance == effective_max(max as nat),
    {
        self.max_per_instance = if max > MIN_MAX_LOGS {
            max
        } else {
            MIN_MAX_LOGS
        };
    }
}

impl Default for LogBuffer {
    /// An empty buffer that keeps `DEFAULT_MAX_LOGS` entries per instance.
    fn default() -> (r: Self)
        ensures
            r.wf(),
            r@.logs == Map::<Seq<char>, Seq<LogEntryDto>>::empty(),
            r@.max_per_instance == DEFAULT_MAX_LOGS,
    {
        let r = LogBuffer { logs: Vec::new(), max_per_instance: DEFAULT_MAX_LOGS };
        assert(r@.logs =~= Map::<Seq<char>, Seq<LogEntryDto>>::empty());
        r
    }
}

/// The logs after each entry of `es` was pushed, in order, to instance `k`.
pub open spec fn pushed_all(
    m: Map<Seq<char>, Seq<LogEntryDto>>,
    k: Seq<char>,
    es: Seq<LogEntryDto>,
    max: nat,
) -> Map<Seq<char>, Seq<LogEntryDto>>
    decreases es.len(),
{
    if es.len() == 0 {
        m
    } else {
        pushed(pushed_all(m, k, es.drop_last(), max), k, es.last(), max)
    }
}

proof fn lemma_keep_last_push(s: Seq<LogEntryDto>, e: LogEntryDto, max: nat)
    requires
        max >= 1,
    ensures
        keep_last(keep_last(s, max).push(e), max) == keep_last(s.push(e), max),
{
    assert(keep_last(keep_last(s, max).push(e), max) =~= keep_last(s.push(e), max));
}

/// After a push, the instance holds at most `max` entries (for `max >= 1`),
/// and the entry just pushed is its newest.
pub proof fn law_push_bounded_and_newest_last(
    m: Map<Seq<char>, Seq<LogEntryDto>>,
    k: Seq<char>,
    e: LogEntryDto,
    max: nat,
)
    requires
        max >= 1,
    ensures
        pushed(m, k, e, max).contains_key(k),
        pushed(m, k, e, max)[k].len() <= max,
        pushed(m, k, e, max)[k].len() >= 1,
        pushed(m, k, e, max)[k].last() == e,
{
}

/// After a push, the instance holds the newest entries of (its old entries
/// followed by the pushed one), in their order, as many as the bound allows
/// and no fewer: nothing newer is dropped and nothing is reordered.
pub proof fn law_push_keeps_newest_suffix(
    m: Map<Seq<char>, Seq<LogEntryDto>>,
    k: Seq<char>,
    e: LogEntryDto,
    max: nat,
)
    ensures
        ({
            let full = log_or_empty(m, k).push(e);
            let kept = pushed(m, k, e, max)[k];
            &&& kept.len() == if full.len() <= max {
                full.len()
            } else {
                max
            }
            &&& forall|j: int|
                0 <= j < kept.len() ==> #[trigger] kept[j] == full[full.len() - kept.len() + j]
        }),
{
}

/// A push to one instance leaves every other instance as it was.
pub proof fn law_push_isolates_instances(
    m: Map<Seq<char>, Seq<LogEntryDto>>,
    k: Seq<char>,
    e: LogEntryDto,
    max: nat,
    other: Seq<char>,
)
    requires
        other != k,
    ensures
        pushed(m, k, e, max).contains_key(other) == m.contains_key(other),
        m.contains_key(other) ==> pushed(m, k, e, max)[other] == m[other],
{
}

/// Pushing a run of entries to an instance that starts empty (or unknown)
/// leaves exactly the latest `max` of them, oldest first.
pub proof fn law_push_keeps_latest_in_order(
    m: Map<Seq<char>, Seq<LogEntryDto>>,
    k: Seq<char>,
    es: Seq<LogEntryDto>,
    max: nat,
)
    requires
        max >= 1,
        log_or_empty(m, k).len() == 0,
    ensures
        log_or_empty(pushed_all(m, k, es, max), k) == keep_last(es, max),
    decreases es.len(),
{
    if es.len() == 0 {
        assert(keep_last(es, max) =~= Seq::<LogEntryDto>::empty());
    } else {
        law_push_keeps_latest_in_order(m, k, es.drop_last(), max);
        lemma_keep_last_push(es.drop_last(), es.last(), max);
        assert(es.drop_last().push(es.last()) =~= es);
    }
}

/// Clearing an instance empties it, leaves the others, and clearing twice
/// is the same as clearing once.
pub proof fn law_clear_instance(
    m: Map<Seq<char>, Seq<LogEntryDto>>,
    k: Seq<char>,
    other: Seq<char>,
)
    requires
        other != k,
    ensures
        cleared(m, k).contains_key(k) == m.contains_key(k),
        log_or_empty(cleared(m, k), k).len() == 0,
        cleared(m, k).contains_key(other) == m.contains_key(other),
        m.contains_key(other) ==> cleared(m, k)[other] == m[other],
        cleared(cleared(m, k), k) == cleared(m, k),
{
    assert(cleared(cleared(m, k), k) =~= cleared(m, k));
}

/// After a clear, the next push leaves that instance with just the new entry.
pub proof fn law_push_after_clear(
    m: Map<Seq<char>, Seq<LogEntryDto>>,
    k: Seq<char>,
    e: LogEntryDto,
    max: nat,
)
    requires
        max >= 1,
    ensures
        pushed(cleared(m, k), k, e, max)[k] == seq![e],
{
    assert(log_or_empty(cleared(m, k), k).push(e) =~= seq![e]);
}

/// The bound never drops below `MIN_MAX_LOGS`, and a bound at or above it
/// is taken as given.
pub proof fn law_effective_max(max: nat)
    ensures
        effective_max(max) >= MIN_MAX_LOGS,
        max >= MIN_MAX_LOGS ==> effective_max(max) == max,
        max <= MIN_MAX_LOGS ==> effective_max(max) == MIN_MAX_LOGS,
{
}

} // verus!
