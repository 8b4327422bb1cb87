//! The conversion history: the latest runs first, at most a fixed number of them; read
//! back ordered by execution time.
use vstd::prelude::*;
use crate::models::FileFormat;

verus! {

/// One run of a batch conversion, as recorded in the history.
#[derive(Clone, Debug)]
pub struct HistoryEntry {
    pub id: String,
    pub source_folder: String,
    pub output_format: FileFormat,
    pub cleanup_enabled: bool,
    /// When the run happened.
    pub executed_at: UtcTime,
    pub status: HistoryStatus,
    pub file_count: u32,
}

/// An instant in UTC: whole seconds since the Unix epoch and the nanoseconds past them.
#[derive(Clone, Copy, Debug, PartialEq, Eq, Structural)]
pub struct UtcTime {
    pub secs: i64,
    pub nanos: u32,
}

/// Whether `a` is strictly later than `b`.
pub open spec fn later(a: UtcTime, b: UtcTime) -> bool {
    a.secs > b.secs || (a.secs == b.secs && a.nanos > b.nanos)
}

/// Whether `a` is strictly later than `b` (see `later`).
pub fn is_later(a: &UtcTime, b: &UtcTime) -> (r: bool)
    ensures
        r == later(*a, *b),
{
    a.secs > b.secs || (a.secs == b.secs && a.nanos > b.nanos)
}

/// Whether a run converted every file.
#[derive(Clone, Copy, Debug, PartialEq, Eq, Structural)]
pub enum HistoryStatus {
    Success,
    Failed,
}

/// The number of runs the history keeps.
pub const MAX_HISTORY_ENTRIES: usize = 50;

/// The history: the latest run first. Where it is kept on disk, if anywhere, is recorded
/// with it.
#[derive(Debug)]
pub struct HistoryStore {
    pub entries: Vec<HistoryEntry>,
    pub max_entries: usize,
    pub storage_path: Option<String>,
}

/// The first `max` items (all of them when there are fewer).
pub open spec fn capped<T>(s: Seq<T>, max: nat) -> Seq<T> {
    if s.len() > max {
        s.take(max as int)
    } else {
        s
    }
}

/// The entries after recording `e`: it goes first, and the oldest entries beyond `max`
/// are dropped.
pub open spec fn add_spec(entries: Seq<HistoryEntry>, e: HistoryEntry, max: nat) -> Seq<HistoryEntry> {
    capped(seq![e] + entries, max)
}

/// The entries after recording each of `runs` in turn.
pub open spec fn adds_spec(entries: Seq<HistoryEntry>, runs: Seq<HistoryEntry>, max: nat) -> Seq<
    HistoryEntry,
>
    decreases runs.len(),
{
    if runs.len() == 0 {
        entries
    } else {
        add_spec(adds_spec(entries, runs.drop_last(), max), runs.last(), max)
    }
}

/// `e` placed into `s`, a list ordered latest first, after every entry that is at least as
/// late as `e`.
pub open spec fn insert_by_time(s: Seq<HistoryEntry>, e: HistoryEntry) -> Seq<HistoryEntry>
    decreases s.len(),
{
    if s.len() == 0 {
        seq![e]
    } else if later(e.executed_at, s[0].executed_at) {
        seq![e] + s
    } else {
        seq![s[0]] + insert_by_time(s.drop_first(), e)
    }
}

/// The entries ordered by execution time, latest first; entries of the same time keep their
/// order in `s`.
pub open spec fn by_time_desc(s: Seq<HistoryEntry>) -> Seq<HistoryEntry>
    decreases s.len(),
{
    if s.len() == 0 {
        Seq::empty()
    } else {
        insert_by_time(by_time_desc(s.drop_last()), s.last())
    }
}

/// Whether no entry of `s` is later than one before it.
pub open spec fn latest_first(s: Seq<HistoryEntry>) -> bool {
    forall|i: int, j: int| 0 <= i < j < s.len() ==> !later(#[trigger] s[j].executed_at, #[trigger] s[i].executed_at)
}

/// The entries behind a list of references.
pub open spec fn derefs(s: Seq<&HistoryEntry>) -> Seq<HistoryEntry> {
    s.map_values(|x: &HistoryEntry| *x)
}

/// Inserting after the entries at least as late splits `s` at the first entry that `e` is
/// later than.
proof fn lemma_insert_by_time_at(s: Seq<HistoryEntry>, e: HistoryEntry, j: int)
    requires
        0 <= j <= s.len(),
        forall|k: int| 0 <= k < j ==> !later(e.executed_at, #[trigger] s[k].executed_at),
        j < s.len() ==> later(e.executed_at, s[j].executed_at),
    ensures
        insert_by_time(s, e) == s.take(j) + seq![e] + s.skip(j),
    decreases s.len(),
{
    if s.len() == 0 {
        assert(s.take(j) + seq![e] + s.skip(j) =~= seq![e]);
    } else if j == 0 {
        assert(s.take(0) + seq![e] + s.skip(0) =~= seq![e] + s);
    } else {
        let t = s.drop_first();
        assert forall|k: int| 0 <= k < j - 1 implies !later(e.executed_at, #[trigger] t[k].executed_at) by {
            assert(t[k] == s[k + 1]);
        }
        if j - 1 < t.len() {
            assert(t[j - 1] == s[j]);
        }
        lemma_insert_by_time_at(t, e, j - 1);
        assert(seq![s[0]] + (t.take(j - 1) + seq![e] + t.skip(j - 1)) =~= s.take(j) + seq![e]
            + s.skip(j));
    }
}

/// Inserting by time keeps a list ordered latest first and adds exactly `e`.
proof fn lemma_insert_by_time_sorted(s: Seq<HistoryEntry>, e: HistoryEntry)
    requires
        latest_first(s),
    ensures
        latest_first(insert_by_time(s, e)),
        insert_by_time(s, e).to_multiset() == s.to_multiset().insert(e),
    decreases s.len(),
{
    broadcast use vstd::seq_lib::group_to_multiset_ensures;
    if s.len() == 0 {
        assert(seq![e] =~= Seq::<HistoryEntry>::empty().push(e));
    } else if later(e.executed_at, s[0].executed_at) {
        let r = seq![e] + s;
        assert forall|i: int, j: int| 0 <= i < j < r.len() implies !later(
            #[trigger] r[j].executed_at,
            #[trigger] r[i].executed_at,
        ) by {
            if i == 0 {
                assert(r[j] == s[j - 1]);
                if j - 1 > 0 {
                    assert(!later(s[j - 1].executed_at, s[0].executed_at));
                }
            } else {
                assert(r[i] == s[i - 1]);
                assert(r[j] == s[j - 1]);
            }
        }
        assert(r =~= s.insert(0, e));
    } else {
        let t = s.drop_first();
        assert forall|i: int, j: int| 0 <= i < j < t.len() implies !later(
            #[trigger] t[j].executed_at,
            #[trigger] t[i].executed_at,
        ) by {
            assert(t[i] == s[i + 1]);
            assert(t[j] == s[j + 1]);
        }
        lemma_insert_by_time_sorted(t, e);
        let it = insert_by_time(t, e);
        let r = seq![s[0]] + it;
        assert forall|i: int, j: int| 0 <= i < j < r.len() implies !later(
            #[trigger] r[j].executed_at,
            #[trigger] r[i].executed_at,
        ) by {
            if i == 0 {
                assert(r[j] == it[j - 1]);
                assert(it.to_multiset().count(it[j - 1]) > 0);
                assert(t.to_multiset().insert(e).count(it[j - 1]) > 0);
                if it[j - 1] != e {
                    assert(t.to_multiset().count(it[j - 1]) > 0);
                    assert(t.contains(it[j - 1]));
                    let k = choose|k: int| 0 <= k < t.len() && t[k] == it[j - 1];
                    assert(t[k] == s[k + 1]);
                }
            } else {
                assert(r[i] == it[i - 1]);
                assert(r[j] == it[j - 1]);
            }
        }
        assert(s =~= seq![s[0]] + t);
        assert(r =~= it.insert(0, s[0]));
        assert(s.to_multiset() =~= t.to_multiset().insert(s[0])) by {
            assert(s =~= t.insert(0, s[0]));
        }
    }
}

/// The entries ordered by time are ordered latest first and are the same entries.
pub proof fn law_by_time_desc(s: Seq<HistoryEntry>)
    ensures
        latest_first(by_time_desc(s)),
        by_time_desc(s).to_multiset() == s.to_multiset(),
    decreases s.len(),
{
    broadcast use vstd::seq_lib::group_to_multiset_ensures;
    if s.len() > 0 {
        law_by_time_desc(s.drop_last());
        lemma_insert_by_time_sorted(by_time_desc(s.drop_last()), s.last());
        assert(s =~= s.drop_last().push(s.last()));
    }
}

impl HistoryStore {
    /// Where the history is kept on disk.
    pub open spec fn storage_path_spec(&self) -> Option<Seq<char>> {
        match self.storage_path {
            Some(p) => Some(p@),
            None => None,
        }
    }

    /// An empty history, kept nowhere, of at most `MAX_HISTORY_ENTRIES` runs.
    pub fn new() -> (s: Self)
        ensures
            s.entries@.len() == 0,
            s.max_entries == MAX_HISTORY_ENTRIES,
            s.storage_path_spec() is None,
    {
        HistoryStore { entries: Vec::new(), max_entries: MAX_HISTORY_ENTRIES, storage_path: None }
    }

    /// A history kept at `path`, holding the runs read from there; beyond
    /// `MAX_HISTORY_ENTRIES` the oldest are dropped.
    pub fn with_loaded_entries(path: String, entries: Vec<HistoryEntry>) -> (s: Self)
        ensures
            s.entries@ == capped(entries@, MAX_HISTORY_ENTRIES as nat),
            s.max_entries == MAX_HISTORY_ENTRIES,
            s.storage_path_spec() == Some(path@),
    {
        let mut entries = entries;
        if entries.len() > MAX_HISTORY_ENTRIES {
            entries.truncate(MAX_HISTORY_ENTRIES);
        }
        HistoryStore { entries, max_entries: MAX_HISTORY_ENTRIES, storage_path: Some(path) }
    }

    /// Where the history is kept on disk, if anywhere.
    pub fn storage_path(&self) -> (r: Option<&String>)
        ensures
            match r {
                Some(p) => self.storage_path_spec() == Some(p@),
                None => self.storage_path_spec() is None,
            },
    {
        match &self.storage_path {
            Some(p) => Some(p),
            None => None,
        }
    }

    /// Records a run: it goes first, and the oldest runs beyond `max_entries` are dropped.
    pub fn add_entry(&mut self, entry: HistoryEntry)
        ensures
            final(self).entries@ == add_spec(old(self).entries@, entry, old(self).max_entries as nat),
            final(self).max_entries == old(self).max_entries,
            final(self).storage_path_spec() == old(self).storage_path_spec(),
    {
        self.entries.insert(0, entry);
        if self.entries.len() > self.max_entries {
            self.entries.truncate(self.max_entries);
        }
        assert(seq![entry] + old(self).entries@ =~= old(self).entries@.insert(0, entry));
    }

    /// Forgets every run.
    pub fn clear(&mut self)
        ensures
            final(self).entries@.len() == 0,
            final(self).max_entries == old(self).max_entries,
            final(self).storage_path_spec() == old(self).storage_path_spec(),
    {
        self.entries.clear();
    }

    /// The runs ordered by execution time, latest first; runs of the same time keep the
    /// order in which they are stored.
    pub fn get_entries(&self) -> (r: Vec<&HistoryEntry>)
        ensures
            derefs(r@) == by_time_desc(self.entries@),
            latest_first(derefs(r@)),
            derefs(r@).to_multiset() == self.entries@.to_multiset(),
    {
        let mut res: Vec<&HistoryEntry> = Vec::new();
        let n = self.entries.len();
        let mut i: usize = 0;
        while i < n
            invariant
                n == self.entries@.len(),
                i <= n,
                derefs(res@) == by_time_desc(self.entries@.take(i as int)),
            decreases n - i,
        {
            let e = &self.entries[i];
            let mut j: usize = 0;
            while j < res.len() && !is_later(&e.executed_at, &res[j].executed_at)
                invariant
                    j <= res@.len(),
                    forall|k: int|
                        0 <= k < j ==> !later(e.executed_at, #[trigger] derefs(res@)[k].executed_at),
                decreases res@.len() - j,
            {
                j = j + 1;
            }
            proof {
                let d = derefs(res@);
                lemma_insert_by_time_at(d, *e, j as int);
                assert(self.entries@.take(i + 1).drop_last() =~= self.entries@.take(i as int));
                assert(self.entries@.take(i + 1).last() == self.entries@[i as int]);
            }
            let ghost before = res@;
            res.insert(j, e);
            proof {
                assert(derefs(res@) =~= derefs(before).take(j as int) + seq![*e] + derefs(
                    before,
                ).skip(j as int));
            }
            i = i + 1;
        }
        proof {
            assert(self.entries@.take(n as int) =~= self.entries@);
            law_by_time_desc(self.entries@);
        }
        res
    }

    /// The runs ordered by execution time, latest first (the same as `get_entries`).
    pub fn get_all(&self) -> (r: Vec<&HistoryEntry>)
        ensures
            derefs(r@) == by_time_desc(self.entries@),
            latest_first(derefs(r@)),
            derefs(r@).to_multiset() == self.entries@.to_multiset(),
    {
        self.get_entries()
    }
}

impl Default for HistoryStore {
    /// An empty history, kept nowhere, of at most `MAX_HISTORY_ENTRIES` runs.
    fn default() -> (s: Self)
        ensures
            s.entries@.len() == 0,
            s.max_entries == MAX_HISTORY_ENTRIES,
            s.storage_path_spec() is None,
    {
        HistoryStore::new()
    }
}

/// However many runs are recorded, the history never holds more than its maximum, and it
/// holds exactly the latest ones, latest first.
pub proof fn law_history_keeps_latest(runs: Seq<HistoryEntry>, max: nat)
    ensures
        adds_spec(Seq::empty(), runs, max) == capped(runs.reverse(), max),
        adds_spec(Seq::empty(), runs, max).len() <= max,
    decreases runs.len(),
{
    if runs.len() > 0 {
        law_history_keeps_latest(runs.drop_last(), max);
        let prev = capped(runs.drop_last().reverse(), max);
        assert(runs.reverse() =~= seq![runs.last()] + runs.drop_last().reverse());
        assert(capped(seq![runs.last()] + prev, max) =~= capped(runs.reverse(), max));
    }
}

/// Recording a run puts it first whenever the history keeps any run at all.
pub proof fn law_newest_first(entries: Seq<HistoryEntry>, e: HistoryEntry, max: nat)
    requires
        max > 0,
    ensures
        add_spec(entries, e, max)[0] == e,
        add_spec(entries, e, max).len() <= max || add_spec(entries, e, max).len() == entries.len() + 1,
{
}

} // verus!
