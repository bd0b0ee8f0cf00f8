//! The append-only history of scan results.
use vstd::prelude::*;
use crate::model::Workload;
use crate::text::{text_lt, text_less, lemma_text_lt_total};

verus! {

/// One stored snapshot of a workload, as of one scan.
pub struct ScanRecord {
    pub workload: Workload,
    pub scan_id: u64,
    /// Grouping key of the scan: the workload's name.
    pub scan_type: String,
}

impl ScanRecord {
    pub fn duplicate(&self) -> (r: ScanRecord)
        ensures
            r == *self,
    {
        ScanRecord {
            workload: self.workload.duplicate(),
            scan_id: self.scan_id,
            scan_type: self.scan_type.clone(),
        }
    }
}

/// The row that recording `w` under `scan_id` appends.
pub open spec fn record_of(w: Workload, scan_id: u64) -> ScanRecord {
    ScanRecord { workload: w, scan_id, scan_type: w.name }
}

/// Why a snapshot could not be returned.
#[derive(PartialEq, Eq, Structural, Clone, Copy, Debug)]
pub enum HistoryError {
    /// No row has the asked name and namespace.
    NotFound,
}

/// The greatest scan id among the rows, or 0 without rows.
pub open spec fn max_scan_id(rows: Seq<ScanRecord>) -> nat
    decreases rows.len(),
{
    if rows.len() == 0 {
        0
    } else {
        let m = max_scan_id(rows.drop_last());
        if rows.last().scan_id > m {
            rows.last().scan_id as nat
        } else {
            m
        }
    }
}

/// The greatest scan id among the rows of one scan type, or 0.
pub open spec fn max_scan_of_type(rows: Seq<ScanRecord>, t: Seq<char>) -> nat
    decreases rows.len(),
{
    if rows.len() == 0 {
        0
    } else {
        let m = max_scan_of_type(rows.drop_last(), t);
        if rows.last().scan_type@ == t && rows.last().scan_id > m {
            rows.last().scan_id as nat
        } else {
            m
        }
    }
}

/// Row `i` belongs to the latest scan of its scan type.
pub open spec fn in_latest_scan(rows: Seq<ScanRecord>, i: int) -> bool {
    rows[i].scan_id == max_scan_of_type(rows, rows[i].scan_type@)
}

pub open spec fn same_key(a: Workload, b: Workload) -> bool {
    a.name@ == b.name@ && a.namespace@ == b.namespace@
}

/// Row `i` is the snapshot shown for its (name, namespace): it is in the
/// latest scan of its type, and among such rows of its key it has the
/// greatest `last_scanned`, the later row winning a tie.
pub open spec fn is_chosen(rows: Seq<ScanRecord>, i: int) -> bool {
    &&& in_latest_scan(rows, i)
    &&& forall|j: int|
        0 <= j < rows.len() && #[trigger] in_latest_scan(rows, j) && same_key(
            rows[j].workload,
            rows[i].workload,
        ) ==> {
            &&& !text_lt(rows[i].workload.last_scanned@, rows[j].workload.last_scanned@)
            &&& rows[j].workload.last_scanned@ == rows[i].workload.last_scanned@ ==> j <= i
        }
}

/// The chosen snapshots among the first `n` rows, in row order.
pub open spec fn chosen_prefix(rows: Seq<ScanRecord>, n: int) -> Seq<Workload>
    decreases n,
{
    if n <= 0 {
        Seq::empty()
    } else if is_chosen(rows, n - 1) {
        chosen_prefix(rows, n - 1).push(rows[n - 1].workload)
    } else {
        chosen_prefix(rows, n - 1)
    }
}

/// The latest snapshot of every (name, namespace), in row order.
pub open spec fn latest_snapshots(rows: Seq<ScanRecord>) -> Seq<Workload> {
    chosen_prefix(rows, rows.len() as int)
}

/// The index of the last row with this name and namespace.
pub open spec fn last_match(rows: Seq<ScanRecord>, name: Seq<char>, namespace: Seq<char>) -> Option<int>
    decreases rows.len(),
{
    if rows.len() == 0 {
        None
    } else if rows.last().workload.name@ == name && rows.last().workload.namespace@ == namespace {
        Some(rows.len() - 1)
    } else {
        last_match(rows.drop_last(), name, namespace)
    }
}

/// The scan history, oldest row first. Rows are only ever appended.
pub struct HistoryStore {
    rows: Vec<ScanRecord>,
}

impl View for HistoryStore {
    type V = Seq<ScanRecord>;

    closed spec fn view(&self) -> Seq<ScanRecord> {
        self.rows@
    }
}

/// Every scan id leaves room for a next one.
pub open spec fn ids_below_max(rows: Seq<ScanRecord>) -> bool {
    forall|i: int| 0 <= i < rows.len() ==> #[trigger] rows[i].scan_id < u64::MAX
}

pub proof fn lemma_max_scan_id_bound(rows: Seq<ScanRecord>)
    requires
        ids_below_max(rows),
    ensures
        max_scan_id(rows) < u64::MAX,
    decreases rows.len(),
{
    if rows.len() > 0 {
        assert(ids_below_max(rows.drop_last())) by {
            assert forall|i: int| 0 <= i < rows.drop_last().len() implies #[trigger] rows.drop_last()[i].scan_id < u64::MAX by {
                assert(rows.drop_last()[i] == rows[i]);
            }
        }
        lemma_max_scan_id_bound(rows.drop_last());
        assert(rows.last() == rows[rows.len() - 1]);
    }
}

impl HistoryStore {
    pub open spec fn wf(&self) -> bool {
        ids_below_max(self@)
    }

    /// An empty history.
    pub fn new() -> (r: HistoryStore)
        ensures
            r@ == Seq::<ScanRecord>::empty(),
            r.wf(),
    {
        HistoryStore { rows: Vec::new() }
    }

    /// A history holding stored rows, oldest first; refused when a scan id
    /// leaves no room for a next one.
    pub fn from_rows(rows: Vec<ScanRecord>) -> (r: Option<HistoryStore>)
        ensures
            r is Some <==> ids_below_max(rows@),
            r matches Some(h) ==> h@ == rows@,
    {
        let mut i: usize = 0;
        while i < rows.len()
            invariant
                0 <= i <= rows@.len(),
                forall|k: int| 0 <= k < i ==> #[trigger] rows@[k].scan_id < u64::MAX,
            decreases rows.len() - i,
        {
            if rows[i].scan_id == u64::MAX {
                return None;
            }
            i += 1;
        }
        Some(HistoryStore { rows })
    }

    /// The stored rows, oldest first.
    pub fn rows(&self) -> (r: &Vec<ScanRecord>)
        ensures
            r@ == self@,
    {
        &self.rows
    }

    /// The greatest scan id stored, or 0 when there are no rows.
    pub fn get_latest_scan_id(&self) -> (r: u64)
        ensures
            r == max_scan_id(self@),
    {
        let mut m: u64 = 0;
        let mut i: usize = 0;
        while i < self.rows.len()
            invariant
                0 <= i <= self@.len(),
                m == max_scan_id(self@.subrange(0, i as int)),
            decreases self.rows.len() - i,
        {
            assert(self@.subrange(0, i + 1).drop_last() =~= self@.subrange(0, i as int));
            if self.rows[i].scan_id > m {
                m = self.rows[i].scan_id;
            }
            i += 1;
        }
        assert(self@.subrange(0, self@.len() as int) =~= self@);
        m
    }

    /// The id for a new scan: one more than the greatest stored, 1 at first.
    pub fn next_scan_id(&self) -> (r: u64)
        requires
            self.wf(),
        ensures
            r == max_scan_id(self@) + 1,
    {
        proof {
            lemma_max_scan_id_bound(self@);
        }
        self.get_latest_scan_id() + 1
    }

    /// Appends the snapshot of `workload` under `scan_id`.
    pub fn insert_workload(&mut self, workload: &Workload, scan_id: u64)
        requires
            old(self).wf(),
            scan_id < u64::MAX,
        ensures
            final(self)@ == old(self)@.push(record_of(*workload, scan_id)),
            final(self).wf(),
    {
        let row = ScanRecord { workload: workload.duplicate(), scan_id, scan_type: workload.name.clone() };
        self.rows.push(row);
        proof {
            assert forall|i: int| 0 <= i < self@.len() implies #[trigger] self@[i].scan_id < u64::MAX by {
                if i < self@.len() - 1 {
                    assert(self@[i] == old(self)@[i]);
                }
            }
        }
    }

    /// The most recently recorded snapshot with this name and namespace.
    pub fn return_workload(&self, name: &str, namespace: &str) -> (r: Result<Workload, HistoryError>)
        ensures
            r is Err <==> last_match(self@, name@, namespace@) is None,
            r matches Err(e) ==> e == HistoryError::NotFound,
            r matches Ok(w) ==> w == self@[last_match(self@, name@, namespace@)->0].workload,
    {
        let name_s: String = String::from_str(name);
        let namespace_s: String = String::from_str(namespace);
        let n = self.rows.len();
        let mut i: usize = n;
        assert(self@.subrange(0, n as int) =~= self@);
        while i > 0
            invariant
                0 <= i <= n,
                n == self@.len(),
                name_s@ == name@,
                namespace_s@ == namespace@,
                last_match(self@, name@, namespace@) == last_match(self@.subrange(0, i as int), name@, namespace@),
            decreases i,
        {
            let row = &self.rows[i - 1];
            proof {
                let sub = self@.subrange(0, i as int);
                assert(sub.drop_last() =~= self@.subrange(0, i - 1));
                assert(sub.last() == self@[i - 1]);
            }
            if row.workload.name == name_s && row.workload.namespace == namespace_s {
                proof {
                    let sub = self@.subrange(0, i as int);
                    assert(sub.last() == self@[i - 1]);
                    assert(last_match(sub, name@, namespace@) == Some(i - 1));
                }
                return Ok(row.workload.duplicate());
            }
            i -= 1;
        }
        Err(HistoryError::NotFound)
    }

    fn max_scan_of(&self, t: &String) -> (r: u64)
        ensures
            r == max_scan_of_type(self@, t@),
    {
        let mut m: u64 = 0;
        let mut i: usize = 0;
        while i < self.rows.len()
            invariant
                0 <= i <= self@.len(),
                m == max_scan_of_type(self@.subrange(0, i as int), t@),
            decreases self.rows.len() - i,
        {
            assert(self@.subrange(0, i + 1).drop_last() =~= self@.subrange(0, i as int));
            assert(self@.subrange(0, i + 1).last() == self@[i as int]);
            if self.rows[i].scan_type == *t && self.rows[i].scan_id > m {
                m = self.rows[i].scan_id;
            }
            i += 1;
        }
        assert(self@.subrange(0, self@.len() as int) =~= self@);
        m
    }

    fn latest_flags(&self) -> (r: Vec<bool>)
        ensures
            r@.len() == self@.len(),
            forall|j: int| 0 <= j < r@.len() ==> #[trigger] r@[j] == in_latest_scan(self@, j),
    {
        let mut flags: Vec<bool> = Vec::new();
        let mut j: usize = 0;
        while j < self.rows.len()
            invariant
                0 <= j <= self@.len(),
                flags@.len() == j,
                forall|k: int| 0 <= k < j ==> #[trigger] flags@[k] == in_latest_scan(self@, k),
            decreases self.rows.len() - j,
        {
            let m = self.max_scan_of(&self.rows[j].scan_type);
            flags.push(self.rows[j].scan_id == m);
            j += 1;
        }
        flags
    }

    fn chosen_at(&self, flags: &Vec<bool>, i: usize) -> (r: bool)
        requires
            i < self@.len(),
            flags@.len() == self@.len(),
            forall|j: int| 0 <= j < flags@.len() ==> #[trigger] flags@[j] == in_latest_scan(self@, j),
        ensures
            r == is_chosen(self@, i as int),
    {
        if !flags[i] {
            return false;
        }
        let me = &self.rows[i].workload;
        let mut j: usize = 0;
        while j < self.rows.len()
            invariant
                0 <= j <= self@.len(),
                i < self@.len(),
                *me == self@[i as int].workload,
                flags@.len() == self@.len(),
                forall|k: int| 0 <= k < flags@.len() ==> #[trigger] flags@[k] == in_latest_scan(self@, k),
                forall|k: int|
                    0 <= k < j && #[trigger] in_latest_scan(self@, k) && same_key(self@[k].workload, *me) ==> {
                        &&& !text_lt(me.last_scanned@, self@[k].workload.last_scanned@)
                        &&& self@[k].workload.last_scanned@ == me.last_scanned@ ==> k <= i
                    },
            decreases self.rows.len() - j,
        {
            let other = &self.rows[j].workload;
            if flags[j] && other.name == me.name && other.namespace == me.namespace {
                assert(in_latest_scan(self@, j as int));
                if text_less(me.last_scanned.as_str(), other.last_scanned.as_str()) {
                    return false;
                }
                if other.last_scanned == me.last_scanned && j > i {
                    return false;
                }
            }
            j += 1;
        }
        true
    }

    /// The latest snapshot of every (name, namespace): within the latest scan
    /// of each scan type, the row with the greatest `last_scanned`.
    pub fn return_all_workloads(&self) -> (r: Vec<Workload>)
        ensures
            r@ == latest_snapshots(self@),
    {
        let flags = self.latest_flags();
        let mut out: Vec<Workload> = Vec::new();
        let mut i: usize = 0;
        while i < self.rows.len()
            invariant
                0 <= i <= self@.len(),
                flags@.len() == self@.len(),
                forall|j: int| 0 <= j < flags@.len() ==> #[trigger] flags@[j] == in_latest_scan(self@, j),
                out@ == chosen_prefix(self@, i as int),
            decreases self.rows.len() - i,
        {
            if self.chosen_at(&flags, i) {
                out.push(self.rows[i].workload.duplicate());
            }
            i += 1;
        }
        out
    }
}

/// Each chosen snapshot stands for a different (name, namespace).
pub proof fn lemma_chosen_unique(rows: Seq<ScanRecord>, i: int, j: int)
    requires
        0 <= i < rows.len(),
        0 <= j < rows.len(),
        is_chosen(rows, i),
        is_chosen(rows, j),
        same_key(rows[i].workload, rows[j].workload),
    ensures
        i == j,
{
    assert(in_latest_scan(rows, i));
    assert(in_latest_scan(rows, j));
    lemma_text_lt_total(rows[i].workload.last_scanned@, rows[j].workload.last_scanned@);
}

pub proof fn lemma_chosen_prefix_rows(rows: Seq<ScanRecord>, n: int)
    requires
        0 <= n <= rows.len(),
    ensures
        forall|p: int|
            0 <= p < chosen_prefix(rows, n).len() ==> exists|i: int|
                0 <= i < n && is_chosen(rows, i) && #[trigger] chosen_prefix(rows, n)[p] == rows[i].workload,
    decreases n,
{
    if n > 0 {
        lemma_chosen_prefix_rows(rows, n - 1);
        let prev = chosen_prefix(rows, n - 1);
        if is_chosen(rows, n - 1) {
            assert forall|p: int| 0 <= p < chosen_prefix(rows, n).len() implies exists|i: int|
                0 <= i < n && is_chosen(rows, i) && #[trigger] chosen_prefix(rows, n)[p] == rows[i].workload by {
                if p < prev.len() {
                    assert(chosen_prefix(rows, n)[p] == prev[p]);
                    let i = choose|i: int| 0 <= i < n - 1 && is_chosen(rows, i) && #[trigger] prev[p] == rows[i].workload;
                } else {
                    assert(chosen_prefix(rows, n)[p] == rows[n - 1].workload);
                }
            }
        }
    }
}

/// The list of latest snapshots never holds two for the same
/// (name, namespace).
pub proof fn law_latest_snapshots_unique(rows: Seq<ScanRecord>)
    ensures
        forall|p: int, q: int|
            0 <= p < q < latest_snapshots(rows).len() ==> !same_key(
                #[trigger] latest_snapshots(rows)[p],
                #[trigger] latest_snapshots(rows)[q],
            ),
{
    lemma_prefix_unique(rows, rows.len() as int);
}

pub proof fn lemma_prefix_unique(rows: Seq<ScanRecord>, n: int)
    requires
        0 <= n <= rows.len(),
    ensures
        forall|p: int, q: int|
            0 <= p < q < chosen_prefix(rows, n).len() ==> !same_key(
                #[trigger] chosen_prefix(rows, n)[p],
                #[trigger] chosen_prefix(rows, n)[q],
            ),
    decreases n,
{
    if n > 0 {
        lemma_prefix_unique(rows, n - 1);
        lemma_chosen_prefix_rows(rows, n - 1);
        let prev = chosen_prefix(rows, n - 1);
        let cur = chosen_prefix(rows, n);
        if is_chosen(rows, n - 1) {
            assert forall|p: int, q: int| 0 <= p < q < cur.len() implies !same_key(#[trigger] cur[p], #[trigger] cur[q]) by {
                assert(cur[p] == prev[p]);
                if q < prev.len() {
                    assert(cur[q] == prev[q]);
                } else {
                    assert(cur[q] == rows[n - 1].workload);
                    let i = choose|i: int| 0 <= i < n - 1 && is_chosen(rows, i) && #[trigger] prev[p] == rows[i].workload;
                    if same_key(cur[p], cur[q]) {
                        lemma_chosen_unique(rows, i, n - 1);
                    }
                }
            }
        }
    }
}

/// A snapshot recorded and then read back by its name and namespace is the
/// workload that was recorded.
pub proof fn law_record_then_read(rows: Seq<ScanRecord>, w: Workload, scan_id: u64)
    ensures
        last_match(rows.push(record_of(w, scan_id)), w.name@, w.namespace@) == Some(rows.len() as int),
        rows.push(record_of(w, scan_id))[rows.len() as int].workload == w,
{
    assert(rows.push(record_of(w, scan_id)).last() == record_of(w, scan_id));
}

/// `next_scan_id` is the greatest stored id plus one: on an empty history
/// the greatest is 0, so the first scan gets 1; after a scan that wrote rows
/// under id `n` the greatest is `n`, so the next scan gets `n + 1`.
pub proof fn law_next_scan_id(rows: Seq<ScanRecord>, n: u64, written: Seq<ScanRecord>)
    requires
        max_scan_id(rows) <= n,
        written.len() > 0,
        forall|k: int| 0 <= k < written.len() ==> #[trigger] written[k].scan_id == n,
    ensures
        max_scan_id(Seq::<ScanRecord>::empty()) == 0,
        max_scan_id(rows + written) == n,
    decreases written.len(),
{
    let all = rows + written;
    assert(all.drop_last() =~= rows + written.drop_last());
    assert(all.last() == written[written.len() - 1]);
    if written.len() > 1 {
        law_next_scan_id(rows, n, written.drop_last());
    } else {
        assert(rows + written.drop_last() =~= rows);
    }
}

} // verus!
