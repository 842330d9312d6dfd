//! The local append-only store: line numbers, per-device sequence allocation,
//! ordered retrieval of pending rows, and the uploaded/confirmed lifecycle.
use vstd::prelude::*;
use crate::row::{encode_row, encoded, ImuData, StoredRow};

verus! {

/// Why a store operation did not take effect.
#[derive(Clone, Copy, Debug, PartialEq, Eq)]
pub enum StoreError {
    /// The store cannot take another row.
    Persistence,
    /// The device has used every sequence value.
    SequenceExhausted,
    /// No row has the given line number.
    UnknownRow,
}

/// A row that may stand at index `i`: line number `i + 1`, confirmed only if uploaded.
pub open spec fn row_in_place(r: StoredRow, i: int) -> bool {
    r.line_no as int == i + 1 && (r.confirmed ==> r.uploaded)
}

/// Row `i` has line number `i + 1`, and only uploaded rows are confirmed.
pub open spec fn rows_well_formed(rows: Seq<StoredRow>) -> bool {
    forall|i: int| 0 <= i < rows.len() ==> row_in_place(#[trigger] rows[i], i)
}

/// One more than the highest sequence stored for `device_id`, or 0 when it has none.
pub open spec fn next_seq_of(rows: Seq<StoredRow>, device_id: u64) -> int
    decreases rows.len(),
{
    if rows.len() == 0 {
        0
    } else {
        let rest = next_seq_of(rows.drop_last(), device_id);
        let last = rows.last();
        if last.device_id == device_id && last.sequence + 1 > rest {
            last.sequence + 1
        } else {
            rest
        }
    }
}

/// The rows not yet uploaded, in store order.
pub open spec fn pending(rows: Seq<StoredRow>) -> Seq<StoredRow>
    decreases rows.len(),
{
    if rows.len() == 0 {
        Seq::empty()
    } else {
        let p = pending(rows.drop_last());
        if rows.last().uploaded {
            p
        } else {
            p.push(rows.last())
        }
    }
}

/// The first `limit` pending rows (all of them when there are fewer).
pub open spec fn first_pending(rows: Seq<StoredRow>, limit: int) -> Seq<StoredRow> {
    let p = pending(rows);
    if p.len() <= limit {
        p
    } else {
        p.take(limit)
    }
}

/// The row as stored after `append`: next line number, next sequence of its device, fresh lifecycle.
pub open spec fn appended(rows: Seq<StoredRow>, row: StoredRow) -> StoredRow {
    StoredRow {
        line_no: (rows.len() + 1) as u64,
        sequence: next_seq_of(rows, row.device_id) as u32,
        uploaded: false,
        confirmed: false,
        ..row
    }
}

pub open spec fn with_uploaded(r: StoredRow) -> StoredRow {
    StoredRow { uploaded: true, ..r }
}

pub open spec fn with_confirmed(r: StoredRow) -> StoredRow {
    StoredRow { uploaded: true, confirmed: true, ..r }
}

/// `rows` with every row whose line number is in `lines` marked uploaded.
pub open spec fn uploaded_where(rows: Seq<StoredRow>, lines: Set<u64>) -> Seq<StoredRow> {
    Seq::new(
        rows.len(),
        |i: int|
            if lines.contains(rows[i].line_no) {
                with_uploaded(rows[i])
            } else {
                rows[i]
            },
    )
}

/// The line numbers of the first `n` rows of `batch`.
pub open spec fn lines_of(batch: Seq<StoredRow>, n: int) -> Set<u64> {
    Set::new(|l: u64| exists|j: int| 0 <= j < n && #[trigger] batch[j].line_no == l)
}

/// How many rows of a batch of `len` an acknowledgement of `accepted` covers.
pub open spec fn acked_count(accepted: u32, len: nat) -> int {
    if accepted as int <= len {
        accepted as int
    } else {
        len as int
    }
}

/// An append-only table of rows, numbered from 1 in the order they were appended.
pub struct LocalStore {
    rows: Vec<StoredRow>,
}

impl View for LocalStore {
    type V = Seq<StoredRow>;

    closed spec fn view(&self) -> Seq<StoredRow> {
        self.rows@
    }
}

/// The sequence allocator resumes from what is stored: the next sequence of a
/// device is exactly one more than the highest sequence stored for it, whatever
/// rows of other devices the store also holds, and 0 when it has no row.
pub proof fn lemma_next_sequence_resumes(rows: Seq<StoredRow>, device_id: u64)
    ensures
        0 <= next_seq_of(rows, device_id) <= u32::MAX + 1,
        forall|i: int|
            0 <= i < rows.len() && #[trigger] rows[i].device_id == device_id ==> rows[i].sequence
                < next_seq_of(rows, device_id),
        (exists|i: int| 0 <= i < rows.len() && #[trigger] rows[i].device_id == device_id) ==> exists|i: int|
            0 <= i < rows.len() && #[trigger] rows[i].device_id == device_id && rows[i].sequence + 1
                == next_seq_of(rows, device_id),
        (forall|i: int| 0 <= i < rows.len() ==> #[trigger] rows[i].device_id != device_id) ==> next_seq_of(
            rows,
            device_id,
        ) == 0,
    decreases rows.len(),
{
    if rows.len() > 0 {
        let t = rows.drop_last();
        lemma_next_sequence_resumes(t, device_id);
        assert forall|i: int|
            0 <= i < rows.len() && #[trigger] rows[i].device_id == device_id implies rows[i].sequence
                < next_seq_of(rows, device_id) by {
            if i < rows.len() - 1 {
                assert(t[i] == rows[i]);
            }
        }
        let last = rows.len() - 1;
        if rows[last].device_id == device_id && rows[last].sequence + 1 > next_seq_of(t, device_id) {
            assert(rows[last].sequence + 1 == next_seq_of(rows, device_id));
        } else if exists|i: int| 0 <= i < rows.len() && #[trigger] rows[i].device_id == device_id {
            let i = choose|i: int| 0 <= i < rows.len() && #[trigger] rows[i].device_id == device_id;
            if i == last {
                assert(rows[last].sequence < next_seq_of(t, device_id) + 1);
                if next_seq_of(t, device_id) == 0 {
                    assert(false);
                } else {
                    assert(exists|k: int| 0 <= k < t.len() && #[trigger] t[k].device_id == device_id) by {
                        if forall|k: int| 0 <= k < t.len() ==> #[trigger] t[k].device_id != device_id {
                            assert(next_seq_of(t, device_id) == 0);
                        }
                    }
                }
            } else {
                assert(t[i].device_id == device_id);
            }
            let k = choose|k: int|
                0 <= k < t.len() && #[trigger] t[k].device_id == device_id && t[k].sequence + 1 == next_seq_of(
                    t,
                    device_id,
                );
            assert(rows[k] == t[k]);
        } else {
            assert forall|k: int| 0 <= k < t.len() implies #[trigger] t[k].device_id != device_id by {
                assert(rows[k] == t[k]);
            }
        }
    }
}

/// After an append, the device's next sequence is one more than before.
pub proof fn lemma_next_sequence_after_append(rows: Seq<StoredRow>, row: StoredRow)
    requires
        next_seq_of(rows, row.device_id) <= u32::MAX,
    ensures
        next_seq_of(rows.push(appended(rows, row)), row.device_id) == next_seq_of(rows, row.device_id) + 1,
{
    lemma_next_sequence_resumes(rows, row.device_id);
    let x = rows.push(appended(rows, row));
    assert(x.drop_last() =~= rows);
    assert(x.last() == appended(rows, row));
    assert(x.last().sequence as int == next_seq_of(rows, row.device_id));
    assert(x.last().device_id == row.device_id);
}


/// Marking a row uploaded is idempotent: doing it twice leaves the same rows as doing it once.
pub proof fn lemma_mark_uploaded_idempotent(rows: Seq<StoredRow>, line_no: u64)
    ensures
        uploaded_where(uploaded_where(rows, set![line_no]), set![line_no]) == uploaded_where(
            rows,
            set![line_no],
        ),
{
    assert(uploaded_where(uploaded_where(rows, set![line_no]), set![line_no]) =~= uploaded_where(
        rows,
        set![line_no],
    ));
}

proof fn lemma_pending_rows(rows: Seq<StoredRow>)
    requires
        rows_well_formed(rows),
    ensures
        forall|k: int|
            0 <= k < pending(rows).len() ==> 1 <= #[trigger] pending(rows)[k].line_no <= rows.len()
                && pending(rows)[k] == rows[pending(rows)[k].line_no - 1] && !pending(
                rows,
            )[k].uploaded,
        forall|a: int, b: int|
            0 <= a < b < pending(rows).len() ==> #[trigger] pending(rows)[a].line_no < #[trigger] pending(
                rows,
            )[b].line_no,
    decreases rows.len(),
{
    if rows.len() > 0 {
        let t = rows.drop_last();
        assert forall|i: int| 0 <= i < t.len() implies #[trigger] t[i].line_no as int == i + 1 && (
        t[i].confirmed ==> t[i].uploaded) by {
            assert(t[i] == rows[i]);
        }
        lemma_pending_rows(t);
        let p = pending(t);
        assert forall|k: int| 0 <= k < p.len() implies #[trigger] p[k] == rows[p[k].line_no - 1] by {
            assert(t[p[k].line_no - 1] == rows[p[k].line_no - 1]);
        }
        assert(rows.last() == rows[rows.len() - 1]);
    }
}

proof fn lemma_uploaded_where_well_formed(rows: Seq<StoredRow>, lines: Set<u64>)
    requires
        rows_well_formed(rows),
    ensures
        rows_well_formed(uploaded_where(rows, lines)),
{
    let u = uploaded_where(rows, lines);
    assert forall|i: int| 0 <= i < u.len() implies #[trigger] u[i].line_no as int == i + 1 && (
    u[i].confirmed ==> u[i].uploaded) by {
        assert(rows[i].line_no as int == i + 1);
    }
}

impl LocalStore {
    pub open spec fn well_formed(&self) -> bool {
        rows_well_formed(self@)
    }

    /// An empty store.
    pub fn new() -> (r: LocalStore)
        ensures
            r@ == Seq::<StoredRow>::empty(),
            r.well_formed(),
    {
        LocalStore { rows: Vec::new() }
    }

    /// Reopens a store over previously persisted rows; `None` when they are not
    /// numbered 1, 2, ... in order or hold a confirmed row that was never uploaded.
    pub fn from_rows(rows: Vec<StoredRow>) -> (r: Option<LocalStore>)
        ensures
            r.is_some() <==> rows_well_formed(rows@),
            r.is_some() ==> r.unwrap()@ == rows@,
    {
        let mut i: usize = 0;
        while i < rows.len()
            invariant
                i <= rows@.len(),
                forall|j: int| 0 <= j < i ==> row_in_place(#[trigger] rows@[j], j),
            decreases rows@.len() - i,
        {
            let r = rows[i];
            if r.line_no != i as u64 + 1 || (r.confirmed && !r.uploaded) {
                assert(!row_in_place(rows@[i as int], i as int));
                return None;
            }
            assert(row_in_place(rows@[i as int], i as int));
            i += 1;
        }
        Some(LocalStore { rows })
    }

    /// The number of rows; also the line number of the newest one.
    pub fn len(&self) -> (r: usize)
        ensures
            r == self@.len(),
    {
        self.rows.len()
    }

    /// The row with the given line number, if the store has one.
    pub fn row(&self, line_no: u64) -> (r: Option<StoredRow>)
        requires
            self.well_formed(),
        ensures
            r.is_some() <==> 1 <= line_no <= self@.len(),
            r.is_some() ==> r.unwrap() == self@[line_no - 1],
    {
        if line_no >= 1 && line_no <= self.rows.len() as u64 {
            Some(self.rows[(line_no - 1) as usize])
        } else {
            None
        }
    }

    fn next_seq_value(&self, device_id: u64) -> (r: u64)
        ensures
            r as int == next_seq_of(self@, device_id),
    {
        let mut best: u64 = 0;
        let mut i: usize = 0;
        while i < self.rows.len()
            invariant
                i <= self@.len(),
                best as int == next_seq_of(self@.subrange(0, i as int), device_id),
                best <= u32::MAX as u64 + 1,
            decreases self@.len() - i,
        {
            let r = self.rows[i];
            proof {
                assert(self@.subrange(0, i + 1).drop_last() =~= self@.subrange(0, i as int));
            }
            if r.device_id == device_id && r.sequence as u64 + 1 > best {
                best = r.sequence as u64 + 1;
            }
            i += 1;
        }
        proof {
            assert(self@.subrange(0, self@.len() as int) =~= self@);
        }
        best
    }

    /// The sequence the next row of `device_id` will get: one more than the
    /// highest it has in the store, or 0 when it has none.
    pub fn next_sequence(&self, device_id: u64) -> (r: Result<u32, StoreError>)
        ensures
            r.is_ok() <==> next_seq_of(self@, device_id) <= u32::MAX,
            r.is_ok() ==> r.unwrap() as int == next_seq_of(self@, device_id),
            r.is_err() ==> r == Err::<u32, StoreError>(StoreError::SequenceExhausted),
    {
        let n = self.next_seq_value(device_id);
        if n > u32::MAX as u64 {
            Err(StoreError::SequenceExhausted)
        } else {
            Ok(n as u32)
        }
    }

    /// Appends a row, giving it the next line number and the next sequence of
    /// its device, not uploaded and not confirmed. Returns the line number.
    pub fn append(&mut self, row: StoredRow) -> (r: Result<u64, StoreError>)
        requires
            old(self).well_formed(),
        ensures
            final(self).well_formed(),
            r.is_ok() <==> next_seq_of(old(self)@, row.device_id) <= u32::MAX && old(self)@.len()
                < u64::MAX,
            r.is_ok() ==> r.unwrap() == old(self)@.len() + 1 && final(self)@ == old(self)@.push(
                appended(old(self)@, row),
            ),
            r.is_ok() ==> forall|i: int|
                0 <= i < old(self)@.len() && #[trigger] old(self)@[i].device_id == row.device_id
                    ==> old(self)@[i].sequence < final(self)@.last().sequence,
            r.is_err() ==> final(self)@ == old(self)@,
            r == Err::<u64, StoreError>(StoreError::SequenceExhausted) <==> next_seq_of(
                old(self)@,
                row.device_id,
            ) > u32::MAX,
            r == Err::<u64, StoreError>(StoreError::Persistence) <==> next_seq_of(
                old(self)@,
                row.device_id,
            ) <= u32::MAX && old(self)@.len() >= u64::MAX,
    {
        let n = self.next_seq_value(row.device_id);
        if n > u32::MAX as u64 {
            return Err(StoreError::SequenceExhausted);
        }
        if self.rows.len() as u64 >= u64::MAX {
            return Err(StoreError::Persistence);
        }
        let line_no = self.rows.len() as u64 + 1;
        let stored = StoredRow {
            line_no,
            sequence: n as u32,
            uploaded: false,
            confirmed: false,
            ..row
        };
        proof {
            lemma_next_sequence_resumes(self@, row.device_id);
        }
        self.rows.push(stored);
        proof {
            assert(final(self)@ =~= self@);
        }
        Ok(line_no)
    }

    /// Stores one capture of `device_id`: encodes it and appends it in one step,
    /// so the sequence it gets is never used twice for the device.
    pub fn capture(&mut self, device_id: u64, reading: &ImuData, external_time: Option<u64>) -> (r: Result<u64, StoreError>)
        requires
            old(self).well_formed(),
        ensures
            final(self).well_formed(),
            r.is_ok() <==> next_seq_of(old(self)@, device_id) <= u32::MAX && old(self)@.len()
                < u64::MAX,
            r.is_ok() ==> r.unwrap() == old(self)@.len() + 1 && final(self)@ == old(self)@.push(
                appended(old(self)@, encoded(*reading, device_id, 0, external_time)),
            ),
            r.is_err() ==> final(self)@ == old(self)@,
            r == Err::<u64, StoreError>(StoreError::SequenceExhausted) <==> next_seq_of(
                old(self)@,
                device_id,
            ) > u32::MAX,
    {
        let row = encode_row(reading, device_id, 0, external_time);
        self.append(row)
    }
    /// Up to `limit` rows that are not yet uploaded, oldest first. Each call is a
    /// fresh query over the current rows.
    pub fn fetch_pending(&self, limit: u32) -> (r: Vec<StoredRow>)
        requires
            self.well_formed(),
        ensures
            r@ == first_pending(self@, limit as int),
            r@.len() <= limit,
            forall|k: int| 0 <= k < r@.len() ==> !(#[trigger] r@[k]).uploaded,
            forall|a: int, b: int|
                0 <= a < b < r@.len() ==> (#[trigger] r@[a]).line_no < (#[trigger] r@[b]).line_no,
    {
        let mut out: Vec<StoredRow> = Vec::new();
        let mut i: usize = 0;
        while i < self.rows.len()
            invariant
                i <= self@.len(),
                out@ == first_pending(self@.subrange(0, i as int), limit as int),
            decreases self@.len() - i,
        {
            let r = self.rows[i];
            proof {
                assert(self@.subrange(0, i + 1).drop_last() =~= self@.subrange(0, i as int));
                assert(self@.subrange(0, i + 1).last() == r);
            }
            if !r.uploaded && out.len() < limit as usize {
                out.push(r);
            }
            proof {
                let p = pending(self@.subrange(0, i as int));
                let q = pending(self@.subrange(0, i + 1));
                if !r.uploaded && p.len() >= limit {
                    assert(q.take(limit as int) =~= p.take(limit as int));
                }
            }
            i += 1;
        }
        proof {
            assert(self@.subrange(0, self@.len() as int) =~= self@);
            lemma_pending_rows(self@);
            let p = pending(self@);
            assert forall|k: int| 0 <= k < out@.len() implies !(#[trigger] out@[k]).uploaded by {
                assert(out@[k] == p[k]);
                assert(1 <= p[k].line_no);
            }
            assert forall|a: int, b: int| 0 <= a < b < out@.len() implies (#[trigger] out@[a]).line_no
                < (#[trigger] out@[b]).line_no by {
                assert(out@[a] == p[a] && out@[b] == p[b]);
            }
        }
        out
    }

    /// Marks the row with line number `line_no` uploaded. Marking a row that is
    /// already uploaded, or a line number the store does not have, changes nothing.
    pub fn mark_uploaded(&mut self, line_no: u64)
        requires
            old(self).well_formed(),
        ensures
            final(self).well_formed(),
            final(self)@ == uploaded_where(old(self)@, set![line_no]),
    {
        proof {
            lemma_uploaded_where_well_formed(self@, set![line_no]);
        }
        if line_no >= 1 && line_no <= self.rows.len() as u64 {
            let idx = (line_no - 1) as usize;
            let mut r = self.rows[idx];
            r.uploaded = true;
            self.rows.set(idx, r);
            proof {
                assert forall|i: int| 0 <= i < old(self)@.len() && i != idx implies old(self)@[i].line_no != line_no by {
                    assert(row_in_place(old(self)@[i], i));
                }
                assert(final(self)@ =~= uploaded_where(old(self)@, set![line_no]));
            }
        } else {
            proof {
                assert forall|i: int| 0 <= i < old(self)@.len() implies old(self)@[i].line_no != line_no by {
                    assert(row_in_place(old(self)@[i], i));
                }
                assert(final(self)@ =~= uploaded_where(old(self)@, set![line_no]));
            }
        }
    }

    /// Marks the row with line number `line_no` confirmed (and so also uploaded).
    /// Fails with `UnknownRow` when the store has no such row.
    pub fn mark_confirmed(&mut self, line_no: u64) -> (r: Result<(), StoreError>)
        requires
            old(self).well_formed(),
        ensures
            final(self).well_formed(),
            r.is_ok() <==> 1 <= line_no <= old(self)@.len(),
            r.is_ok() ==> final(self)@ == old(self)@.update(
                line_no - 1,
                with_confirmed(old(self)@[line_no - 1]),
            ),
            r.is_err() ==> r == Err::<(), StoreError>(StoreError::UnknownRow) && final(self)@ == old(
                self,
            )@,
    {
        if line_no >= 1 && line_no <= self.rows.len() as u64 {
            let idx = (line_no - 1) as usize;
            let mut r = self.rows[idx];
            r.uploaded = true;
            r.confirmed = true;
            self.rows.set(idx, r);
            proof {
                assert forall|i: int| 0 <= i < final(self)@.len() implies row_in_place(
                    #[trigger] final(self)@[i],
                    i,
                ) by {
                    assert(row_in_place(old(self)@[i], i));
                }
                let i = line_no - 1;
                assert(final(self)@ =~= old(self)@.update(i, with_confirmed(old(self)@[i])));
            }
            Ok(())
        } else {
            Err(StoreError::UnknownRow)
        }
    }

    /// Records the relay's acknowledgement of `batch`: the first `accepted` rows of
    /// the batch, in the order they were submitted, become uploaded; the rest stay
    /// pending. A transport failure is an acknowledgement of zero rows.
    pub fn acknowledge(&mut self, batch: &Vec<StoredRow>, accepted: u32)
        requires
            old(self).well_formed(),
        ensures
            final(self).well_formed(),
            final(self)@ == uploaded_where(
                old(self)@,
                lines_of(batch@, acked_count(accepted, batch@.len())),
            ),
    {
        let n: usize = if (accepted as usize) < batch.len() { accepted as usize } else { batch.len() };
        let mut j: usize = 0;
        proof {
            assert(uploaded_where(self@, lines_of(batch@, 0)) =~= self@);
        }
        while j < n
            invariant
                j <= n <= batch@.len(),
                n as int == acked_count(accepted, batch@.len()),
                self.well_formed(),
                self@ == uploaded_where(old(self)@, lines_of(batch@, j as int)),
            decreases n - j,
        {
            let l = batch[j].line_no;
            self.mark_uploaded(l);
            proof {
                let s = lines_of(batch@, j as int);
                assert(lines_of(batch@, j + 1) =~= s.insert(l)) by {
                    assert forall|x: u64| #[trigger] lines_of(batch@, j + 1).contains(x) implies s.insert(
                        l,
                    ).contains(x) by {
                        let k = choose|k: int| 0 <= k < j + 1 && #[trigger] batch@[k].line_no == x;
                        if k < j {
                            assert(s.contains(x));
                        }
                    }
                    assert forall|x: u64| s.insert(l).contains(x) implies #[trigger] lines_of(
                        batch@,
                        j + 1,
                    ).contains(x) by {
                        if x == l {
                            assert(batch@[j as int].line_no == x);
                        } else {
                            let k = choose|k: int| 0 <= k < j && #[trigger] batch@[k].line_no == x;
                            assert(0 <= k < j + 1 && batch@[k].line_no == x);
                        }
                    }
                }
                assert(self@ =~= uploaded_where(old(self)@, s.insert(l)));
            }
            j += 1;
        }
    }

    /// Marks confirmed the oldest row of `device_id` with the given sequence, and
    /// returns its line number. Fails with `UnknownRow` when no row has that key.
    pub fn mark_confirmed_key(&mut self, device_id: u64, sequence: u32) -> (r: Result<u64, StoreError>)
        requires
            old(self).well_formed(),
        ensures
            final(self).well_formed(),
            r.is_ok() <==> exists|i: int|
                0 <= i < old(self)@.len() && #[trigger] old(self)@[i].device_id == device_id && old(
                    self,
                )@[i].sequence == sequence,
            r.is_ok() ==> ({
                let i = r.unwrap() - 1;
                &&& 0 <= i < old(self)@.len()
                &&& old(self)@[i].device_id == device_id && old(self)@[i].sequence == sequence
                &&& forall|j: int|
                    0 <= j < i ==> !(#[trigger] old(self)@[j].device_id == device_id && old(self)@[j].sequence
                        == sequence)
                &&& final(self)@ == old(self)@.update(i, with_confirmed(old(self)@[i]))
            }),
            r.is_err() ==> r == Err::<u64, StoreError>(StoreError::UnknownRow) && final(self)@ == old(
                self,
            )@,
    {
        let mut i: usize = 0;
        while i < self.rows.len()
            invariant
                i <= self@.len(),
                self.well_formed(),
                self@ == old(self)@,
                forall|j: int|
                    0 <= j < i ==> !(#[trigger] self@[j].device_id == device_id && self@[j].sequence
                        == sequence),
            decreases self@.len() - i,
        {
            let r = self.rows[i];
            if r.device_id == device_id && r.sequence == sequence {
                proof {
                    assert(row_in_place(self@[i as int], i as int));
                }
                let line_no = r.line_no;
                let res = self.mark_confirmed(line_no);
                assert(res.is_ok());
                return Ok(line_no);
            }
            i += 1;
        }
        Err(StoreError::UnknownRow)
    }
}

} // verus!
