//! Selecting rows of the outputs table, and what selections and sums of them mean.
use crate::db::tables::{output_records, OutputRecord, OutputRow};
use vstd::prelude::*;

verus! {

/// The rows that pass, in the order of the table, after one more row has been looked at.
pub(crate) proof fn lemma_filter_next<A>(s: Seq<A>, p: spec_fn(A) -> bool, i: int)
    requires
        0 <= i < s.len(),
    ensures
        s.take(i + 1).filter(p) == if p(s[i]) {
            s.take(i).filter(p).push(s[i])
        } else {
            s.take(i).filter(p)
        },
{
    reveal(Seq::filter);
    assert(s.take(i + 1).drop_last() =~= s.take(i));
    assert(s.take(i + 1).last() == s[i]);
}

/// What the rows at the given places say.
pub open spec fn rows_at(rows: Seq<OutputRow>, places: Seq<usize>) -> Seq<OutputRecord> {
    places.map_values(|i: usize| rows[i as int]@)
}

/// Finds the rows that pass a test: their places in the table, in order.
pub(crate) fn select_rows<P: Fn(&OutputRow) -> bool>(
    rows: &Vec<OutputRow>,
    test: P,
    Ghost(p): Ghost<spec_fn(OutputRecord) -> bool>,
) -> (found: Vec<usize>)
    requires
        forall|r: &OutputRow| #[trigger] call_requires(test, (r,)),
        forall|r: &OutputRow, b: bool| #[trigger] call_ensures(test, (r,), b) ==> b == p(r@),
    ensures
        forall|k: int| 0 <= k < found@.len() ==> (#[trigger] found@[k]) < rows@.len(),
        forall|k: int, l: int|
            0 <= k < l < found@.len() ==> (#[trigger] found@[k]) < (#[trigger] found@[l]),
        rows_at(rows@, found@) == output_records(rows@).filter(p),
{
    let mut found: Vec<usize> = Vec::new();
    let ghost records = output_records(rows@);
    proof {
        reveal(Seq::filter);
        assert(records.take(0).filter(p) =~= Seq::empty());
        assert(rows_at(rows@, found@) =~= Seq::empty());
    }
    let mut i: usize = 0;
    while i < rows.len()
        invariant
            i <= rows@.len(),
            records == output_records(rows@),
            forall|r: &OutputRow| #[trigger] call_requires(test, (r,)),
            forall|r: &OutputRow, b: bool| #[trigger] call_ensures(test, (r,), b) ==> b == p(r@),
            forall|k: int| 0 <= k < found@.len() ==> (#[trigger] found@[k]) < i,
            forall|k: int, l: int|
                0 <= k < l < found@.len() ==> (#[trigger] found@[k]) < (#[trigger] found@[l]),
            rows_at(rows@, found@) == records.take(i as int).filter(p),
        decreases rows.len() - i,
    {
        let ghost before = found@;
        proof {
            lemma_filter_next(records, p, i as int);
        }
        if test(&rows[i]) {
            found.push(i);
            assert(rows_at(rows@, found@) =~= rows_at(rows@, before).push(rows@[i as int]@));
        }
        i = i + 1;
    }
    assert(records.take(i as int) =~= records);
    found
}

/// A change that is made to rows of the outputs table.
pub(crate) trait RowUpdate: Sized {
    /// The row after the change.
    spec fn updated(&self, r: OutputRecord) -> OutputRecord;

    fn apply(&self, row: &mut OutputRow)
        ensures
            final(row)@ == self.updated(old(row)@),
    ;
}

/// Makes a change to every row of the table.
pub(crate) fn update_rows<U: RowUpdate>(rows: &mut Vec<OutputRow>, update: &U)
    ensures
        output_records(final(rows)@) == output_records(old(rows)@).map_values(
            |r: OutputRecord| update.updated(r),
        ),
{
    let ghost start = output_records(rows@);
    let mut i: usize = 0;
    while i < rows.len()
        invariant
            i <= rows@.len(),
            rows@.len() == start.len(),
            forall|k: int| 0 <= k < i ==> (#[trigger] rows@[k])@ == update.updated(start[k]),
            forall|k: int| i <= k < start.len() ==> (#[trigger] rows@[k])@ == start[k],
        decreases rows.len() - i,
    {
        let ghost before = rows@;
        update.apply(&mut rows[i]);
        assert(rows@ == before.update(i as int, rows@[i as int]));
        i = i + 1;
    }
    assert(output_records(rows@) =~= start.map_values(|r: OutputRecord| update.updated(r)));
}

/// The sum of the values of some rows.
pub open spec fn value_sum(rows: Seq<OutputRecord>) -> int
    decreases rows.len(),
{
    if rows.len() == 0 {
        0
    } else {
        value_sum(rows.drop_last()) + rows.last().value
    }
}

/// Whether the sum of the values, taken row by row, stays in the range of the column type.
pub open spec fn sum_fits(rows: Seq<OutputRecord>) -> bool {
    forall|k: int|
        0 <= k <= rows.len() ==> i64::MIN <= #[trigger] value_sum(rows.take(k)) <= i64::MAX
}

/// Adds up the values of the rows at the given places; `None` where a running sum overflows.
pub(crate) fn sum_values(rows: &Vec<OutputRow>, found: &Vec<usize>) -> (r: Option<i64>)
    requires
        forall|k: int| 0 <= k < found@.len() ==> (#[trigger] found@[k]) < rows@.len(),
    ensures
        match r {
            Some(sum) => sum_fits(rows_at(rows@, found@)) && sum == value_sum(
                rows_at(rows@, found@),
            ),
            None => !sum_fits(rows_at(rows@, found@)),
        },
{
    let ghost picked = rows_at(rows@, found@);
    let mut sum: i64 = 0;
    let mut k: usize = 0;
    assert(picked.take(0) =~= Seq::empty());
    while k < found.len()
        invariant
            k <= found@.len(),
            picked == rows_at(rows@, found@),
            forall|k: int| 0 <= k < found@.len() ==> (#[trigger] found@[k]) < rows@.len(),
            sum == value_sum(picked.take(k as int)),
            forall|l: int|
                0 <= l <= k ==> i64::MIN <= #[trigger] value_sum(picked.take(l)) <= i64::MAX,
        decreases found.len() - k,
    {
        assert(picked.take(k + 1).drop_last() =~= picked.take(k as int));
        assert(picked.take(k + 1).last() == picked[k as int]);
        match sum.checked_add(rows[found[k]].value) {
            Some(next) => {
                sum = next;
            },
            None => {
                assert(!(i64::MIN <= value_sum(picked.take(k + 1)) <= i64::MAX));
                return None;
            },
        }
        k = k + 1;
    }
    assert(picked.take(k as int) =~= picked);
    Some(sum)
}

/// Rows in falling order of value, with one more row put in behind those of its own value.
pub open spec fn insert_by_value(rows: Seq<OutputRecord>, r: OutputRecord) -> Seq<OutputRecord>
    decreases rows.len(),
{
    if rows.len() == 0 || rows.last().value >= r.value {
        rows.push(r)
    } else {
        insert_by_value(rows.drop_last(), r).push(rows.last())
    }
}

/// Some rows in falling order of value; rows of one value keep their order.
pub open spec fn by_value_descending(rows: Seq<OutputRecord>) -> Seq<OutputRecord>
    decreases rows.len(),
{
    if rows.len() == 0 {
        rows
    } else {
        insert_by_value(by_value_descending(rows.drop_last()), rows.last())
    }
}

proof fn lemma_insert_place(rows: Seq<OutputRecord>, r: OutputRecord, place: int)
    requires
        0 <= place <= rows.len(),
        place == 0 || rows[place - 1].value >= r.value,
        forall|j: int| place <= j < rows.len() ==> (#[trigger] rows[j]).value < r.value,
    ensures
        insert_by_value(rows, r) == rows.insert(place, r),
    decreases rows.len(),
{
    if rows.len() == 0 || rows.last().value >= r.value {
        assert(place == rows.len());
        assert(rows.insert(place, r) =~= rows.push(r));
    } else {
        assert(place < rows.len());
        lemma_insert_place(rows.drop_last(), r, place);
        assert(rows.insert(place, r) =~= rows.drop_last().insert(place, r).push(rows.last()));
    }
}

/// Puts places of rows in falling order of the rows' values.
pub(crate) fn order_by_value(rows: &Vec<OutputRow>, found: &Vec<usize>) -> (sorted: Vec<usize>)
    requires
        forall|k: int| 0 <= k < found@.len() ==> (#[trigger] found@[k]) < rows@.len(),
    ensures
        forall|k: int| 0 <= k < sorted@.len() ==> (#[trigger] sorted@[k]) < rows@.len(),
        rows_at(rows@, sorted@) == by_value_descending(rows_at(rows@, found@)),
{
    let ghost picked = rows_at(rows@, found@);
    let mut sorted: Vec<usize> = Vec::new();
    let mut k: usize = 0;
    assert(picked.take(0) =~= Seq::empty());
    assert(rows_at(rows@, sorted@) =~= Seq::empty());
    while k < found.len()
        invariant
            k <= found@.len(),
            picked == rows_at(rows@, found@),
            forall|k: int| 0 <= k < found@.len() ==> (#[trigger] found@[k]) < rows@.len(),
            forall|k: int| 0 <= k < sorted@.len() ==> (#[trigger] sorted@[k]) < rows@.len(),
            rows_at(rows@, sorted@) == by_value_descending(picked.take(k as int)),
        decreases found.len() - k,
    {
        let value: i64 = rows[found[k]].value;
        let mut place: usize = sorted.len();
        while place > 0 && rows[sorted[place - 1]].value < value
            invariant
                place <= sorted@.len(),
                forall|k: int| 0 <= k < sorted@.len() ==> (#[trigger] sorted@[k]) < rows@.len(),
                forall|j: int|
                    place <= j < sorted@.len() ==> (#[trigger] rows_at(rows@, sorted@)[j]).value
                        < value,
            decreases place,
        {
            place = place - 1;
        }
        proof {
            let before = rows_at(rows@, sorted@);
            assert(place > 0 ==> before[place - 1] == rows@[sorted@[place - 1] as int]@);
            lemma_insert_place(before, picked[k as int], place as int);
            assert(picked.take(k + 1).drop_last() =~= picked.take(k as int));
            assert(picked.take(k + 1).last() == picked[k as int]);
            assert(rows_at(rows@, sorted@.insert(place as int, found@[k as int])) =~= before.insert(
                place as int,
                picked[k as int],
            ));
        }
        sorted.insert(place, found[k]);
        k = k + 1;
    }
    assert(picked.take(k as int) =~= picked);
    sorted
}

} // verus!
