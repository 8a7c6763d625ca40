//! Cutting a ragged batch result into rows.
//!
//! A batch encoder returns one flat buffer of token ids and one length per
//! row. The rows are consecutive: row `i` starts where row `i - 1` ends. The
//! result is sound when there is one row per input, no length is negative, and
//! the lengths add up to the length of the buffer. Anything else is rejected
//! as a whole; nothing is clamped.

use vstd::prelude::*;

verus! {

/// The sum of all lengths.
pub open spec fn sum_lens(lens: Seq<i64>) -> int
    decreases lens.len(),
{
    if lens.len() == 0 {
        0
    } else {
        sum_lens(lens.drop_last()) + lens.last()
    }
}

/// Where row `row` starts in the flat buffer.
pub open spec fn row_start(lens: Seq<i64>, row: int) -> int {
    sum_lens(lens.take(row))
}

/// Whether the flat buffer splits into exactly `rows` rows.
pub open spec fn ragged_sound(rows: nat, ids: Seq<u32>, lens: Seq<i64>) -> bool {
    &&& lens.len() == rows
    &&& forall|i: int| 0 <= i < lens.len() ==> #[trigger] lens[i] >= 0
    &&& sum_lens(lens) == ids.len()
}

/// The rows of a sound ragged result.
pub open spec fn ragged_rows(ids: Seq<u32>, lens: Seq<i64>) -> Seq<Seq<u32>> {
    Seq::new(
        lens.len(),
        |row: int| ids.subrange(row_start(lens, row), row_start(lens, row) + lens[row]),
    )
}

/// The views of a vector of rows.
pub open spec fn row_views(rows: Seq<Vec<u32>>) -> Seq<Seq<u32>> {
    rows.map_values(|row: Vec<u32>| row@)
}

/// All rows but the last are cut from the front of the buffer; the last row is
/// the rest.
proof fn lemma_cut_front_and_last(ids: Seq<u32>, lens: Seq<i64>)
    requires
        ragged_sound(lens.len(), ids, lens),
        lens.len() > 0,
    ensures
        0 <= sum_lens(lens.drop_last()) <= ids.len(),
        ragged_sound(
            (lens.len() - 1) as nat,
            ids.take(sum_lens(lens.drop_last())),
            lens.drop_last(),
        ),
        ragged_rows(ids, lens) == ragged_rows(
            ids.take(sum_lens(lens.drop_last())),
            lens.drop_last(),
        ).push(ids.skip(sum_lens(lens.drop_last()))),
{
    let shorter = lens.drop_last();
    assert forall|i: int| 0 <= i < shorter.len() implies #[trigger] shorter[i] >= 0 by {
        assert(shorter[i] == lens[i]);
    }
    lemma_sum_nonnegative(shorter);
    assert(lens[lens.len() - 1] >= 0);
    let split = sum_lens(shorter);
    let front = ids.take(split);
    let cut = ragged_rows(ids, lens);
    let cut_front = ragged_rows(front, shorter);
    assert(lens.take(lens.len() - 1) =~= shorter);
    assert forall|i: int| 0 <= i < lens.len() implies cut[i] == cut_front.push(ids.skip(split))[i] by {
        if i < lens.len() - 1 {
            assert(lens.take(i) =~= shorter.take(i));
            assert(shorter[i] == lens[i]);
            lemma_row_in_buffer(shorter, i);
            assert(cut[i] =~= cut_front[i]);
        } else {
            assert(cut[i] =~= ids.skip(split));
        }
    }
    assert(cut =~= cut_front.push(ids.skip(split)));
}

/// A sound result is cut so that no token is lost, repeated or moved: the rows
/// in order are the flat buffer, and each has its length.
pub proof fn rows_concatenate_to_ids(rows: nat, ids: Seq<u32>, lens: Seq<i64>)
    requires
        ragged_sound(rows, ids, lens),
    ensures
        ragged_rows(ids, lens).flatten() == ids,
        ragged_rows(ids, lens).len() == rows,
        forall|i: int|
            0 <= i < rows ==> (#[trigger] ragged_rows(ids, lens)[i]).len() == lens[i],
    decreases rows,
{
    let cut = ragged_rows(ids, lens);
    if rows == 0 {
        assert(cut =~= Seq::empty());
        assert(cut.flatten() =~= ids);
    } else {
        let shorter = lens.drop_last();
        let split = sum_lens(shorter);
        lemma_cut_front_and_last(ids, lens);
        let cut_front = ragged_rows(ids.take(split), shorter);
        rows_concatenate_to_ids((rows - 1) as nat, ids.take(split), shorter);
        cut.lemma_flatten_and_flatten_alt_are_equivalent();
        cut_front.lemma_flatten_and_flatten_alt_are_equivalent();
        assert(cut.drop_last() =~= cut_front);
        assert(ids.take(split) + ids.skip(split) =~= ids);
        assert forall|i: int| 0 <= i < rows implies (#[trigger] cut[i]).len() == lens[i] by {
            if i < rows - 1 {
                assert(cut[i] == cut_front[i]);
                assert(shorter[i] == lens[i]);
            }
        }
    }
}

/// A batch encoder that appends each document's ids to the flat buffer and
/// notes how many there were returns a sound result, and cutting it gives back
/// what each document encodes to on its own.
pub proof fn faithful_batch_splits_into_singles(singles: Seq<Seq<u32>>, lens: Seq<i64>)
    requires
        lens.len() == singles.len(),
        forall|i: int| 0 <= i < lens.len() ==> #[trigger] lens[i] == singles[i].len(),
    ensures
        ragged_sound(singles.len(), singles.flatten(), lens),
        ragged_rows(singles.flatten(), lens) == singles,
    decreases singles.len(),
{
    let ids = singles.flatten();
    singles.lemma_flatten_and_flatten_alt_are_equivalent();
    if singles.len() == 0 {
        assert(ragged_rows(ids, lens) =~= singles);
    } else {
        let shorter = lens.drop_last();
        let front_singles = singles.drop_last();
        assert forall|i: int| 0 <= i < shorter.len() implies #[trigger] shorter[i]
            == front_singles[i].len() by {
            assert(shorter[i] == lens[i]);
        }
        faithful_batch_splits_into_singles(front_singles, shorter);
        front_singles.lemma_flatten_and_flatten_alt_are_equivalent();
        let front = front_singles.flatten();
        assert(ids == front + singles.last());
        assert(lens[lens.len() - 1] == singles.last().len());
        lemma_cut_front_and_last(ids, lens);
        assert(ids.take(sum_lens(shorter)) =~= front);
        assert(ids.skip(sum_lens(shorter)) =~= singles.last());
        assert(front_singles.push(singles.last()) =~= singles);
    }
}

/// A result is sound exactly where it was put together from rows: some rows, as
/// many as inputs and as long as the lengths say, are the flat buffer when they
/// are put one after the other.
pub proof fn sound_means_rows_exist(rows: nat, ids: Seq<u32>, lens: Seq<i64>)
    ensures
        ragged_sound(rows, ids, lens) <==> exists|parts: Seq<Seq<u32>>|
            {
                &&& #[trigger] parts.flatten() == ids
                &&& parts.len() == rows
                &&& lens.len() == rows
                &&& forall|i: int| 0 <= i < rows ==> #[trigger] lens[i] == parts[i].len()
            },
{
    if ragged_sound(rows, ids, lens) {
        rows_concatenate_to_ids(rows, ids, lens);
        let parts = ragged_rows(ids, lens);
        assert(parts.flatten() == ids);
        assert forall|i: int| 0 <= i < rows implies #[trigger] lens[i] == parts[i].len() by {
            assert(ragged_rows(ids, lens)[i].len() == lens[i]);
        }
    }
    if exists|parts: Seq<Seq<u32>>|
        {
            &&& #[trigger] parts.flatten() == ids
            &&& parts.len() == rows
            &&& lens.len() == rows
            &&& forall|i: int| 0 <= i < rows ==> #[trigger] lens[i] == parts[i].len()
        } {
        let parts = choose|parts: Seq<Seq<u32>>|
            {
                &&& #[trigger] parts.flatten() == ids
                &&& parts.len() == rows
                &&& lens.len() == rows
                &&& forall|i: int| 0 <= i < rows ==> #[trigger] lens[i] == parts[i].len()
            };
        faithful_batch_splits_into_singles(parts, lens);
    }
}

/// There is one way to cut a buffer by lengths, and it is what cutting gives:
/// any rows of those lengths that make up the buffer are the rows.
pub proof fn cutting_is_unique(ids: Seq<u32>, lens: Seq<i64>, parts: Seq<Seq<u32>>)
    requires
        parts.flatten() == ids,
        parts.len() == lens.len(),
        forall|i: int| 0 <= i < lens.len() ==> #[trigger] lens[i] == parts[i].len(),
    ensures
        ragged_rows(ids, lens) == parts,
{
    faithful_batch_splits_into_singles(parts, lens);
}

/// Non-negative lengths have a non-negative sum.
proof fn lemma_sum_nonnegative(lens: Seq<i64>)
    requires
        forall|i: int| 0 <= i < lens.len() ==> #[trigger] lens[i] >= 0,
    ensures
        sum_lens(lens) >= 0,
    decreases lens.len(),
{
    if lens.len() > 0 {
        let shorter = lens.drop_last();
        assert forall|i: int| 0 <= i < shorter.len() implies #[trigger] shorter[i] >= 0 by {
            assert(shorter[i] == lens[i]);
        }
        lemma_sum_nonnegative(shorter);
    }
}

/// Rows of non-negative length lie inside the first `sum_lens(lens)` ids.
proof fn lemma_row_in_buffer(lens: Seq<i64>, row: int)
    requires
        forall|i: int| 0 <= i < lens.len() ==> #[trigger] lens[i] >= 0,
        0 <= row < lens.len(),
    ensures
        0 <= row_start(lens, row),
        row_start(lens, row) + lens[row] == row_start(lens, row + 1),
        row_start(lens, row + 1) <= sum_lens(lens),
    decreases lens.len(),
{
    let shorter = lens.drop_last();
    assert forall|i: int| 0 <= i < shorter.len() implies #[trigger] shorter[i] >= 0 by {
        assert(shorter[i] == lens[i]);
    }
    lemma_sum_nonnegative(shorter);
    assert(lens.take(lens.len() as int) =~= lens);
    assert(lens.take(lens.len() - 1) =~= shorter);
    if row < lens.len() - 1 {
        lemma_row_in_buffer(shorter, row);
        assert(lens.take(row) =~= shorter.take(row));
        assert(lens.take(row + 1) =~= shorter.take(row + 1));
        assert(shorter[row] == lens[row]);
    }
}

/// Whether a ragged batch result splits into exactly `rows` rows.
pub fn is_sound(rows: usize, ids: &Vec<u32>, lens: &Vec<i64>) -> (sound: bool)
    ensures
        sound == ragged_sound(rows as nat, ids@, lens@),
        sound <==> exists|parts: Seq<Seq<u32>>|
            {
                &&& #[trigger] parts.flatten() == ids@
                &&& parts.len() == rows
                &&& lens@.len() == rows
                &&& forall|i: int| 0 <= i < rows ==> #[trigger] lens@[i] == parts[i].len()
            },
{
    proof {
        sound_means_rows_exist(rows as nat, ids@, lens@);
    }
    if lens.len() != rows {
        return false;
    }
    let mut total: usize = 0;
    let mut row: usize = 0;
    while row < rows
        invariant
            row <= rows,
            rows == lens@.len(),
            total <= ids@.len(),
            total == row_start(lens@, row as int),
            forall|i: int| 0 <= i < row ==> #[trigger] lens@[i] >= 0,
        decreases rows - row,
    {
        let len: i64 = lens[row];
        proof {
            sound_means_rows_exist(rows as nat, ids@, lens@);
            assert(lens@.take(row + 1).drop_last() =~= lens@.take(row as int));
            assert(lens@.take(row + 1).last() == len);
        }
        if len < 0 {
            return false;
        }
        let left: usize = ids.len() - total;
        if len as u64 > left as u64 {
            proof {
                if ragged_sound(rows as nat, ids@, lens@) {
                    lemma_row_in_buffer(lens@, row as int);
                }
            }
            return false;
        }
        total = total + len as usize;
        row = row + 1;
    }
    proof {
        assert(lens@.take(rows as int) =~= lens@);
    }
    total == ids.len()
}

/// Cuts a sound ragged batch result into its rows.
fn cut_rows(ids: &Vec<u32>, lens: &Vec<i64>) -> (cut: Vec<Vec<u32>>)
    requires
        ragged_sound(lens@.len(), ids@, lens@),
    ensures
        row_views(cut@) == ragged_rows(ids@, lens@),
{
    let rows: usize = lens.len();
    let mut out: Vec<Vec<u32>> = Vec::with_capacity(rows);
    let mut at: usize = 0;
    let mut row: usize = 0;
    while row < rows
        invariant
            row <= rows,
            rows == lens@.len(),
            ragged_sound(lens@.len(), ids@, lens@),
            at == row_start(lens@, row as int),
            out@.len() == row,
            forall|i: int| 0 <= i < row ==> (#[trigger] out@[i])@ == ragged_rows(ids@, lens@)[i],
        decreases rows - row,
    {
        proof {
            lemma_row_in_buffer(lens@, row as int);
        }
        let len: i64 = lens[row];
        assert(len >= 0 && at + len <= ids.len());
        let end: usize = at + len as usize;
        out.push(ids_between(ids, at, end));
        at = end;
        row = row + 1;
    }
    proof {
        assert(row_views(out@) =~= ragged_rows(ids@, lens@));
    }
    out
}

/// Cuts a ragged batch result into its rows, one per input. Returns `None`
/// exactly where the result is not sound.
pub fn split_ragged(rows: usize, ids: &Vec<u32>, lens: &Vec<i64>) -> (split: Option<Vec<Vec<u32>>>)
    ensures
        split is Some <==> ragged_sound(rows as nat, ids@, lens@),
        split matches Some(cut) ==> row_views(cut@) == ragged_rows(ids@, lens@),
        split matches Some(cut) ==> {
            &&& Seq::new(cut@.len(), |i: int| cut@[i]@).flatten() == ids@
            &&& cut@.len() == rows
            &&& lens@.len() == rows
            &&& forall|i: int| 0 <= i < rows ==> #[trigger] lens@[i] == cut@[i]@.len()
        },
        split is None ==> !exists|parts: Seq<Seq<u32>>|
            {
                &&& #[trigger] parts.flatten() == ids@
                &&& parts.len() == rows
                &&& lens@.len() == rows
                &&& forall|i: int| 0 <= i < rows ==> #[trigger] lens@[i] == parts[i].len()
            },
{
    proof {
        sound_means_rows_exist(rows as nat, ids@, lens@);
    }
    if is_sound(rows, ids, lens) {
        let cut = cut_rows(ids, lens);
        proof {
            rows_concatenate_to_ids(rows as nat, ids@, lens@);
            assert(Seq::new(cut@.len(), |i: int| cut@[i]@) =~= row_views(cut@));
            assert forall|i: int| 0 <= i < rows implies #[trigger] lens@[i] == cut@[i]@.len() by {
                assert(row_views(cut@)[i] == cut@[i]@);
                assert(ragged_rows(ids@, lens@)[i].len() == lens@[i]);
            }
        }
        Some(cut)
    } else {
        None
    }
}

/// A copy of the ids from `from` up to, but not including, `to`.
fn ids_between(ids: &Vec<u32>, from: usize, to: usize) -> (copy: Vec<u32>)
    requires
        from <= to <= ids@.len(),
    ensures
        copy@ == ids@.subrange(from as int, to as int),
{
    let mut copy: Vec<u32> = Vec::with_capacity(to - from);
    let mut i: usize = from;
    while i < to
        invariant
            from <= i <= to <= ids@.len(),
            copy@ =~= ids@.subrange(from as int, i as int),
        decreases to - i,
    {
        copy.push(ids[i]);
        i = i + 1;
    }
    copy
}

} // verus!
