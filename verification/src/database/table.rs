//! Tables as ordered lists of rows, and the few operations the store needs
//! on them.

use vstd::prelude::*;

use crate::database::rows::{
    keys_unique, lemma_index_of_key, put_row, with_key, AttachmentRow, CacheRow,
    ConversationRow, Keyed, MessageRow, QueueAttachmentRow, QueueRow,
};

verus! {

/// A row that can be copied into another table value.
pub(crate) trait StoredRow: DeepView + Sized {
    /// A copy that holds the same values.
    fn copy(&self) -> (copy: Self)
        ensures
            copy.deep_view() == self.deep_view(),
    ;
}

impl StoredRow for ConversationRow {
    fn copy(&self) -> (copy: ConversationRow) {
        self.clone()
    }
}

impl StoredRow for MessageRow {
    fn copy(&self) -> (copy: MessageRow) {
        self.clone()
    }
}

impl StoredRow for AttachmentRow {
    fn copy(&self) -> (copy: AttachmentRow) {
        self.clone()
    }
}

impl StoredRow for QueueRow {
    fn copy(&self) -> (copy: QueueRow) {
        self.clone()
    }
}

impl StoredRow for QueueAttachmentRow {
    fn copy(&self) -> (copy: QueueAttachmentRow) {
        self.clone()
    }
}

impl StoredRow for CacheRow {
    fn copy(&self) -> (copy: CacheRow) {
        self.clone()
    }
}

/// Filtering one row more: the row is appended where it is wanted.
pub proof fn lemma_filter_step<A>(rows: Seq<A>, wanted: spec_fn(A) -> bool, i: int)
    requires
        0 <= i < rows.len(),
    ensures
        rows.take(i + 1).filter(wanted) == if wanted(rows[i]) {
            rows.take(i).filter(wanted).push(rows[i])
        } else {
            rows.take(i).filter(wanted)
        },
{
    reveal(Seq::filter);
    assert(rows.take(i + 1).drop_last() =~= rows.take(i));
}

/// Every row that a filter keeps is a row of the list it was taken from.
pub proof fn lemma_filter_keeps_rows<A>(rows: Seq<A>, wanted: spec_fn(A) -> bool)
    ensures
        forall|i: int|
            0 <= i < rows.filter(wanted).len() ==> rows.contains(
                #[trigger] rows.filter(wanted)[i],
            ) && wanted(rows.filter(wanted)[i]),
{
    let kept = rows.filter(wanted);
    assert forall|i: int| 0 <= i < kept.len() implies rows.contains(#[trigger] kept[i])
        && wanted(kept[i]) by {
        assert(kept.contains(kept[i]));
        rows.lemma_filter_contains_rev(wanted, kept[i]);
        rows.lemma_filter_pred(wanted, i);
    }
}

/// A filter that every row passes keeps the list as it is.
pub proof fn lemma_filter_all<A>(rows: Seq<A>, wanted: spec_fn(A) -> bool)
    requires
        forall|i: int| 0 <= i < rows.len() ==> wanted(#[trigger] rows[i]),
    ensures
        rows.filter(wanted) == rows,
    decreases rows.len(),
{
    reveal(Seq::filter);
    if rows.len() > 0 {
        let front = rows.drop_last();
        assert forall|i: int| 0 <= i < front.len() implies wanted(#[trigger] front[i]) by {
            assert(front[i] == rows[i]);
        }
        lemma_filter_all(front, wanted);
        assert(wanted(rows[rows.len() - 1]));
        assert(front.push(rows.last()) =~= rows);
    }
}

/// A filter that no row passes keeps nothing.
pub proof fn lemma_filter_none<A>(rows: Seq<A>, wanted: spec_fn(A) -> bool)
    requires
        forall|i: int| 0 <= i < rows.len() ==> !wanted(#[trigger] rows[i]),
    ensures
        rows.filter(wanted) == Seq::<A>::empty(),
    decreases rows.len(),
{
    reveal(Seq::filter);
    if rows.len() > 0 {
        let front = rows.drop_last();
        assert forall|i: int| 0 <= i < front.len() implies !wanted(#[trigger] front[i]) by {
            assert(front[i] == rows[i]);
        }
        lemma_filter_none(front, wanted);
        assert(!wanted(rows[rows.len() - 1]));
    } else {
        assert(rows =~= Seq::<A>::empty());
    }
}

/// A filter and its opposite share the rows between them.
pub proof fn lemma_filter_partition<A>(
    rows: Seq<A>,
    wanted: spec_fn(A) -> bool,
    unwanted: spec_fn(A) -> bool,
)
    requires
        forall|i: int| 0 <= i < rows.len() ==> wanted(#[trigger] rows[i]) != unwanted(rows[i]),
    ensures
        rows.filter(wanted).len() + rows.filter(unwanted).len() == rows.len(),
    decreases rows.len(),
{
    reveal(Seq::filter);
    if rows.len() > 0 {
        let front = rows.drop_last();
        assert forall|i: int| 0 <= i < front.len() implies wanted(#[trigger] front[i])
            != unwanted(front[i]) by {
            assert(front[i] == rows[i]);
        }
        lemma_filter_partition(front, wanted, unwanted);
        assert(wanted(rows[rows.len() - 1]) != unwanted(rows[rows.len() - 1]));
    }
}

/// The rows that `wanted` accepts, in their order.
pub(crate) fn keep_rows<R: StoredRow, F: Fn(&R) -> bool>(
    rows: &Vec<R>,
    wanted: F,
    Ghost(accepts): Ghost<spec_fn(R::V) -> bool>,
) -> (kept: Vec<R>)
    requires
        forall|row: &R| wanted.requires((row,)),
        forall|row: &R, verdict: bool|
            wanted.ensures((row,), verdict) ==> verdict == accepts(row.deep_view()),
    ensures
        kept.deep_view() == rows.deep_view().filter(accepts),
{
    let mut kept: Vec<R> = Vec::new();
    let mut i: usize = 0;
    proof {
        reveal(Seq::filter);
        assert(rows.deep_view().take(0).filter(accepts) =~= kept.deep_view());
    }
    while i < rows.len()
        invariant
            i <= rows.len(),
            kept.deep_view() == rows.deep_view().take(i as int).filter(accepts),
            forall|row: &R| wanted.requires((row,)),
            forall|row: &R, verdict: bool|
                wanted.ensures((row,), verdict) ==> verdict == accepts(row.deep_view()),
        decreases rows.len() - i,
    {
        let ghost before = kept.deep_view();
        proof {
            lemma_filter_step(rows.deep_view(), accepts, i as int);
        }
        if wanted(&rows[i]) {
            kept.push(rows[i].copy());
            assert(kept.deep_view() =~= before.push(rows[i as int].deep_view()));
        }
        i += 1;
    }
    assert(rows.deep_view().take(rows.len() as int) =~= rows.deep_view());
    kept
}

/// A copy of a table.
pub(crate) fn copy_rows<R: StoredRow>(rows: &Vec<R>) -> (copy: Vec<R>)
    ensures
        copy.deep_view() == rows.deep_view(),
{
    let mut copy: Vec<R> = Vec::new();
    let mut i: usize = 0;
    while i < rows.len()
        invariant
            i <= rows.len(),
            copy.len() == i,
            forall|k: int| 0 <= k < i ==> copy[k].deep_view() == rows[k].deep_view(),
        decreases rows.len() - i,
    {
        copy.push(rows[i].copy());
        i += 1;
    }
    assert(copy.deep_view() =~= rows.deep_view());
    copy
}

/// The first place at which a row meets `sought`, if any does.
pub(crate) fn find_row<R: DeepView, F: Fn(&R) -> bool>(
    rows: &Vec<R>,
    sought: F,
    Ghost(meets): Ghost<spec_fn(R::V) -> bool>,
) -> (found: Option<usize>)
    requires
        forall|row: &R| sought.requires((row,)),
        forall|row: &R, verdict: bool|
            sought.ensures((row,), verdict) ==> verdict == meets(row.deep_view()),
    ensures
        match found {
            Some(i) => i < rows.len() && meets(rows.deep_view()[i as int]) && forall|k: int|
                0 <= k < i ==> !meets(#[trigger] rows.deep_view()[k]),
            None => forall|k: int| 0 <= k < rows.len() ==> !meets(#[trigger] rows.deep_view()[k]),
        },
{
    let mut i: usize = 0;
    while i < rows.len()
        invariant
            i <= rows.len(),
            forall|k: int| 0 <= k < i ==> !meets(#[trigger] rows.deep_view()[k]),
            forall|row: &R| sought.requires((row,)),
            forall|row: &R, verdict: bool|
                sought.ensures((row,), verdict) ==> verdict == meets(row.deep_view()),
        decreases rows.len() - i,
    {
        if sought(&rows[i]) {
            return Some(i);
        }
        i += 1;
    }
    None
}

/// Puts a row into a table as it is. `at` is the place of the row with the
/// same key, or `None` where no row has that key: the row replaces the one
/// at that place, or is appended.
pub(crate) fn store_at<R: DeepView>(table: &mut Vec<R>, at: Option<usize>, row: R) where R::V: Keyed
    requires
        keys_unique(old(table).deep_view()),
        match at {
            Some(i) => i < old(table).len() && old(table).deep_view()[i as int].key()
                == row.deep_view().key(),
            None => forall|k: int|
                0 <= k < old(table).len() ==> !with_key::<R::V>(row.deep_view().key())(
                    #[trigger] old(table).deep_view()[k],
                ),
        },
    ensures
        final(table).deep_view() == put_row(old(table).deep_view(), row.deep_view()),
        keys_unique(final(table).deep_view()),
{
    let ghost before = table.deep_view();
    let ghost key = row.deep_view().key();
    let ghost written = row.deep_view();
    match at {
        Some(i) => {
            proof {
                lemma_index_of_key(before, key, i as int);
            }
            table.set(i, row);
            assert(table.deep_view() =~= put_row(before, written));
            assert forall|a: int, b: int|
                0 <= a < table.len() && 0 <= b < table.len() && #[trigger] table.deep_view()[a].key()
                    == #[trigger] table.deep_view()[b].key() implies a == b by {
                assert(table.deep_view()[a].key() == before[a].key());
                assert(table.deep_view()[b].key() == before[b].key());
            }
        },
        None => {
            table.push(row);
            assert(table.deep_view() =~= put_row(before, written));
            assert forall|a: int, b: int|
                0 <= a < table.len() && 0 <= b < table.len() && #[trigger] table.deep_view()[a].key()
                    == #[trigger] table.deep_view()[b].key() implies a == b by {
                if a < before.len() {
                    assert(!with_key::<R::V>(key)(before[a]));
                }
                if b < before.len() {
                    assert(!with_key::<R::V>(key)(before[b]));
                }
            }
        },
    }
}

} // verus!
