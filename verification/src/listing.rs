//! The list of tray items, and its order.

use vstd::prelude::*;

use crate::text::{
    lemma_text_le_total, lemma_text_le_transitive, opt_text, text_at_most, text_le,
};

verus! {

/// What a row of the list holds.
#[verifier::ext_equal]
pub struct RowModel {
    pub title: Seq<char>,
    pub address: Seq<char>,
    pub icon: Option<Seq<char>>,
}

/// What a title, an address and an icon say.
pub open spec fn row_model(row: (String, String, Option<String>)) -> RowModel {
    RowModel { title: row.0@, address: row.1@, icon: opt_text(row.2) }
}

/// What a list of rows holds.
pub open spec fn row_models(v: Seq<(String, String, Option<String>)>) -> Seq<RowModel> {
    Seq::new(v.len(), |i: int| row_model(v[i]))
}

/// `rows` with `row` after the last of them whose title is not above its own.
pub open spec fn with_row(rows: Seq<RowModel>, row: RowModel) -> Seq<RowModel>
    decreases rows.len(),
{
    if rows.len() == 0 || text_le(rows.last().title, row.title) {
        rows.push(row)
    } else {
        with_row(rows.drop_last(), row).push(rows.last())
    }
}

/// `rows` in the order of their titles.
pub open spec fn by_title(rows: Seq<RowModel>) -> Seq<RowModel>
    decreases rows.len(),
{
    if rows.len() == 0 {
        rows
    } else {
        with_row(by_title(rows.drop_last()), rows.last())
    }
}

/// Whether the titles of `rows` are in order.
pub open spec fn in_order(rows: Seq<RowModel>) -> bool {
    forall|i: int, j: int|
        0 <= i <= j < rows.len() ==> text_le(#[trigger] rows[i].title, #[trigger] rows[j].title)
}

/// The rows with this title, in the order in which they stand.
pub open spec fn titled(rows: Seq<RowModel>, title: Seq<char>) -> Seq<RowModel> {
    rows.filter(|row: RowModel| row.title == title)
}

proof fn lemma_titled_push(rows: Seq<RowModel>, row: RowModel, title: Seq<char>)
    ensures
        titled(rows.push(row), title) == if row.title == title {
            titled(rows, title).push(row)
        } else {
            titled(rows, title)
        },
{
    reveal(Seq::filter);
    assert(rows.push(row).drop_last() == rows);
}

proof fn lemma_with_row(rows: Seq<RowModel>, row: RowModel, title: Seq<char>)
    ensures
        titled(with_row(rows, row), title) == if row.title == title {
            titled(rows, title).push(row)
        } else {
            titled(rows, title)
        },
        with_row(rows, row).len() == rows.len() + 1,
    decreases rows.len(),
{
    if rows.len() == 0 || text_le(rows.last().title, row.title) {
        lemma_titled_push(rows, row, title);
    } else {
        let head = rows.drop_last();
        let last = rows.last();
        lemma_with_row(head, row, title);
        assert(head.push(last) == rows);
        lemma_titled_push(head, last, title);
        lemma_titled_push(with_row(head, row), last, title);
        lemma_text_le_total(row.title, row.title);
    }
}

/// What stands in `with_row(rows, row)` stands in `rows` or is `row`.
proof fn lemma_with_row_elements(rows: Seq<RowModel>, row: RowModel)
    ensures
        with_row(rows, row).len() == rows.len() + 1,
        forall|i: int|
            0 <= i < with_row(rows, row).len() ==> (#[trigger] with_row(rows, row)[i]) == row
                || rows.contains(with_row(rows, row)[i]),
    decreases rows.len(),
{
    if rows.len() == 0 || text_le(rows.last().title, row.title) {
        assert forall|i: int| 0 <= i < with_row(rows, row).len() implies (#[trigger] with_row(
            rows,
            row,
        )[i]) == row || rows.contains(with_row(rows, row)[i]) by {
            if i < rows.len() {
                assert(with_row(rows, row)[i] == rows[i]);
            }
        }
    } else {
        let head = rows.drop_last();
        lemma_with_row_elements(head, row);
        assert forall|i: int| 0 <= i < with_row(rows, row).len() implies (#[trigger] with_row(
            rows,
            row,
        )[i]) == row || rows.contains(with_row(rows, row)[i]) by {
            if i < with_row(head, row).len() {
                let x = with_row(head, row)[i];
                assert(with_row(rows, row)[i] == x);
                if x != row {
                    let k = choose|k: int| 0 <= k < head.len() && head[k] == x;
                    assert(rows[k] == x);
                }
            } else {
                assert(with_row(rows, row)[i] == rows[rows.len() - 1]);
            }
        }
    }
}

proof fn lemma_with_row_in_order(rows: Seq<RowModel>, row: RowModel)
    requires
        in_order(rows),
    ensures
        in_order(with_row(rows, row)),
    decreases rows.len(),
{
    let all = with_row(rows, row);
    lemma_text_le_total(row.title, row.title);
    if rows.len() == 0 {
    } else if text_le(rows.last().title, row.title) {
        assert forall|i: int, j: int| 0 <= i <= j < all.len() implies text_le(
            #[trigger] all[i].title,
            #[trigger] all[j].title,
        ) by {
            if j < rows.len() {
                assert(text_le(rows[i].title, rows[j].title));
            } else if i < rows.len() {
                assert(text_le(rows[i].title, rows[rows.len() - 1].title));
                lemma_text_le_transitive(rows[i].title, rows.last().title, row.title);
            }
        }
    } else {
        let head = rows.drop_last();
        let last = rows.last();
        assert(in_order(head)) by {
            assert forall|i: int, j: int| 0 <= i <= j < head.len() implies text_le(
                #[trigger] head[i].title,
                #[trigger] head[j].title,
            ) by {
                assert(text_le(rows[i].title, rows[j].title));
            }
        }
        lemma_with_row_in_order(head, row);
        lemma_with_row_elements(head, row);
        lemma_text_le_total(row.title, last.title);
        lemma_text_le_total(last.title, last.title);
        let rest = with_row(head, row);
        assert forall|i: int, j: int| 0 <= i <= j < all.len() implies text_le(
            #[trigger] all[i].title,
            #[trigger] all[j].title,
        ) by {
            if j < rest.len() {
                assert(text_le(rest[i].title, rest[j].title));
            } else if i < rest.len() {
                let x = rest[i];
                if x != row {
                    let k = choose|k: int| 0 <= k < head.len() && head[k] == x;
                    assert(text_le(rows[k].title, rows[rows.len() - 1].title));
                }
            }
        }
    }
}

/// Sorting puts the titles in order, and leaves the rows of one title in the
/// order in which they stood.
pub proof fn sorting_is_stable(rows: Seq<RowModel>, title: Seq<char>)
    ensures
        in_order(by_title(rows)),
        titled(by_title(rows), title) == titled(rows, title),
    decreases rows.len(),
{
    if rows.len() > 0 {
        let head = rows.drop_last();
        let last = rows.last();
        sorting_is_stable(head, title);
        lemma_with_row(by_title(head), last, title);
        lemma_with_row_in_order(by_title(head), last);
        lemma_titled_push(head, last, title);
        assert(head.push(last) == rows);
    }
}

proof fn lemma_with_row_multiset(rows: Seq<RowModel>, row: RowModel)
    ensures
        with_row(rows, row).to_multiset() == rows.to_multiset().insert(row),
    decreases rows.len(),
{
    broadcast use vstd::seq_lib::group_to_multiset_ensures;

    if rows.len() == 0 || text_le(rows.last().title, row.title) {
    } else {
        let head = rows.drop_last();
        lemma_with_row_multiset(head, row);
        assert(head.push(rows.last()) == rows);
        assert(head.to_multiset().insert(row).insert(rows.last()) == head.to_multiset().insert(
            rows.last(),
        ).insert(row));
    }
}

/// Sorting neither drops nor adds a row.
pub proof fn sorting_keeps_every_row(rows: Seq<RowModel>)
    ensures
        by_title(rows).to_multiset() == rows.to_multiset(),
        forall|i: int| 0 <= i < by_title(rows).len() ==> rows.contains(#[trigger] by_title(rows)[i]),
    decreases rows.len(),
{
    broadcast use vstd::seq_lib::group_to_multiset_ensures;

    if rows.len() > 0 {
        let head = rows.drop_last();
        sorting_keeps_every_row(head);
        lemma_with_row_multiset(by_title(head), rows.last());
        assert(head.push(rows.last()) == rows);
    }
    let sorted = by_title(rows);
    assert forall|i: int| 0 <= i < sorted.len() implies rows.contains(#[trigger] sorted[i]) by {
        assert(sorted.contains(sorted[i]));
        assert(sorted.to_multiset().count(sorted[i]) > 0);
    }
}

/// Rows that are in order stay where they are.
pub proof fn sorting_keeps_what_is_in_order(rows: Seq<RowModel>)
    requires
        in_order(rows),
    ensures
        by_title(rows) == rows,
    decreases rows.len(),
{
    if rows.len() > 0 {
        let head = rows.drop_last();
        assert forall|i: int, j: int| 0 <= i <= j < head.len() implies text_le(
            #[trigger] head[i].title,
            #[trigger] head[j].title,
        ) by {
            assert(text_le(rows[i].title, rows[j].title));
        }
        sorting_keeps_what_is_in_order(head);
        if head.len() > 0 {
            assert(text_le(rows[head.len() - 1].title, rows[rows.len() - 1].title));
        }
        assert(head.push(rows.last()) == rows);
    }
}

/// Whether two lists have the same titles and addresses in the same order.
pub open spec fn same_names(a: Seq<RowModel>, b: Seq<RowModel>) -> bool {
    &&& a.len() == b.len()
    &&& forall|i: int|
        0 <= i < a.len() ==> (#[trigger] a[i]).title == b[i].title && a[i].address == b[i].address
}

proof fn lemma_with_row_same_names(
    a: Seq<RowModel>,
    b: Seq<RowModel>,
    row_a: RowModel,
    row_b: RowModel,
)
    requires
        same_names(a, b),
        row_a.title == row_b.title,
        row_a.address == row_b.address,
    ensures
        same_names(with_row(a, row_a), with_row(b, row_b)),
    decreases a.len(),
{
    if a.len() > 0 {
        assert(a[a.len() - 1].title == b[a.len() - 1].title);
        if !text_le(a.last().title, row_a.title) {
            lemma_with_row_same_names(a.drop_last(), b.drop_last(), row_a, row_b);
        }
    }
}

/// The order of the list goes by the titles alone: lists that differ in their
/// icons only still do so once they are sorted.
pub proof fn sorting_goes_by_titles(a: Seq<RowModel>, b: Seq<RowModel>)
    requires
        same_names(a, b),
    ensures
        same_names(by_title(a), by_title(b)),
    decreases a.len(),
{
    if a.len() > 0 {
        sorting_goes_by_titles(a.drop_last(), b.drop_last());
        assert(a[a.len() - 1].title == b[a.len() - 1].title);
        lemma_with_row_same_names(
            by_title(a.drop_last()),
            by_title(b.drop_last()),
            a.last(),
            b.last(),
        );
    }
}

proof fn lemma_with_row_at(rows: Seq<RowModel>, row: RowModel, k: int)
    requires
        0 <= k <= rows.len(),
        forall|j: int| k <= j < rows.len() ==> !text_le(#[trigger] rows[j].title, row.title),
        k > 0 ==> text_le(rows[k - 1].title, row.title),
    ensures
        with_row(rows, row) == rows.insert(k, row),
    decreases rows.len(),
{
    if k == rows.len() {
        assert(rows.insert(k, row) == rows.push(row));
    } else {
        let head = rows.drop_last();
        assert(!text_le(rows[rows.len() - 1].title, row.title));
        assert forall|j: int| k <= j < head.len() implies !text_le(
            #[trigger] head[j].title,
            row.title,
        ) by {
            assert(head[j] == rows[j]);
        }
        lemma_with_row_at(head, row, k);
        assert(head.insert(k, row).push(rows.last()) == rows.insert(k, row));
    }
}

/// Puts `row` after the last of the rows whose title is not above its own.
fn insert_by_title(
    rows: &mut Vec<(String, String, Option<String>)>,
    row: (String, String, Option<String>),
)
    ensures
        row_models(final(rows)@) == with_row(row_models(old(rows)@), row_model(row)),
{
    let ghost models = row_models(rows@);
    let mut k: usize = rows.len();
    while k > 0 && !text_at_most(rows[k - 1].0.as_str(), row.0.as_str())
        invariant
            k <= rows@.len(),
            rows@ == old(rows)@,
            models == row_models(rows@),
            forall|j: int|
                k <= j < models.len() ==> !text_le(#[trigger] models[j].title, row.0@),
        decreases k,
    {
        k -= 1;
    }
    proof {
        if k > 0 {
            assert(models[k - 1].title == rows@[k - 1].0@);
        }
        lemma_with_row_at(models, row_model(row), k as int);
    }
    rows.insert(k, row);
    assert(row_models(rows@) == models.insert(k as int, row_model(row)));
}

/// The rows in the order of their titles; rows of one title keep their order.
pub fn sort_by_title(rows: Vec<(String, String, Option<String>)>) -> (r: Vec<
    (String, String, Option<String>),
>)
    ensures
        row_models(r@) == by_title(row_models(rows@)),
{
    let ghost all = row_models(rows@);
    let mut r: Vec<(String, String, Option<String>)> = Vec::new();
    assert(all.take(0) == row_models(r@));
    for row in it: rows
        invariant
            it.seq() == rows@,
            all == row_models(rows@),
            row_models(r@) == by_title(all.take(it.index())),
    {
        proof {
            let next = all.take(it.index() + 1);
            assert(next.drop_last() == all.take(it.index()));
            assert(next.last() == row_model(row));
        }
        insert_by_title(&mut r, row);
    }
    assert(all.take(all.len() as int) == all);
    r
}

} // verus!
