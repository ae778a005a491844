//! What holds of the index across its operations.
use vstd::prelude::*;

use crate::error::Refusal;
use crate::index::{
    add_batch_outcome, add_item_outcome, describes, found_positions, given_label, given_metadata,
    label_choice, metadata_view, new_outcome, prepare_search_outcome, shown_metadata,
    register_rows, registered, restore_outcome, saved_items, saved_space, space_name,
    store_rows, stored, with_next_id, BatchRow, DistanceType, IndexOptions, IndexView, ItemView,
    Metadata, Read, SavedState, VectorRead,
};
use crate::keyed::lemma_fold_insert_unique;
use crate::strmap::string_pairs;
use crate::text::{decimal, digit_char};

verus! {

/// Every stored item's label is registered under the item's id, and every id
/// in use is below the counter.
pub open spec fn consistent(v: IndexView) -> bool {
    &&& v.items.dom().finite()
    &&& forall|id: usize|
        #[trigger] v.items.contains_key(id) ==> {
            &&& id < v.next_id
            &&& v.labels.contains_key(v.items[id].label)
            &&& v.labels[v.items[id].label] == id
        }
    &&& forall|l: Seq<char>| #[trigger] v.labels.contains_key(l) ==> v.labels[l] < v.next_id
}

/// A new index is consistent.
pub proof fn law_new_index_is_consistent(o: IndexOptions)
    requires
        new_outcome(o) is Ok,
    ensures
        consistent(new_outcome(o)->Ok_0.0),
        new_outcome(o)->Ok_0.0.items.len() == 0,
{
}

/// Choosing a label never moves the counter back, and moves it by at most one.
proof fn lemma_label_choice(v: IndexView, label: Option<Seq<char>>)
    requires
        v.next_id + 1 <= usize::MAX,
    ensures
        v.next_id <= label_choice(v, label).1 <= v.next_id + 1,
{
}

/// Moving the counter forward keeps an index consistent.
proof fn lemma_counter_forward(v: IndexView, c: usize)
    requires
        consistent(v),
        v.next_id <= c,
    ensures
        consistent(with_next_id(v, c)),
{
}

/// Registering a new label at or above the counter keeps an index consistent.
proof fn lemma_register_fresh(v: IndexView, lab: Seq<char>, c: usize)
    requires
        consistent(v),
        !v.labels.contains_key(lab),
        v.next_id <= c,
        c + 1 <= usize::MAX,
    ensures
        consistent(registered(v, lab, c)),
{
    let w = registered(v, lab, c);
    assert forall|id: usize| #[trigger] w.items.contains_key(id) implies {
        &&& id < w.next_id
        &&& w.labels.contains_key(w.items[id].label)
        &&& w.labels[w.items[id].label] == id
    } by {
        assert(v.labels.contains_key(v.items[id].label));
    }
}

/// Storing the item of a label that was just registered keeps an index consistent.
proof fn lemma_store_registered(v: IndexView, id: usize, item: ItemView)
    requires
        consistent(v),
        id < v.next_id,
        v.labels.contains_key(item.label),
        v.labels[item.label] == id,
    ensures
        consistent(stored(v, id, item)),
{
}

/// Adding an item, accepted or refused, keeps an index consistent.
pub proof fn law_add_item_keeps_consistency(
    v: IndexView,
    vector: VectorRead,
    label: Read<String>,
    metadata: Read<Metadata>,
)
    requires
        consistent(v),
        v.next_id + 2 <= usize::MAX,
    ensures
        consistent(add_item_outcome(v, vector, label, metadata).0),
{
    let (lab, c) = label_choice(v, given_label(label));
    lemma_label_choice(v, given_label(label));
    lemma_counter_forward(v, c);
    if !v.labels.contains_key(lab) {
        lemma_register_fresh(v, lab, c);
        let w = registered(v, lab, c);
        lemma_store_registered(w, c, ItemView { label: lab, metadata: given_metadata(metadata) });
    }
}

/// An accepted item is stored under a fresh id, its label is registered under
/// that id, and the index holds one item more.
pub proof fn law_added_item_is_found(
    v: IndexView,
    vector: VectorRead,
    label: Read<String>,
    metadata: Read<Metadata>,
)
    requires
        consistent(v),
        v.next_id + 2 <= usize::MAX,
        add_item_outcome(v, vector, label, metadata).1 is Ok,
    ensures
        ({
            let w = add_item_outcome(v, vector, label, metadata).0;
            let id = add_item_outcome(v, vector, label, metadata).1->Ok_0;
            &&& !v.items.contains_key(id)
            &&& w.items.contains_key(id)
            &&& w.labels[w.items[id].label] == id
            &&& w.items.len() == v.items.len() + 1
            &&& label is Given ==> w.items[id].label == label->Given_0@
            &&& w.items[id].metadata == given_metadata(metadata)
        }),
{
}

/// A refused item leaves the labels and the items as they were.
pub proof fn law_refused_item_changes_nothing_stored(
    v: IndexView,
    vector: VectorRead,
    label: Read<String>,
    metadata: Read<Metadata>,
)
    requires
        v.next_id + 2 <= usize::MAX,
        add_item_outcome(v, vector, label, metadata).1 is Err,
    ensures
        add_item_outcome(v, vector, label, metadata).0.labels == v.labels,
        add_item_outcome(v, vector, label, metadata).0.items == v.items,
        add_item_outcome(v, vector, label, metadata).0.ef_search == v.ef_search,
        add_item_outcome(v, vector, label, metadata).0.dim == v.dim,
{
}

/// A label that is registered is refused when it is given again.
pub proof fn law_duplicate_label_refused(
    v: IndexView,
    vector: VectorRead,
    label: String,
    metadata: Read<Metadata>,
)
    requires
        v.labels.contains_key(label@),
        vector.len == v.dim,
        vector.values_ok,
        !(metadata is Invalid),
    ensures
        add_item_outcome(v, vector, Read::Given(label), metadata).1 == Err::<usize, Refusal>(
            Refusal::LabelExists(label@),
        ),
        add_item_outcome(v, vector, Read::Given(label), metadata).0 == v,
{
    assert(with_next_id(v, v.next_id) =~= v);
}

/// Registering rows keeps an index consistent, and each registered row's id
/// is at or above the counter it started from.
proof fn lemma_register_rows_consistent(v: IndexView, rows: Seq<BatchRow>)
    requires
        consistent(v),
        v.next_id + 2 * rows.len() <= usize::MAX,
    ensures
        match register_rows(v, rows) {
            Ok((w, regs)) => {
                &&& consistent(w)
                &&& w.items == v.items
                &&& v.next_id <= w.next_id <= v.next_id + 2 * rows.len()
                &&& forall|j: int|
                    0 <= j < regs.len() ==> v.next_id <= #[trigger] regs[j].0 < w.next_id
                        && w.labels.contains_key(regs[j].1) && w.labels[regs[j].1] == regs[j].0
                &&& forall|i: int, j: int|
                    0 <= i < j < regs.len() ==> #[trigger] regs[i].0 < #[trigger] regs[j].0
                &&& regs.len() == rows.len()
                &&& forall|j: int|
                    0 <= j < rows.len() && rows[j].label is Given ==> #[trigger] regs[j].1
                        == rows[j].label->Given_0@
                &&& forall|j: int|
                    0 <= j < rows.len() && rows[j].label is Absent ==> 1 <= #[trigger] regs[j].0
                        && regs[j].1 == decimal((regs[j].0 - 1) as nat)
            },
            Err((w, _)) => consistent(w),
        },
    decreases rows.len(),
{
    if rows.len() > 0 {
        lemma_register_rows_consistent(v, rows.drop_last());
        match register_rows(v, rows.drop_last()) {
            Err(_) => {},
            Ok((w, regs)) => {
                let r = rows.last();
                assert forall|j: int| 0 <= j < rows.len() - 1 implies #[trigger] rows[j]
                    == rows.drop_last()[j] by {}
                match r.vector {
                    None => {},
                    Some(_) => {
                        let (lab, c) = label_choice(w, given_label(r.label));
                        lemma_label_choice(w, given_label(r.label));
                        lemma_counter_forward(w, c);
                        if !w.labels.contains_key(lab) {
                            lemma_register_fresh(w, lab, c);
                        }
                    },
                }
            },
        }
    }
}

/// Storing the registered rows of a batch keeps an index consistent.
proof fn lemma_store_rows_consistent(v: IndexView, regs: Seq<(usize, Seq<char>)>)
    requires
        consistent(v),
        forall|j: int|
            0 <= j < regs.len() ==> #[trigger] regs[j].0 < v.next_id && v.labels.contains_key(
                regs[j].1,
            ) && v.labels[regs[j].1] == regs[j].0,
    ensures
        consistent(store_rows(v, regs)),
        store_rows(v, regs).labels == v.labels,
        store_rows(v, regs).next_id == v.next_id,
    decreases regs.len(),
{
    if regs.len() > 0 {
        lemma_store_rows_consistent(v, regs.drop_last());
        let w = store_rows(v, regs.drop_last());
        let last = regs.last();
        assert(regs[regs.len() - 1] == last);
        lemma_store_registered(w, last.0, ItemView { label: last.1, metadata: None });
    }
}

/// Adding a batch, accepted or refused, keeps an index consistent.
pub proof fn law_add_batch_keeps_consistency(v: IndexView, rows: Seq<BatchRow>)
    requires
        consistent(v),
        v.next_id + 2 * rows.len() <= usize::MAX,
    ensures
        consistent(add_batch_outcome(v, rows).0),
{
    lemma_register_rows_consistent(v, rows);
    match register_rows(v, rows) {
        Ok((w, regs)) => {
            lemma_store_rows_consistent(w, regs);
        },
        Err(_) => {},
    }
}

/// A search width set before a search is the width the search uses, and a
/// search without a width leaves the stored one in place.
pub proof fn law_search_uses_set_width(v: IndexView, ef: usize, query: VectorRead, k: Option<usize>)
    requires
        query.len == v.dim,
        query.values_ok,
    ensures
        prepare_search_outcome(IndexView { ef_search: ef, ..v }, query, k, None).1 matches Ok(
            plan,
        ) && plan.ef == ef && plan.k == match k {
            Some(x) => x,
            None => 10,
        },
        prepare_search_outcome(IndexView { ef_search: ef, ..v }, query, k, None).0 == (IndexView {
            ef_search: ef,
            ..v
        }),
{
}

/// A distance read back from its name is the distance that was named.
pub proof fn law_space_names_round_trip(d: DistanceType)
    ensures
        saved_space(space_name(d)) == Some(d),
{
    reveal_strlit("euclidean");
    reveal_strlit("cosine");
    reveal_strlit("inner_product");
    assert("euclidean"@[0] != "cosine"@[0]);
    assert("euclidean"@.len() != "inner_product"@.len());
    assert("cosine"@ != "inner_product"@);
}

/// Loading what was saved of an index gives the index back, with the search
/// width at 200.
pub proof fn law_save_then_load(s: SavedState, v: IndexView)
    requires
        describes(s, v),
    ensures
        restore_outcome(s) == Ok::<IndexView, Refusal>(IndexView { ef_search: 200, ..v }),
{
    law_space_names_round_trip(v.space);
    lemma_fold_insert_unique(saved_items(s.items@));
    lemma_fold_insert_unique(string_pairs(s.labels@));
    assert(restore_outcome(s)->Ok_0 =~= IndexView { ef_search: 200, ..v });
}

/// The decimal representation of a number has at least two characters from ten on.
proof fn lemma_decimal_len(n: nat)
    ensures
        decimal(n).len() >= 1,
        n >= 10 ==> decimal(n).len() >= 2,
    decreases n,
{
    if n >= 10 {
        lemma_decimal_len(n / 10);
    }
}

/// Distinct counters give distinct automatic labels.
pub proof fn law_automatic_labels_distinct(n: nat, m: nat)
    requires
        n != m,
    ensures
        decimal(n) != decimal(m),
    decreases n + m,
{
    lemma_decimal_len(n);
    lemma_decimal_len(m);
    if n < 10 && m < 10 {
        assert(decimal(n)[0] == digit_char(n));
        assert(decimal(m)[0] == digit_char(m));
    } else if n >= 10 && m >= 10 {
        if decimal(n) == decimal(m) {
            assert(decimal(n).last() == digit_char(n % 10));
            assert(decimal(m).last() == digit_char(m % 10));
            assert(decimal(n).drop_last() =~= decimal(n / 10));
            assert(decimal(m).drop_last() =~= decimal(m / 10));
            if n / 10 != m / 10 {
                law_automatic_labels_distinct(n / 10, m / 10);
            }
            assert(n % 10 == m % 10);
        }
    }
}

/// Storing the registered rows of a batch, with fresh and increasing ids,
/// stores one item per row under its id, with its label and no metadata.
proof fn lemma_store_rows_items(v: IndexView, regs: Seq<(usize, Seq<char>)>)
    requires
        v.items.dom().finite(),
        forall|j: int| 0 <= j < regs.len() ==> !v.items.contains_key(#[trigger] regs[j].0),
        forall|i: int, j: int| 0 <= i < j < regs.len() ==> #[trigger] regs[i].0 < #[trigger] regs[j].0,
    ensures
        store_rows(v, regs).items.dom().finite(),
        store_rows(v, regs).items.len() == v.items.len() + regs.len(),
        store_rows(v, regs).labels == v.labels,
        forall|j: int|
            0 <= j < regs.len() ==> store_rows(v, regs).items.contains_key(#[trigger] regs[j].0)
                && store_rows(v, regs).items[regs[j].0] == (ItemView {
                label: regs[j].1,
                metadata: None,
            }),
        forall|k: usize|
            #[trigger] store_rows(v, regs).items.contains_key(k) ==> v.items.contains_key(k) || exists|
                j: int,
            |
                0 <= j < regs.len() && regs[j].0 == k,
    decreases regs.len(),
{
    if regs.len() > 0 {
        let r = regs.drop_last();
        assert forall|j: int| 0 <= j < r.len() implies #[trigger] r[j] == regs[j] by {}
        lemma_store_rows_items(v, r);
        let w = store_rows(v, r);
        let last = regs.last();
        assert(regs[regs.len() - 1] == last);
        assert(!w.items.contains_key(last.0)) by {
            if w.items.contains_key(last.0) {
                if !v.items.contains_key(last.0) {
                    let j = choose|j: int| 0 <= j < r.len() && r[j].0 == last.0;
                    assert(regs[j].0 < regs[regs.len() - 1].0);
                }
            }
        }
        let u = store_rows(v, regs);
        assert forall|k: usize| #[trigger] u.items.contains_key(k) implies v.items.contains_key(k)
            || exists|j: int| 0 <= j < regs.len() && regs[j].0 == k by {
            if k != last.0 && !v.items.contains_key(k) {
                let j = choose|j: int| 0 <= j < r.len() && r[j].0 == k;
                assert(regs[j].0 == k);
            }
        }
        assert forall|j: int| 0 <= j < regs.len() implies u.items.contains_key(#[trigger] regs[j].0)
            && u.items[regs[j].0] == (ItemView { label: regs[j].1, metadata: None }) by {
            if j < regs.len() - 1 {
                assert(r[j] == regs[j]);
                assert(regs[j].0 < regs[regs.len() - 1].0);
            }
        }
    }
}

/// An accepted batch stores one item per row: each row's id is fresh, is
/// stored with the row's label (the given one where a label was given) and
/// no metadata, and that label is registered under it; the index holds one
/// item more per row.
pub proof fn law_accepted_batch_stores_every_row(v: IndexView, rows: Seq<BatchRow>)
    requires
        consistent(v),
        v.next_id + 2 * rows.len() <= usize::MAX,
        add_batch_outcome(v, rows).1 is Ok,
    ensures
        ({
            let w = add_batch_outcome(v, rows).0;
            let ids = add_batch_outcome(v, rows).1->Ok_0;
            &&& ids.len() == rows.len()
            &&& w.items.len() == v.items.len() + rows.len()
            &&& forall|j: int|
                0 <= j < rows.len() ==> {
                    &&& !v.items.contains_key(#[trigger] ids[j])
                    &&& w.items.contains_key(ids[j])
                    &&& w.items[ids[j]].metadata is None
                    &&& w.labels[w.items[ids[j]].label] == ids[j]
                    &&& rows[j].label is Given ==> w.items[ids[j]].label
                        == rows[j].label->Given_0@
                    &&& rows[j].label is Absent ==> w.items[ids[j]].label == decimal(
                        (ids[j] - 1) as nat,
                    )
                }
        }),
{
    lemma_register_rows_consistent(v, rows);
    let (w0, regs) = register_rows(v, rows)->Ok_0;
    assert forall|j: int| 0 <= j < regs.len() implies !w0.items.contains_key(#[trigger] regs[j].0) by {
        if w0.items.contains_key(regs[j].0) {
            assert(v.items.contains_key(regs[j].0));
        }
    }
    lemma_store_rows_items(w0, regs);
    let ids = add_batch_outcome(v, rows).1->Ok_0;
    assert forall|j: int| 0 <= j < rows.len() implies #[trigger] ids[j] == regs[j].0 by {}
}

/// Every label of `v` is an automatic one: the decimal form of a counter
/// value below the current counter.
pub open spec fn labels_all_automatic(v: IndexView) -> bool {
    forall|l: Seq<char>|
        #[trigger] v.labels.contains_key(l) ==> exists|n: nat| n < v.next_id && l == decimal(n)
}

/// An item added without a label is labelled with the counter in decimal and
/// stored under the next counter value; where every label so far is
/// automatic, it is never refused for its label, and every label stays
/// automatic, so adding unlabelled items never clashes.
pub proof fn law_unlabelled_item_gets_counter_label(
    v: IndexView,
    vector: VectorRead,
    metadata: Read<Metadata>,
)
    requires
        vector.len == v.dim,
        vector.values_ok,
        !(metadata is Invalid),
        v.next_id + 2 <= usize::MAX,
        labels_all_automatic(v),
    ensures
        ({
            let (w, r) = add_item_outcome(v, vector, Read::<String>::Absent, metadata);
            &&& r == Ok::<usize, Refusal>((v.next_id + 1) as usize)
            &&& w.items[(v.next_id + 1) as usize].label == decimal(v.next_id as nat)
            &&& w.labels[decimal(v.next_id as nat)] == v.next_id + 1
            &&& w.next_id == v.next_id + 2
            &&& labels_all_automatic(w)
        }),
{
    let lab = decimal(v.next_id as nat);
    assert(!v.labels.contains_key(lab)) by {
        if v.labels.contains_key(lab) {
            let n = choose|n: nat| n < v.next_id && lab == decimal(n);
            law_automatic_labels_distinct(n, v.next_id as nat);
        }
    }
    let (w, r) = add_item_outcome(v, vector, Read::<String>::Absent, metadata);
    assert forall|l: Seq<char>| #[trigger] w.labels.contains_key(l) implies exists|n: nat|
        n < w.next_id && l == decimal(n) by {
        if l == lab {
            assert(v.next_id < w.next_id && l == decimal(v.next_id as nat));
        } else {
            assert(v.labels.contains_key(l));
            let n = choose|n: nat| n < v.next_id && l == decimal(n);
            assert(n < w.next_id && l == decimal(n));
        }
    }
}

/// The metadata shown for a neighbour is all of its stored metadata, pair
/// for pair, and none where it has none.
pub proof fn law_shown_metadata_is_all_stored(item: ItemView)
    ensures
        item.metadata matches Some(m) ==> shown_metadata(item) == m && shown_metadata(item).len()
            == m.len(),
        item.metadata is None ==> shown_metadata(item).len() == 0,
{
}

/// Metadata given with an item is what a search shows for it: every pair,
/// in order.
pub proof fn law_given_metadata_is_shown(
    v: IndexView,
    vector: VectorRead,
    label: Read<String>,
    m: Metadata,
)
    requires
        v.next_id + 2 <= usize::MAX,
        add_item_outcome(v, vector, label, Read::Given(m)).1 is Ok,
    ensures
        ({
            let w = add_item_outcome(v, vector, label, Read::Given(m)).0;
            let id = add_item_outcome(v, vector, label, Read::Given(m)).1->Ok_0;
            &&& shown_metadata(w.items[id]) == metadata_view(m)
            &&& shown_metadata(w.items[id]).len() == m.pairs().len()
        }),
{
}

/// The neighbours found are exactly the positions whose id has a stored
/// item, each once and in increasing order.
pub proof fn law_every_stored_neighbour_is_found(items: Map<usize, ItemView>, ids: Seq<usize>)
    ensures
        forall|p: int|
            0 <= p < ids.len() && items.contains_key(#[trigger] ids[p]) ==> exists|j: int|
                0 <= j < found_positions(items, ids).len() && found_positions(items, ids)[j] == p,
        forall|j: int|
            0 <= j < found_positions(items, ids).len() ==> 0 <= #[trigger] found_positions(
                items,
                ids,
            )[j] < ids.len() && items.contains_key(ids[found_positions(items, ids)[j]]),
        forall|i: int, j: int|
            0 <= i < j < found_positions(items, ids).len() ==> #[trigger] found_positions(
                items,
                ids,
            )[i] < #[trigger] found_positions(items, ids)[j],
    decreases ids.len(),
{
    if ids.len() > 0 {
        let r = ids.drop_last();
        law_every_stored_neighbour_is_found(items, r);
        let f = found_positions(items, r);
        let g = found_positions(items, ids);
        assert forall|p: int| 0 <= p < ids.len() && items.contains_key(#[trigger] ids[p]) implies exists|
            j: int,
        | 0 <= j < g.len() && g[j] == p by {
            if p < ids.len() - 1 {
                assert(r[p] == ids[p]);
                let j = choose|j: int| 0 <= j < f.len() && f[j] == p;
                assert(g[j] == p);
            } else {
                assert(g[g.len() - 1] == p);
            }
        }
        assert forall|j: int| 0 <= j < g.len() implies 0 <= #[trigger] g[j] < ids.len()
            && items.contains_key(ids[g[j]]) by {
            if j < f.len() {
                assert(g[j] == f[j]);
                assert(r[f[j]] == ids[f[j]]);
            }
        }
        assert forall|i: int, j: int| 0 <= i < j < g.len() implies #[trigger] g[i] < #[trigger] g[j] by {
            if j < f.len() {
                assert(g[i] == f[i] && g[j] == f[j]);
            } else {
                assert(g[i] == f[i]);
                assert(f[i] < r.len());
            }
        }
    }
}

} // verus!
