//! The bookkeeping of an approximate nearest-neighbour index: its options,
//! the labels of its items and their metadata, the counter that numbers the
//! items, and the search width.
//!
//! The vectors and the graph that is searched live with the caller, keyed by
//! the ids that this index hands out; the index decides what every call does
//! with labels, ids and metadata, and which failure a call reports.
use vstd::prelude::*;

use crate::error::{IndexError, Refusal, Unreadable};
use crate::idmap::IdMap;
use crate::keyed::{
    fold_insert, lemma_map_pair_values, map_pair_values, pairs_map,
    unique_keys,
};
use crate::strmap::{string_pairs, StrMap};
use crate::text::{decimal, decimal_string, owned};

verus! {

/// Metadata of an item: string keys with string values.
pub type Metadata = StrMap<String>;

/// The key/value pairs of metadata, in their order, taken by their views.
pub open spec fn metadata_view(m: Metadata) -> Seq<(Seq<char>, Seq<char>)> {
    m.pairs().map_values(|p: (Seq<char>, String)| (p.0, p.1@))
}

/// The distance that an index measures with.
#[derive(Clone, Copy, Debug, PartialEq, Eq, Structural)]
pub enum DistanceType {
    Euclidean,
    Cosine,
    InnerProduct,
}

/// The name under which a distance is shown and saved.
pub open spec fn space_name(d: DistanceType) -> Seq<char> {
    match d {
        DistanceType::Euclidean => "euclidean"@,
        DistanceType::Cosine => "cosine"@,
        DistanceType::InnerProduct => "inner_product"@,
    }
}

/// The distance that a saved name stands for.
pub open spec fn saved_space(name: Seq<char>) -> Option<DistanceType> {
    if name == "euclidean"@ {
        Some(DistanceType::Euclidean)
    } else if name == "cosine"@ {
        Some(DistanceType::Cosine)
    } else if name == "inner_product"@ {
        Some(DistanceType::InnerProduct)
    } else {
        None
    }
}

impl DistanceType {
    /// The name of the distance.
    pub fn name(&self) -> (s: String)
        ensures
            s@ == space_name(*self),
    {
        match self {
            DistanceType::Euclidean => owned("euclidean"),
            DistanceType::Cosine => owned("cosine"),
            DistanceType::InnerProduct => owned("inner_product"),
        }
    }

    /// The distance named `name` in a saved index.
    pub fn from_saved_name(name: &String) -> (r: Option<DistanceType>)
        ensures
            r == saved_space(name@),
    {
        if *name == owned("euclidean") {
            Some(DistanceType::Euclidean)
        } else if *name == owned("cosine") {
            Some(DistanceType::Cosine)
        } else if *name == owned("inner_product") {
            Some(DistanceType::InnerProduct)
        } else {
            None
        }
    }
}

/// What the index keeps of an item: its label and its metadata.
pub struct ItemMetadata {
    pub label: String,
    pub metadata: Option<Metadata>,
}

/// An item's label and metadata pairs, taken by their views.
#[verifier::ext_equal]
pub struct ItemView {
    pub label: Seq<char>,
    pub metadata: Option<Seq<(Seq<char>, Seq<char>)>>,
}

impl View for ItemMetadata {
    type V = ItemView;

    open spec fn view(&self) -> ItemView {
        ItemView {
            label: self.label@,
            metadata: match self.metadata {
                Some(m) => Some(metadata_view(m)),
                None => None,
            },
        }
    }
}

impl ItemMetadata {
    /// A copy of the item.
    pub fn duplicate(&self) -> (r: Self)
        ensures
            r@ == self@,
    {
        let metadata = match &self.metadata {
            Some(m) => Some(m.duplicate()),
            None => None,
        };
        ItemMetadata { label: self.label.clone(), metadata }
    }
}

/// An argument as the caller found it: not passed, passed but not readable as
/// the type the call needs, or passed and read.
pub enum Read<T> {
    Absent,
    Invalid,
    Given(T),
}

/// A vector argument as the caller read it: its length, and whether every
/// value converted.
#[derive(Clone, Copy, Debug, PartialEq, Eq, Structural)]
pub struct VectorRead {
    pub len: usize,
    pub values_ok: bool,
}

/// The options an index is created with.
pub struct IndexOptions {
    pub dim: Read<usize>,
    pub space: Read<String>,
    pub max_elements: Option<usize>,
    pub m: Option<usize>,
    pub ef_construction: Option<usize>,
    pub random_seed: Option<u64>,
}

/// The parameters of the search graph that goes with a new index.
#[derive(Clone, Copy, Debug, PartialEq, Eq, Structural)]
pub struct GraphParams {
    pub max_nb_connection: usize,
    pub max_elements: usize,
    pub max_layer: usize,
    pub ef_construction: usize,
    pub random_seed: Option<u64>,
}

/// The bookkeeping of an index.
pub struct HnswIndex {
    dim: usize,
    space: DistanceType,
    metadata_store: IdMap<ItemMetadata>,
    current_id: usize,
    label_to_id: StrMap<usize>,
    ef_search: usize,
}

/// An index as a mathematical value.
#[verifier::ext_equal]
pub struct IndexView {
    /// Length of every vector.
    pub dim: usize,
    pub space: DistanceType,
    /// The counter from which ids and automatic labels are taken.
    pub next_id: usize,
    /// Width of the search.
    pub ef_search: usize,
    /// The id registered for each label.
    pub labels: Map<Seq<char>, usize>,
    /// The stored items, by id.
    pub items: Map<usize, ItemView>,
}

impl View for HnswIndex {
    type V = IndexView;

    closed spec fn view(&self) -> IndexView {
        IndexView {
            dim: self.dim,
            space: self.space,
            next_id: self.current_id,
            ef_search: self.ef_search,
            labels: self.label_to_id@,
            items: self.metadata_store@.map_values(|m: ItemMetadata| m@),
        }
    }
}

/// The value of an optional argument, or its default.
pub open spec fn or_default(o: Option<usize>, default: usize) -> usize {
    match o {
        Some(x) => x,
        None => default,
    }
}

/// The space a new index is asked for.
pub open spec fn requested_space(space: Read<String>) -> Seq<char> {
    match space {
        Read::Given(s) => s@,
        _ => "euclidean"@,
    }
}

/// The search graph parameters that the options ask for.
pub open spec fn graph_params(o: IndexOptions) -> GraphParams {
    GraphParams {
        max_nb_connection: or_default(o.m, 16),
        max_elements: or_default(o.max_elements, 10000),
        max_layer: 16,
        ef_construction: or_default(o.ef_construction, 200),
        random_seed: o.random_seed,
    }
}

/// What creating an index with `o` gives.
pub open spec fn new_outcome(o: IndexOptions) -> Result<(IndexView, GraphParams), Refusal> {
    match o.dim {
        Read::Absent => Err(Refusal::DimRequired),
        Read::Invalid => Err(Refusal::DimNotInteger),
        Read::Given(d) => if d == 0 {
            Err(Refusal::DimZero)
        } else if o.space is Invalid {
            Err(Refusal::SpaceNotText)
        } else {
            let name = requested_space(o.space);
            if name == "euclidean"@ {
                Ok(
                    (
                        IndexView {
                            dim: d,
                            space: DistanceType::Euclidean,
                            next_id: 0,
                            ef_search: or_default(o.ef_construction, 200),
                            labels: Map::empty(),
                            items: Map::empty(),
                        },
                        graph_params(o),
                    ),
                )
            } else if name == "cosine"@ {
                Err(Refusal::CosineUnsupported)
            } else if name == "inner_product"@ {
                Err(Refusal::InnerProductUnsupported)
            } else {
                Err(Refusal::UnknownSpace(name))
            }
        },
    }
}

/// Whether the vector read for a call fits the index; the refusal otherwise.
pub open spec fn vector_refusal(v: IndexView, vector: VectorRead, row: usize) -> Option<Refusal> {
    if vector.len != v.dim {
        Some(Refusal::DimensionMismatch { expected: v.dim, got: vector.len })
    } else if !vector.values_ok {
        Some(Refusal::Unreadable(Unreadable::Vector { row }))
    } else {
        None
    }
}

/// The label given to a call, if one was read.
pub open spec fn given_label(label: Read<String>) -> Option<Seq<char>> {
    match label {
        Read::Given(s) => Some(s@),
        _ => None,
    }
}

/// The label an item gets and the counter after choosing it: a given label
/// leaves the counter alone; otherwise the label is the counter in decimal
/// and the counter moves on.
pub open spec fn label_choice(v: IndexView, label: Option<Seq<char>>) -> (Seq<char>, usize) {
    match label {
        Some(l) => (l, v.next_id),
        None => (decimal(v.next_id as nat), (v.next_id + 1) as usize),
    }
}

/// `v` with the counter at `c`.
pub open spec fn with_next_id(v: IndexView, c: usize) -> IndexView {
    IndexView { next_id: c, ..v }
}

/// `v` with `label` registered under `id` and the counter moved past `id`.
pub open spec fn registered(v: IndexView, label: Seq<char>, id: usize) -> IndexView {
    IndexView { labels: v.labels.insert(label, id), next_id: (id + 1) as usize, ..v }
}

/// `v` with `item` stored under `id`.
pub open spec fn stored(v: IndexView, id: usize, item: ItemView) -> IndexView {
    IndexView { items: v.items.insert(id, item), ..v }
}

/// The metadata given to a call, taken by its view.
pub open spec fn given_metadata(m: Read<Metadata>) -> Option<Seq<(Seq<char>, Seq<char>)>> {
    match m {
        Read::Given(x) => Some(metadata_view(x)),
        _ => None,
    }
}

/// The index after adding one item, and the id of the item or the refusal.
pub open spec fn add_item_outcome(
    v: IndexView,
    vector: VectorRead,
    label: Read<String>,
    metadata: Read<Metadata>,
) -> (IndexView, Result<usize, Refusal>) {
    match vector_refusal(v, vector, 0) {
        Some(f) => (v, Err(f)),
        None => {
            let (lab, c) = label_choice(v, given_label(label));
            if metadata is Invalid {
                (with_next_id(v, c), Err(Refusal::Unreadable(Unreadable::Metadata)))
            } else if v.labels.contains_key(lab) {
                (with_next_id(v, c), Err(Refusal::LabelExists(lab)))
            } else {
                (
                    stored(
                        registered(v, lab, c),
                        c,
                        ItemView { label: lab, metadata: given_metadata(metadata) },
                    ),
                    Ok(c),
                )
            }
        },
    }
}

/// One row of a batch as the caller read it: its vector (none where the row
/// is not an array), and its label (absent where the batch has no labels).
pub struct BatchRow {
    pub vector: Option<VectorRead>,
    pub label: Read<String>,
}

/// Registering the label of row `row` of a batch: the index after it, with
/// the id and label of the row, or the index at the refusal and the refusal.
pub open spec fn register_row(v: IndexView, r: BatchRow, row: usize) -> Result<
    (IndexView, usize, Seq<char>),
    (IndexView, Refusal),
> {
    match r.vector {
        None => Err((v, Refusal::Unreadable(Unreadable::Vector { row }))),
        Some(vector) => match vector_refusal(v, vector, row) {
            Some(f) => Err((v, f)),
            None => if r.label is Invalid {
                Err((v, Refusal::Unreadable(Unreadable::Label { row })))
            } else {
                let (lab, c) = label_choice(v, given_label(r.label));
                if v.labels.contains_key(lab) {
                    Err((with_next_id(v, c), Refusal::LabelExists(lab)))
                } else {
                    Ok((registered(v, lab, c), c, lab))
                }
            },
        },
    }
}

/// Registering the rows of a batch in order, up to the first refusal.
pub open spec fn register_rows(v: IndexView, rows: Seq<BatchRow>) -> Result<
    (IndexView, Seq<(usize, Seq<char>)>),
    (IndexView, Refusal),
>
    decreases rows.len(),
{
    if rows.len() == 0 {
        Ok((v, Seq::empty()))
    } else {
        match register_rows(v, rows.drop_last()) {
            Err(f) => Err(f),
            Ok((w, regs)) => match register_row(w, rows.last(), (rows.len() - 1) as usize) {
                Err(f) => Err(f),
                Ok((w2, id, lab)) => Ok((w2, regs.push((id, lab)))),
            },
        }
    }
}

/// Storing an item without metadata for each registered row, in order.
pub open spec fn store_rows(v: IndexView, regs: Seq<(usize, Seq<char>)>) -> IndexView
    decreases regs.len(),
{
    if regs.len() == 0 {
        v
    } else {
        stored(
            store_rows(v, regs.drop_last()),
            regs.last().0,
            ItemView { label: regs.last().1, metadata: None },
        )
    }
}

/// The index after adding a batch, and the ids of its rows or the refusal.
/// Rows registered before a refusal keep their labels; their items are not
/// stored.
pub open spec fn add_batch_outcome(v: IndexView, rows: Seq<BatchRow>) -> (
    IndexView,
    Result<Seq<usize>, Refusal>,
) {
    match register_rows(v, rows) {
        Err((w, f)) => (w, Err(f)),
        Ok((w, regs)) => (store_rows(w, regs), Ok(regs.map_values(|p: (usize, Seq<char>)| p.0))),
    }
}

/// Ids with labels, the labels taken by their views.
pub open spec fn id_label_pairs(s: Seq<(usize, String)>) -> Seq<(usize, Seq<char>)> {
    s.map_values(|p: (usize, String)| (p.0, p.1@))
}

/// Once a prefix of the rows is refused, the whole batch is refused the same way.
pub proof fn lemma_register_rows_refused(v: IndexView, rows: Seq<BatchRow>, n: int)
    requires
        0 <= n <= rows.len(),
        register_rows(v, rows.take(n)) is Err,
    ensures
        register_rows(v, rows) == register_rows(v, rows.take(n)),
    decreases rows.len(),
{
    if n < rows.len() {
        assert(rows.drop_last().take(n) =~= rows.take(n));
        lemma_register_rows_refused(v, rows.drop_last(), n);
    } else {
        assert(rows.take(n) =~= rows);
    }
}

/// Registering rows moves the counter by at most two a row and stores nothing.
pub proof fn lemma_register_rows_bounds(v: IndexView, rows: Seq<BatchRow>)
    requires
        v.next_id + 2 * rows.len() <= usize::MAX,
    ensures
        register_rows(v, rows) matches Ok((w, regs)) ==> w.next_id <= v.next_id + 2 * rows.len()
            && w.items == v.items && w.dim == v.dim && regs.len() == rows.len(),
    decreases rows.len(),
{
    if rows.len() > 0 {
        lemma_register_rows_bounds(v, rows.drop_last());
    }
}

/// What a search asks of the graph: how many neighbours, and how wide to search.
#[derive(Clone, Copy, Debug, PartialEq, Eq, Structural)]
pub struct SearchPlan {
    pub k: usize,
    pub ef: usize,
}

/// The index after preparing a search, and the plan or the refusal: the
/// query must fit the index; a given width replaces the stored one; `k`
/// defaults to 10.
pub open spec fn prepare_search_outcome(
    v: IndexView,
    query: VectorRead,
    k: Option<usize>,
    ef: Option<usize>,
) -> (IndexView, Result<SearchPlan, Refusal>) {
    match vector_refusal(v, query, 0) {
        Some(f) => (v, Err(f)),
        None => {
            let width = or_default(ef, v.ef_search);
            (IndexView { ef_search: width, ..v }, Ok(SearchPlan { k: or_default(k, 10), ef: width }))
        },
    }
}

/// The positions, in order, of the neighbour ids that have a stored item.
pub open spec fn found_positions(items: Map<usize, ItemView>, ids: Seq<usize>) -> Seq<int>
    decreases ids.len(),
{
    if ids.len() == 0 {
        Seq::empty()
    } else {
        let found = found_positions(items, ids.drop_last());
        if items.contains_key(ids.last()) {
            found.push(ids.len() - 1)
        } else {
            found
        }
    }
}

/// Positions found are within the ids, increasing, and each has a stored item.
pub proof fn lemma_found_positions(items: Map<usize, ItemView>, ids: Seq<usize>)
    ensures
        forall|j: int|
            0 <= j < found_positions(items, ids).len() ==> 0 <= #[trigger] found_positions(
                items,
                ids,
            )[j] < ids.len() && items.contains_key(ids[found_positions(items, ids)[j]]),
        found_positions(items, ids).len() <= ids.len(),
    decreases ids.len(),
{
    if ids.len() > 0 {
        lemma_found_positions(items, ids.drop_last());
    }
}

/// A neighbour that has a stored item: its position among the neighbours the
/// graph returned, and its label.
pub struct Hit {
    pub position: usize,
    pub label: String,
}

/// A neighbour with its label and the pairs of its metadata (none where the
/// item has no metadata).
pub struct Record {
    pub position: usize,
    pub label: String,
    pub metadata: Vec<(String, String)>,
}

/// The pairs of a record's metadata, taken by their views.
pub open spec fn string_string_pairs(s: Seq<(String, String)>) -> Seq<(Seq<char>, Seq<char>)> {
    s.map_values(|p: (String, String)| (p.0@, p.1@))
}

/// Hit `h` reports the neighbour at position `p` of `ids`.
pub open spec fn hit_matches(h: Hit, p: int, items: Map<usize, ItemView>, ids: Seq<usize>) -> bool {
    &&& h.position == p
    &&& h.label@ == items[ids[p]].label
}

/// Record `r` reports the neighbour at position `p` of `ids`.
pub open spec fn record_matches(r: Record, p: int, items: Map<usize, ItemView>, ids: Seq<usize>) -> bool {
    &&& r.position == p
    &&& r.label@ == items[ids[p]].label
    &&& string_string_pairs(r.metadata@) == shown_metadata(items[ids[p]])
}

/// The metadata pairs shown for an item: its own, or none.
pub open spec fn shown_metadata(item: ItemView) -> Seq<(Seq<char>, Seq<char>)> {
    match item.metadata {
        Some(m) => m,
        None => Seq::empty(),
    }
}

/// The settings of an index.
pub struct IndexConfig {
    pub dim: usize,
    pub space: String,
    pub ef: usize,
    pub size: usize,
}

/// The counts of an index.
#[derive(Clone, Copy, Debug, PartialEq, Eq, Structural)]
pub struct IndexStats {
    pub size: usize,
    pub dim: usize,
    pub ef_search: usize,
}

/// What is written when an index is saved and read back when it is loaded.
pub struct SavedState {
    pub items: Vec<(usize, ItemMetadata)>,
    pub labels: Vec<(String, usize)>,
    pub current_id: usize,
    pub dim: usize,
    pub space: String,
}

/// Saved items, taken by their views.
pub open spec fn saved_items(s: Seq<(usize, ItemMetadata)>) -> Seq<(usize, ItemView)> {
    map_pair_values(s, |m: ItemMetadata| m@)
}

/// The index that a saved state loads as: its pairs inserted in order, the
/// distance named by its space, and the search width back at 200.
pub open spec fn restore_outcome(s: SavedState) -> Result<IndexView, Refusal> {
    match saved_space(s.space@) {
        None => Err(Refusal::UnknownSavedSpace),
        Some(d) => Ok(
            IndexView {
                dim: s.dim,
                space: d,
                next_id: s.current_id,
                ef_search: 200,
                labels: fold_insert(Map::empty(), string_pairs(s.labels@)),
                items: fold_insert(Map::empty(), saved_items(s.items@)),
            },
        ),
    }
}

/// The saved state `s` describes the index `v`: each of its lists holds every
/// entry of `v` once.
pub open spec fn describes(s: SavedState, v: IndexView) -> bool {
    &&& unique_keys(saved_items(s.items@))
    &&& pairs_map(saved_items(s.items@)) == v.items
    &&& unique_keys(string_pairs(s.labels@))
    &&& pairs_map(string_pairs(s.labels@)) == v.labels
    &&& s.current_id == v.next_id
    &&& s.dim == v.dim
    &&& s.space@ == space_name(v.space)
}

/// A result with its error taken by its view.
pub open spec fn result_view<T>(r: Result<T, IndexError>) -> Result<T, Refusal> {
    match r {
        Ok(x) => Ok(x),
        Err(e) => Err(e@),
    }
}

impl HnswIndex {
    /// Creates the bookkeeping of an empty index from the options, and the
    /// parameters of its search graph.
    pub fn new(options: IndexOptions) -> (r: Result<(HnswIndex, GraphParams), IndexError>)
        ensures
            match r {
                Ok((x, p)) => new_outcome(options) == Ok::<(IndexView, GraphParams), Refusal>((x@, p)),
                Err(e) => new_outcome(options) == Err::<(IndexView, GraphParams), Refusal>(e@),
            },
    {
        let dim = match options.dim {
            Read::Absent => return Err(IndexError::DimRequired),
            Read::Invalid => return Err(IndexError::DimNotInteger),
            Read::Given(d) => d,
        };
        if dim == 0 {
            return Err(IndexError::DimZero);
        }
        let space = match options.space {
            Read::Invalid => return Err(IndexError::SpaceNotText),
            Read::Absent => owned("euclidean"),
            Read::Given(s) => s,
        };
        let max_elements = match options.max_elements {
            Some(x) => x,
            None => 10000,
        };
        let m = match options.m {
            Some(x) => x,
            None => 16,
        };
        let ef_construction = match options.ef_construction {
            Some(x) => x,
            None => 200,
        };
        if space == owned("euclidean") {
            let index = HnswIndex {
                dim,
                space: DistanceType::Euclidean,
                metadata_store: IdMap::new(),
                current_id: 0,
                label_to_id: StrMap::new(),
                ef_search: ef_construction,
            };
            let params = GraphParams {
                max_nb_connection: m,
                max_elements,
                max_layer: 16,
                ef_construction,
                random_seed: options.random_seed,
            };
            proof {
                assert(index@.items =~= Map::empty());
            }
            Ok((index, params))
        } else if space == owned("cosine") {
            Err(IndexError::CosineUnsupported)
        } else if space == owned("inner_product") {
            Err(IndexError::InnerProductUnsupported)
        } else {
            Err(IndexError::UnknownSpace(space))
        }
    }

    /// Checks that a vector read for the index has its dimension and could be read.
    pub fn check_vector(&self, vector: VectorRead) -> (r: Result<(), IndexError>)
        ensures
            match vector_refusal(self@, vector, 0) {
                None => r is Ok,
                Some(f) => r is Err && r->Err_0@ == f,
            },
    {
        if vector.len != self.dim {
            Err(IndexError::DimensionMismatch { expected: self.dim, got: vector.len })
        } else if !vector.values_ok {
            Err(IndexError::Unreadable(Unreadable::Vector { row: 0 }))
        } else {
            Ok(())
        }
    }

    /// The counter from which the next id and automatic label are taken.
    pub fn next_id(&self) -> (n: usize)
        ensures
            n == self@.next_id,
    {
        self.current_id
    }

    /// Takes the label of a new item: the given one, or the counter in decimal,
    /// in which case the counter moves on.
    fn take_label(&mut self, label: Option<String>) -> (l: String)
        requires
            old(self)@.next_id + 1 <= usize::MAX,
        ensures
            (l@, final(self)@.next_id) == label_choice(
                old(self)@,
                match label {
                    Some(s) => Some(s@),
                    None => None,
                },
            ),
            final(self)@ == with_next_id(old(self)@, final(self)@.next_id),
    {
        match label {
            Some(l) => l,
            None => {
                let l = decimal_string(self.current_id);
                self.current_id = self.current_id + 1;
                l
            },
        }
    }

    /// Registers `label` under the counter and stores its item there, when the
    /// label is new; refuses a label that is present.
    fn register_and_store(&mut self, label: String, metadata: Option<Metadata>) -> (r: Result<
        usize,
        IndexError,
    >)
        requires
            old(self)@.next_id + 1 <= usize::MAX,
        ensures
            old(self)@.labels.contains_key(label@) ==> r is Err && r->Err_0@ == Refusal::LabelExists(
                label@,
            ) && final(self)@ == old(self)@,
            !old(self)@.labels.contains_key(label@) ==> r == Ok::<usize, IndexError>(
                old(self)@.next_id,
            ) && final(self)@ == stored(
                registered(old(self)@, label@, old(self)@.next_id),
                old(self)@.next_id,
                ItemView {
                    label: label@,
                    metadata: match metadata {
                        Some(m) => Some(metadata_view(m)),
                        None => None,
                    },
                },
            ),
    {
        if self.label_to_id.contains_key(&label) {
            return Err(IndexError::LabelExists(label));
        }
        let id = self.current_id;
        self.label_to_id.insert(label.clone(), id);
        self.current_id = id + 1;
        let item = ItemMetadata { label, metadata };
        self.metadata_store.insert(id, item);
        proof {
            assert(self@.items =~= old(self)@.items.insert(id, item@));
            assert(self@ =~= stored(registered(old(self)@, item.label@, id), id, item@));
        }
        Ok(id)
    }

    /// Adds one item: checks its vector, takes its label, and registers the
    /// label and stores the item under a fresh id, which it returns.
    pub fn add_item(&mut self, vector: VectorRead, label: Read<String>, metadata: Read<Metadata>) -> (r:
        Result<usize, IndexError>)
        requires
            old(self)@.next_id + 2 <= usize::MAX,
        ensures
            (final(self)@, result_view(r)) == add_item_outcome(old(self)@, vector, label, metadata),
    {
        if vector.len != self.dim {
            return Err(IndexError::DimensionMismatch { expected: self.dim, got: vector.len });
        }
        if !vector.values_ok {
            return Err(IndexError::Unreadable(Unreadable::Vector { row: 0 }));
        }
        let label = match label {
            Read::Given(s) => Some(s),
            _ => None,
        };
        let label = self.take_label(label);
        let metadata = match metadata {
            Read::Invalid => return Err(IndexError::Unreadable(Unreadable::Metadata)),
            Read::Absent => None,
            Read::Given(m) => Some(m),
        };
        self.register_and_store(label, metadata)
    }

    /// Adds a batch: registers the label of each row in order, and when every
    /// row is accepted stores an item without metadata for each and returns
    /// their ids in row order. At the first refused row it stops; the labels
    /// of the rows before it stay registered, and no item is stored.
    pub fn add_batch(&mut self, rows: Vec<BatchRow>) -> (r: Result<Vec<usize>, IndexError>)
        requires
            old(self)@.next_id + 2 * rows@.len() <= usize::MAX,
        ensures
            (final(self)@, match r {
                Ok(ids) => Ok(ids@),
                Err(e) => Err(e@),
            }) == add_batch_outcome(old(self)@, rows@),
    {
        let ghost v0 = self@;
        let n = rows.len();
        let mut regs: Vec<(usize, String)> = Vec::new();
        let mut i: usize = 0;
        proof {
            assert(rows@.take(0) =~= Seq::<BatchRow>::empty());
            assert(id_label_pairs(regs@) =~= Seq::<(usize, Seq<char>)>::empty());
        }
        while i < n
            invariant
                n == rows@.len(),
                i <= n,
                v0 == old(self)@,
                v0.next_id + 2 * n <= usize::MAX,
                register_rows(v0, rows@.take(i as int)) == Ok::<
                    (IndexView, Seq<(usize, Seq<char>)>),
                    (IndexView, Refusal),
                >((self@, id_label_pairs(regs@))),
                self@.next_id <= v0.next_id + 2 * i,
                self@.items == v0.items,
                self@.dim == v0.dim,
            decreases n - i,
        {
            let ghost w = self@;
            proof {
                assert(rows@.take(i + 1).drop_last() =~= rows@.take(i as int));
                assert(rows@.take(i + 1).last() == rows@[i as int]);
            }
            let row = &rows[i];
            let vector = match row.vector {
                None => {
                    proof {
                        lemma_register_rows_refused(v0, rows@, i + 1);
                    }
                    return Err(IndexError::Unreadable(Unreadable::Vector { row: i }));
                },
                Some(vr) => vr,
            };
            if vector.len != self.dim {
                proof {
                    lemma_register_rows_refused(v0, rows@, i + 1);
                }
                return Err(IndexError::DimensionMismatch { expected: self.dim, got: vector.len });
            }
            if !vector.values_ok {
                proof {
                    lemma_register_rows_refused(v0, rows@, i + 1);
                }
                return Err(IndexError::Unreadable(Unreadable::Vector { row: i }));
            }
            let label = match &row.label {
                Read::Invalid => {
                    proof {
                        lemma_register_rows_refused(v0, rows@, i + 1);
                    }
                    return Err(IndexError::Unreadable(Unreadable::Label { row: i }));
                },
                Read::Absent => None,
                Read::Given(s) => Some(s.clone()),
            };
            let label = self.take_label(label);
            if self.label_to_id.contains_key(&label) {
                proof {
                    lemma_register_rows_refused(v0, rows@, i + 1);
                }
                return Err(IndexError::LabelExists(label));
            }
            let id = self.current_id;
            self.label_to_id.insert(label.clone(), id);
            self.current_id = id + 1;
            let ghost regs_before = regs@;
            let ghost lab = label@;
            regs.push((id, label));
            proof {
                assert(self@ =~= registered(w, lab, id));
                assert(id_label_pairs(regs@) =~= id_label_pairs(regs_before).push((id, lab)));
            }
            i = i + 1;
        }
        assert(rows@.take(n as int) =~= rows@);
        let ghost w = self@;
        let ghost rv = id_label_pairs(regs@);
        let mut ids: Vec<usize> = Vec::new();
        let mut j: usize = 0;
        while j < regs.len()
            invariant
                j <= regs@.len(),
                rv == id_label_pairs(regs@),
                register_rows(old(self)@, rows@) == Ok::<
                    (IndexView, Seq<(usize, Seq<char>)>),
                    (IndexView, Refusal),
                >((w, rv)),
                self@ == store_rows(w, rv.take(j as int)),
                ids@ == rv.take(j as int).map_values(|p: (usize, Seq<char>)| p.0),
            decreases regs@.len() - j,
        {
            let id = regs[j].0;
            let item = ItemMetadata { label: regs[j].1.clone(), metadata: None };
            let ghost before = self@;
            self.metadata_store.insert(id, item);
            ids.push(id);
            proof {
                assert(rv.take(j + 1).drop_last() =~= rv.take(j as int));
                assert(self@ =~= stored(before, id, item@));
                assert(ids@ =~= rv.take(j + 1).map_values(|p: (usize, Seq<char>)| p.0));
            }
            j = j + 1;
        }
        proof {
            assert(rv.take(regs@.len() as int) =~= rv);
        }
        Ok(ids)
    }

    /// Prepares a search for `query`: checks it against the index, replaces
    /// the search width when one is given, and says how many neighbours to
    /// ask the graph for and how wide to search.
    pub fn prepare_search(&mut self, query: VectorRead, k: Option<usize>, ef: Option<usize>) -> (r:
        Result<SearchPlan, IndexError>)
        ensures
            (final(self)@, result_view(r)) == prepare_search_outcome(old(self)@, query, k, ef),
    {
        if query.len != self.dim {
            return Err(IndexError::DimensionMismatch { expected: self.dim, got: query.len });
        }
        if !query.values_ok {
            return Err(IndexError::Unreadable(Unreadable::Vector { row: 0 }));
        }
        match ef {
            Some(e) => {
                self.ef_search = e;
            },
            None => {},
        }
        let k = match k {
            Some(x) => x,
            None => 10,
        };
        Ok(SearchPlan { k, ef: self.ef_search })
    }

    /// The stored item with id `id`.
    fn item(&self, id: usize) -> (r: Option<&ItemMetadata>)
        ensures
            r.is_some() == self@.items.contains_key(id),
            r.is_some() ==> r.unwrap()@ == self@.items[id],
    {
        self.metadata_store.get(id)
    }

    /// The labels of the neighbours that have a stored item, in the order of
    /// `ids`, with their positions in `ids`.
    pub fn neighbour_labels(&self, ids: &Vec<usize>) -> (hits: Vec<Hit>)
        ensures
            hits@.len() == found_positions(self@.items, ids@).len(),
            forall|j: int|
                0 <= j < hits@.len() ==> {
                    let p = found_positions(self@.items, ids@)[j];
                    &&& #[trigger] hits@[j].position == p
                    &&& hits@[j].label@ == self@.items[ids@[p]].label
                },
    {
        let mut hits: Vec<Hit> = Vec::new();
        let n = ids.len();
        let mut i: usize = 0;
        let ghost mut found: Seq<int> = Seq::empty();
        proof {
            assert(ids@.take(0) =~= Seq::<usize>::empty());
        }
        while i < n
            invariant
                n == ids@.len(),
                i <= n,
                found == found_positions(self@.items, ids@.take(i as int)),
                forall|j: int| 0 <= j < found.len() ==> 0 <= #[trigger] found[j] < i,
                hits@.len() == found.len(),
                forall|j: int|
                    0 <= j < hits@.len() ==> hit_matches(#[trigger] hits@[j], found[j], self@.items, ids@),
            decreases n - i,
        {
            proof {
                assert(ids@.take(i + 1).drop_last() =~= ids@.take(i as int));
                assert(ids@.take(i + 1).last() == ids@[i as int]);
            }
            match self.item(ids[i]) {
                Some(item) => {
                    let ghost before = hits@;
                    let hit = Hit { position: i, label: item.label.clone() };
                    hits.push(hit);
                    proof {
                        found = found.push(i as int);
                        assert forall|j: int| 0 <= j < hits@.len() implies hit_matches(
                            #[trigger] hits@[j],
                            found[j],
                            self@.items,
                            ids@,
                        ) by {
                            if j < before.len() {
                                assert(hits@[j] == before[j]);
                            } else {
                                assert(hits@[j] == hit);
                            }
                        }
                    }
                },
                None => {},
            }
            i = i + 1;
        }
        proof {
            assert(ids@.take(n as int) =~= ids@);
        }
        hits
    }

    /// The labels and metadata of the neighbours that have a stored item, in
    /// the order of `ids`, with their positions in `ids`.
    pub fn neighbour_records(&self, ids: &Vec<usize>) -> (records: Vec<Record>)
        ensures
            records@.len() == found_positions(self@.items, ids@).len(),
            forall|j: int|
                0 <= j < records@.len() ==> {
                    let p = found_positions(self@.items, ids@)[j];
                    &&& #[trigger] records@[j].position == p
                    &&& records@[j].label@ == self@.items[ids@[p]].label
                    &&& string_string_pairs(records@[j].metadata@) == shown_metadata(
                        self@.items[ids@[p]],
                    )
                    &&& self@.items[ids@[p]].metadata matches Some(m) ==> string_string_pairs(
                        records@[j].metadata@,
                    ) == m
                },
    {
        let mut records: Vec<Record> = Vec::new();
        let n = ids.len();
        let mut i: usize = 0;
        let ghost mut found: Seq<int> = Seq::empty();
        proof {
            assert(ids@.take(0) =~= Seq::<usize>::empty());
        }
        while i < n
            invariant
                n == ids@.len(),
                i <= n,
                found == found_positions(self@.items, ids@.take(i as int)),
                forall|j: int| 0 <= j < found.len() ==> 0 <= #[trigger] found[j] < i,
                records@.len() == found.len(),
                forall|j: int|
                    0 <= j < records@.len() ==> record_matches(
                        #[trigger] records@[j],
                        found[j],
                        self@.items,
                        ids@,
                    ),
            decreases n - i,
        {
            proof {
                assert(ids@.take(i + 1).drop_last() =~= ids@.take(i as int));
                assert(ids@.take(i + 1).last() == ids@[i as int]);
            }
            match self.item(ids[i]) {
                Some(item) => {
                    let metadata = match &item.metadata {
                        Some(m) => metadata_pairs(m),
                        None => {
                            let v: Vec<(String, String)> = Vec::new();
                            proof {
                                assert(string_string_pairs(v@) =~= Seq::<(Seq<char>, Seq<char>)>::empty());
                            }
                            v
                        },
                    };
                    let ghost before = records@;
                    let record = Record { position: i, label: item.label.clone(), metadata };
                    records.push(record);
                    proof {
                        found = found.push(i as int);
                        assert forall|j: int| 0 <= j < records@.len() implies record_matches(
                            #[trigger] records@[j],
                            found[j],
                            self@.items,
                            ids@,
                        ) by {
                            if j < before.len() {
                                assert(records@[j] == before[j]);
                            } else {
                                assert(records@[j] == record);
                            }
                        }
                    }
                },
                None => {},
            }
            i = i + 1;
        }
        proof {
            assert(ids@.take(n as int) =~= ids@);
        }
        records
    }

    /// The dimension, distance name, search width and size of the index.
    pub fn config(&self) -> (c: IndexConfig)
        ensures
            c.dim == self@.dim,
            c.space@ == space_name(self@.space),
            c.ef == self@.ef_search,
            c.size == self@.items.len(),
    {
        IndexConfig { dim: self.dim, space: self.space.name(), ef: self.ef_search, size: self.size() }
    }

    /// The size, dimension and search width of the index.
    pub fn stats(&self) -> (s: IndexStats)
        ensures
            s.size == self@.items.len(),
            s.dim == self@.dim,
            s.ef_search == self@.ef_search,
    {
        IndexStats { size: self.size(), dim: self.dim, ef_search: self.ef_search }
    }

    /// What to save of the index.
    pub fn saved_state(&self) -> (s: SavedState)
        ensures
            describes(s, self@),
    {
        let entries = self.metadata_store.entries();
        let n = entries.len();
        let mut items: Vec<(usize, ItemMetadata)> = Vec::new();
        let mut i: usize = 0;
        while i < n
            invariant
                n == entries@.len(),
                i <= n,
                saved_items(items@) == saved_items(entries@).take(i as int),
            decreases n - i,
        {
            let ghost before = items@;
            let id = entries[i].0;
            let item = entries[i].1.duplicate();
            items.push((id, item));
            proof {
                assert(saved_items(before).len() == i);
                assert forall|j: int| 0 <= j < i implies #[trigger] saved_items(items@)[j]
                    == saved_items(entries@)[j] by {
                    assert(items@[j] == before[j]);
                    assert(saved_items(before)[j] == saved_items(entries@).take(i as int)[j]);
                }
                assert(saved_items(items@) =~= saved_items(entries@).take(i + 1));
            }
            i = i + 1;
        }
        proof {
            assert(saved_items(entries@).take(n as int) =~= saved_items(entries@));
            lemma_map_pair_values(entries@, |m: ItemMetadata| m@);
            assert(self@.items =~= pairs_map(entries@).map_values(|m: ItemMetadata| m@));
        }
        let label_entries = self.label_to_id.entries();
        let n = label_entries.len();
        let mut labels: Vec<(String, usize)> = Vec::new();
        let mut i: usize = 0;
        while i < n
            invariant
                n == label_entries@.len(),
                i <= n,
                labels@ == label_entries@.take(i as int),
            decreases n - i,
        {
            let label = label_entries[i].0.clone();
            labels.push((label, label_entries[i].1));
            proof {
                assert(labels@ =~= label_entries@.take(i + 1));
            }
            i = i + 1;
        }
        proof {
            assert(label_entries@.take(n as int) =~= label_entries@);
        }
        SavedState {
            items,
            labels,
            current_id: self.current_id,
            dim: self.dim,
            space: self.space.name(),
        }
    }

    /// Loads the bookkeeping of an index from a saved state: inserts its items
    /// and labels in order, takes its counter and dimension, reads its distance
    /// from its name, and sets the search width to 200.
    pub fn restore(saved: SavedState) -> (r: Result<HnswIndex, IndexError>)
        ensures
            match r {
                Ok(x) => restore_outcome(saved) == Ok::<IndexView, Refusal>(x@),
                Err(e) => restore_outcome(saved) == Err::<IndexView, Refusal>(e@),
            },
    {
        let space = match DistanceType::from_saved_name(&saved.space) {
            Some(d) => d,
            None => return Err(IndexError::UnknownSavedSpace),
        };
        let mut store: IdMap<ItemMetadata> = IdMap::new();
        let n = saved.items.len();
        let mut i: usize = 0;
        proof {
            assert(store@.map_values(|m: ItemMetadata| m@) =~= Map::<usize, ItemView>::empty());
        }
        while i < n
            invariant
                n == saved.items@.len(),
                i <= n,
                store@.map_values(|m: ItemMetadata| m@) == fold_insert(
                    Map::<usize, ItemView>::empty(),
                    saved_items(saved.items@).take(i as int),
                ),
            decreases n - i,
        {
            let ghost before = store@;
            let id = saved.items[i].0;
            let item = saved.items[i].1.duplicate();
            store.insert(id, item);
            proof {
                let t = saved_items(saved.items@).take(i + 1);
                assert(t.drop_last() =~= saved_items(saved.items@).take(i as int));
                assert(t.last() == (id, item@));
                assert(store@.map_values(|m: ItemMetadata| m@) =~= before.map_values(
                    |m: ItemMetadata| m@,
                ).insert(id, item@));
            }
            i = i + 1;
        }
        proof {
            assert(saved_items(saved.items@).take(n as int) =~= saved_items(saved.items@));
        }
        let mut labels: StrMap<usize> = StrMap::new();
        let n = saved.labels.len();
        let mut i: usize = 0;
        proof {
            assert(string_pairs(saved.labels@).take(0) =~= Seq::<(Seq<char>, usize)>::empty());
        }
        while i < n
            invariant
                n == saved.labels@.len(),
                i <= n,
                labels@ == fold_insert(
                    Map::<Seq<char>, usize>::empty(),
                    string_pairs(saved.labels@).take(i as int),
                ),
            decreases n - i,
        {
            let label = saved.labels[i].0.clone();
            let id = saved.labels[i].1;
            labels.insert(label, id);
            proof {
                let t = string_pairs(saved.labels@).take(i + 1);
                assert(t.drop_last() =~= string_pairs(saved.labels@).take(i as int));
            }
            i = i + 1;
        }
        proof {
            assert(string_pairs(saved.labels@).take(n as int) =~= string_pairs(saved.labels@));
        }
        let index = HnswIndex {
            dim: saved.dim,
            space,
            metadata_store: store,
            current_id: saved.current_id,
            label_to_id: labels,
            ef_search: 200,
        };
        Ok(index)
    }

    /// Number of stored items.
    pub fn size(&self) -> (n: usize)
        ensures
            n == self@.items.len(),
            self@.items.dom().finite(),
    {
        let n = self.metadata_store.len();
        proof {
            assert(self@.items.dom() =~= self.metadata_store@.dom());
        }
        n
    }

    /// Whether no item is stored.
    pub fn empty(&self) -> (b: bool)
        ensures
            b == (self@.items.len() == 0),
    {
        self.size() == 0
    }

    /// Sets the width of later searches.
    pub fn set_ef(&mut self, ef: usize)
        ensures
            final(self)@ == (IndexView { ef_search: ef, ..old(self)@ }),
    {
        self.ef_search = ef;
    }
}

/// A copy of the pairs of `m`, in their order.
fn metadata_pairs(m: &Metadata) -> (r: Vec<(String, String)>)
    ensures
        string_string_pairs(r@) == metadata_view(*m),
{
    let entries = m.entries();
    let n = entries.len();
    let mut out: Vec<(String, String)> = Vec::new();
    let mut i: usize = 0;
    while i < n
        invariant
            n == entries@.len(),
            string_pairs(entries@) == m.pairs(),
            i <= n,
            string_string_pairs(out@) == metadata_view(*m).take(i as int),
        decreases n - i,
    {
        let ghost before = out@;
        let key = entries[i].0.clone();
        let value = entries[i].1.clone();
        out.push((key, value));
        proof {
            assert(metadata_view(*m).len() == n);
            assert(string_string_pairs(before).len() == i);
            assert(before.len() == i);
            assert(m.pairs()[i as int] == (entries@[i as int].0@, entries@[i as int].1));
            assert forall|j: int| 0 <= j < i implies #[trigger] string_string_pairs(out@)[j]
                == metadata_view(*m)[j] by {
                assert(out@[j] == before[j]);
                assert(string_string_pairs(before)[j] == metadata_view(*m).take(i as int)[j]);
            }
            assert(string_string_pairs(out@) =~= metadata_view(*m).take(i + 1));
        }
        i = i + 1;
    }
    proof {
        assert(metadata_view(*m).take(n as int) =~= metadata_view(*m));
    }
    out
}

} // verus!
