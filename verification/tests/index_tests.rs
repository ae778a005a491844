use clusterkit::error::{ErrorKind, IndexError, Unreadable};
use clusterkit::index::{
    BatchRow, DistanceType, GraphParams, HnswIndex, IndexOptions, ItemMetadata, Metadata, Read,
    SavedState, SearchPlan, VectorRead,
};
use clusterkit::strmap::StrMap;

fn options(dim: usize) -> IndexOptions {
    IndexOptions {
        dim: Read::Given(dim),
        space: Read::Absent,
        max_elements: None,
        m: None,
        ef_construction: None,
        random_seed: None,
    }
}

fn index(dim: usize) -> HnswIndex {
    HnswIndex::new(options(dim)).ok().unwrap().0
}

fn vector(len: usize) -> VectorRead {
    VectorRead { len, values_ok: true }
}

fn labels_of(index: &HnswIndex, ids: &Vec<usize>) -> Vec<(usize, String)> {
    index.neighbour_labels(ids).into_iter().map(|h| (h.position, h.label)).collect()
}

#[test]
fn new_index_uses_defaults() {
    let (index, params) = HnswIndex::new(options(3)).ok().unwrap();
    assert_eq!(
        params,
        GraphParams {
            max_nb_connection: 16,
            max_elements: 10000,
            max_layer: 16,
            ef_construction: 200,
            random_seed: None,
        }
    );
    assert_eq!(index.size(), 0);
    assert!(index.empty());
    let stats = index.stats();
    assert_eq!((stats.size, stats.dim, stats.ef_search), (0, 3, 200));
    let config = index.config();
    assert_eq!((config.dim, config.space.as_str(), config.ef, config.size), (3, "euclidean", 200, 0));
    assert_eq!(index.next_id(), 0);
}

#[test]
fn new_index_takes_given_options() {
    let o = IndexOptions {
        dim: Read::Given(8),
        space: Read::Given("euclidean".to_string()),
        max_elements: Some(500),
        m: Some(32),
        ef_construction: Some(64),
        random_seed: Some(42),
    };
    let (index, params) = HnswIndex::new(o).ok().unwrap();
    assert_eq!(
        params,
        GraphParams {
            max_nb_connection: 32,
            max_elements: 500,
            max_layer: 16,
            ef_construction: 64,
            random_seed: Some(42),
        }
    );
    assert_eq!(index.stats().ef_search, 64);
}

#[test]
fn new_index_refusals() {
    let mut o = options(3);
    o.dim = Read::Absent;
    assert_eq!(HnswIndex::new(o).err(), Some(IndexError::DimRequired));
    let mut o = options(3);
    o.dim = Read::Invalid;
    assert_eq!(HnswIndex::new(o).err(), Some(IndexError::DimNotInteger));
    assert_eq!(HnswIndex::new(options(0)).err(), Some(IndexError::DimZero));
    let mut o = options(3);
    o.space = Read::Invalid;
    assert_eq!(HnswIndex::new(o).err(), Some(IndexError::SpaceNotText));
    let mut o = options(3);
    o.space = Read::Given("cosine".to_string());
    assert_eq!(HnswIndex::new(o).err(), Some(IndexError::CosineUnsupported));
    let mut o = options(3);
    o.space = Read::Given("inner_product".to_string());
    assert_eq!(HnswIndex::new(o).err(), Some(IndexError::InnerProductUnsupported));
    let mut o = options(3);
    o.space = Read::Given("manhattan".to_string());
    assert_eq!(HnswIndex::new(o).err(), Some(IndexError::UnknownSpace("manhattan".to_string())));
}

#[test]
fn refusal_messages() {
    let (k, m) = IndexError::UnknownSpace("manhattan".to_string()).describe().unwrap();
    assert_eq!(k, ErrorKind::ArgumentError);
    assert_eq!(m, "space must be :euclidean, :cosine, or :inner_product (got: manhattan)");
    let (k, m) = IndexError::DimensionMismatch { expected: 3, got: 12 }.describe().unwrap();
    assert_eq!(k, ErrorKind::ArgumentError);
    assert_eq!(m, "Vector dimension mismatch: expected 3, got 12");
    let (k, m) = IndexError::LabelExists("doc-1".to_string()).describe().unwrap();
    assert_eq!(k, ErrorKind::ArgumentError);
    assert_eq!(m, "Label 'doc-1' already exists in index");
    let (k, m) = IndexError::CosineUnsupported.describe().unwrap();
    assert_eq!(k, ErrorKind::RuntimeError);
    assert_eq!(m, "Cosine distance is not yet implemented, please use :euclidean");
    let (k, m) = IndexError::SpaceNotText.describe().unwrap();
    assert_eq!(k, ErrorKind::TypeError);
    assert_eq!(m, "space must be a string or symbol");
    assert_eq!(IndexError::DimZero.describe().unwrap().1, "dim must be a positive integer (got 0)");
    assert_eq!(IndexError::UnknownSavedSpace.describe().unwrap().1, "Unknown distance type in saved file");
    assert!(IndexError::Unreadable(Unreadable::Metadata).describe().is_none());
}

#[test]
fn automatic_label_takes_the_counter_and_the_id_the_next() {
    let mut index = index(2);
    assert_eq!(index.add_item(vector(2), Read::Absent, Read::Absent), Ok(1));
    assert_eq!(index.next_id(), 2);
    assert_eq!(labels_of(&index, &vec![1]), vec![(0, "0".to_string())]);
    assert_eq!(index.add_item(vector(2), Read::Invalid, Read::Absent), Ok(3));
    assert_eq!(labels_of(&index, &vec![3, 1]), vec![(0, "2".to_string()), (1, "0".to_string())]);
    assert_eq!(index.size(), 2);
}

#[test]
fn given_label_is_stored_under_the_counter() {
    let mut index = index(2);
    assert_eq!(index.add_item(vector(2), Read::Given("a".to_string()), Read::Absent), Ok(0));
    assert_eq!(index.add_item(vector(2), Read::Given("b".to_string()), Read::Absent), Ok(1));
    assert_eq!(index.next_id(), 2);
    assert_eq!(
        labels_of(&index, &vec![1, 7, 0]),
        vec![(0, "b".to_string()), (2, "a".to_string())]
    );
}

#[test]
fn duplicate_label_is_refused() {
    let mut index = index(2);
    assert_eq!(index.add_item(vector(2), Read::Given("a".to_string()), Read::Absent), Ok(0));
    assert_eq!(
        index.add_item(vector(2), Read::Given("a".to_string()), Read::Absent),
        Err(IndexError::LabelExists("a".to_string()))
    );
    assert_eq!(index.size(), 1);
    assert_eq!(index.next_id(), 1);
}

#[test]
fn automatic_label_clash_still_moves_the_counter() {
    let mut index = index(1);
    assert_eq!(index.add_item(vector(1), Read::Given("1".to_string()), Read::Absent), Ok(0));
    assert_eq!(
        index.add_item(vector(1), Read::Absent, Read::Absent),
        Err(IndexError::LabelExists("1".to_string()))
    );
    assert_eq!(index.next_id(), 2);
    assert_eq!(index.add_item(vector(1), Read::Absent, Read::Absent), Ok(3));
}

#[test]
fn vector_checks_come_first() {
    let mut index = index(3);
    assert_eq!(
        index.add_item(vector(2), Read::Absent, Read::Invalid),
        Err(IndexError::DimensionMismatch { expected: 3, got: 2 })
    );
    assert_eq!(
        index.add_item(VectorRead { len: 3, values_ok: false }, Read::Absent, Read::Absent),
        Err(IndexError::Unreadable(Unreadable::Vector { row: 0 }))
    );
    assert_eq!(index.next_id(), 0);
    assert_eq!(index.check_vector(vector(3)), Ok(()));
    assert_eq!(
        index.check_vector(vector(4)),
        Err(IndexError::DimensionMismatch { expected: 3, got: 4 })
    );
}

#[test]
fn unreadable_metadata_after_automatic_label() {
    let mut index = index(1);
    assert_eq!(
        index.add_item(vector(1), Read::Absent, Read::Invalid),
        Err(IndexError::Unreadable(Unreadable::Metadata))
    );
    assert_eq!(index.next_id(), 1);
    assert_eq!(index.size(), 0);
}

#[test]
fn metadata_is_kept_and_shown() {
    let mut index = index(1);
    let mut meta: Metadata = StrMap::new();
    meta.insert("color".to_string(), "red".to_string());
    meta.insert("size".to_string(), "3".to_string());
    meta.insert("color".to_string(), "blue".to_string());
    assert_eq!(meta.len(), 2);
    assert_eq!(meta.get(&"color".to_string()), Some(&"blue".to_string()));
    assert_eq!(index.add_item(vector(1), Read::Given("x".to_string()), Read::Given(meta)), Ok(0));
    assert_eq!(index.add_item(vector(1), Read::Given("y".to_string()), Read::Absent), Ok(1));
    let records = index.neighbour_records(&vec![1, 0, 9]);
    assert_eq!(records.len(), 2);
    assert_eq!((records[0].position, records[0].label.as_str()), (0, "y"));
    assert!(records[0].metadata.is_empty());
    assert_eq!((records[1].position, records[1].label.as_str()), (1, "x"));
    assert_eq!(
        records[1].metadata,
        vec![
            ("color".to_string(), "blue".to_string()),
            ("size".to_string(), "3".to_string())
        ]
    );
}

#[test]
fn batch_with_labels_and_without() {
    let mut index = index(2);
    let rows = vec![
        BatchRow { vector: Some(vector(2)), label: Read::Given("a".to_string()) },
        BatchRow { vector: Some(vector(2)), label: Read::Given("b".to_string()) },
    ];
    assert_eq!(index.add_batch(rows), Ok(vec![0, 1]));
    let rows = vec![
        BatchRow { vector: Some(vector(2)), label: Read::Absent },
        BatchRow { vector: Some(vector(2)), label: Read::Absent },
    ];
    assert_eq!(index.add_batch(rows), Ok(vec![3, 5]));
    assert_eq!(index.size(), 4);
    assert_eq!(
        labels_of(&index, &vec![0, 1, 3, 5]),
        vec![
            (0, "a".to_string()),
            (1, "b".to_string()),
            (2, "2".to_string()),
            (3, "4".to_string())
        ]
    );
}

#[test]
fn refused_batch_keeps_earlier_labels_but_stores_nothing() {
    let mut index = index(2);
    let rows = vec![
        BatchRow { vector: Some(vector(2)), label: Read::Given("a".to_string()) },
        BatchRow { vector: Some(vector(3)), label: Read::Given("b".to_string()) },
    ];
    assert_eq!(
        index.add_batch(rows),
        Err(IndexError::DimensionMismatch { expected: 2, got: 3 })
    );
    assert_eq!(index.size(), 0);
    assert_eq!(index.next_id(), 1);
    assert_eq!(
        index.add_item(vector(2), Read::Given("a".to_string()), Read::Absent),
        Err(IndexError::LabelExists("a".to_string()))
    );
}

#[test]
fn batch_refusals_name_the_row() {
    let mut index = index(2);
    let rows = vec![
        BatchRow { vector: Some(vector(2)), label: Read::Given("a".to_string()) },
        BatchRow { vector: None, label: Read::Given("b".to_string()) },
    ];
    assert_eq!(index.add_batch(rows), Err(IndexError::Unreadable(Unreadable::Vector { row: 1 })));
    let rows = vec![BatchRow { vector: Some(vector(2)), label: Read::Invalid }];
    assert_eq!(index.add_batch(rows), Err(IndexError::Unreadable(Unreadable::Label { row: 0 })));
    let rows = vec![
        BatchRow { vector: Some(vector(2)), label: Read::Given("c".to_string()) },
        BatchRow { vector: Some(vector(2)), label: Read::Given("c".to_string()) },
    ];
    assert_eq!(index.add_batch(rows), Err(IndexError::LabelExists("c".to_string())));
    assert_eq!(index.size(), 0);
}

#[test]
fn search_plan_and_width() {
    let mut index = index(2);
    assert_eq!(index.prepare_search(vector(2), None, None), Ok(SearchPlan { k: 10, ef: 200 }));
    assert_eq!(index.prepare_search(vector(2), Some(3), Some(50)), Ok(SearchPlan { k: 3, ef: 50 }));
    assert_eq!(index.prepare_search(vector(2), Some(3), None), Ok(SearchPlan { k: 3, ef: 50 }));
    assert_eq!(
        index.prepare_search(vector(1), Some(3), Some(7)),
        Err(IndexError::DimensionMismatch { expected: 2, got: 1 })
    );
    assert_eq!(index.stats().ef_search, 50);
    index.set_ef(17);
    assert_eq!(index.prepare_search(vector(2), None, None), Ok(SearchPlan { k: 10, ef: 17 }));
    assert_eq!(index.config().ef, 17);
}

#[test]
fn save_then_restore_gives_the_index_back() {
    let mut index = index(2);
    let mut meta: Metadata = StrMap::new();
    meta.insert("k".to_string(), "v".to_string());
    index.add_item(vector(2), Read::Given("a".to_string()), Read::Given(meta)).unwrap();
    index.add_item(vector(2), Read::Absent, Read::Absent).unwrap();
    index.set_ef(33);
    let saved = index.saved_state();
    assert_eq!(saved.current_id, 3);
    assert_eq!(saved.dim, 2);
    assert_eq!(saved.space, "euclidean");
    assert_eq!(saved.items.len(), 2);
    assert_eq!(saved.labels.len(), 2);
    let restored = HnswIndex::restore(saved).ok().unwrap();
    assert_eq!(restored.size(), 2);
    assert_eq!(restored.next_id(), 3);
    assert_eq!(restored.stats().ef_search, 200);
    assert_eq!(
        labels_of(&restored, &vec![0, 2]),
        vec![(0, "a".to_string()), (1, "1".to_string())]
    );
    let records = restored.neighbour_records(&vec![0]);
    assert_eq!(records[0].metadata, vec![("k".to_string(), "v".to_string())]);
}

#[test]
fn restore_reads_the_distance_name() {
    let state = |space: &str| SavedState {
        items: vec![(4, ItemMetadata { label: "x".to_string(), metadata: None })],
        labels: vec![("x".to_string(), 4)],
        current_id: 5,
        dim: 3,
        space: space.to_string(),
    };
    assert_eq!(HnswIndex::restore(state("manhattan")).err(), Some(IndexError::UnknownSavedSpace));
    let r = HnswIndex::restore(state("cosine")).ok().unwrap();
    assert_eq!(r.config().space, "cosine");
    let r = HnswIndex::restore(state("inner_product")).ok().unwrap();
    assert_eq!(r.config().space, "inner_product");
    assert_eq!(labels_of(&r, &vec![4]), vec![(0, "x".to_string())]);
}

#[test]
fn distance_names() {
    assert_eq!(DistanceType::Euclidean.name(), "euclidean");
    assert_eq!(DistanceType::from_saved_name(&"cosine".to_string()), Some(DistanceType::Cosine));
    assert_eq!(DistanceType::from_saved_name(&"Cosine".to_string()), None);
}
