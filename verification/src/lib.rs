//! Bookkeeping and validation logic of a clustering and nearest-neighbour toolkit.
pub mod keyed;
pub mod strmap;
pub mod idmap;
pub mod text;
pub mod error;
pub mod index;
pub mod index_laws;
pub mod shape;
pub mod clustering;
pub mod svd;
