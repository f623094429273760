pub mod catalog;

pub use catalog::{Catalog, CatalogView};
