//! Walking the items of a crate into a database of definitions.

pub mod errors;
pub mod import_laws;
pub mod item_laws;
pub mod items;
pub mod laws;
pub mod locate;
pub mod paths;
pub mod phase;
pub mod place_laws;
pub mod scope;
pub mod source;
pub mod table;
pub mod view_laws;
pub mod walk;
