//! What holds of the library as a whole: laws that relate several of its functions,
//! stated over the functions' own specifications and proved from them.

pub mod bounds;
pub mod buffered;
pub mod caching;
pub mod formats;
pub mod json;
pub mod layouts;
pub mod lists;
pub mod naming;
pub mod order;
pub mod records;
pub mod relations;
pub mod tables;
pub mod texts;
pub mod values;
pub mod wire;

