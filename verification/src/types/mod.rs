//! The Python types that live on the heap.

pub mod field_names;
pub mod identifiers;
pub mod long_int;
pub mod lookup;
pub mod mappings;
pub mod module;
pub mod namedtuple_args;
pub mod namedtuple_factory;
pub mod py_trait;
pub mod py_type;
pub mod scalars;
pub mod sequences;

pub use py_type::Type;
