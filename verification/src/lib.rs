//! The runtime core of a Python interpreter, verified.
//!
//! The crate holds what every operation of such an interpreter rests on:
//!
//! - a reference-counted heap with a free list, cycle collection and limits that a
//!   [`resource::ResourceTracker`] sets ([`heap`], [`heap_access`], [`heap_lend`],
//!   [`heap_ops`], [`heap_arith`], [`heap_fields`]),
//! - interned literals ([`intern`], [`static_strings`]),
//! - equality, hashing, sizes and texts of values ([`equality`], [`hash`], [`measure`],
//!   [`repr`], [`operators`]), and what of the heap they read ([`walk`]),
//! - builtin modules and named tuples ([`modules`], [`types`]),
//! - argument binding and calls ([`args`], [`binding`], [`signature`], [`vm`]),
//! - laws that hold across functions, beside the functions that they are about and in
//!   modules of their own: of the heap ([`heap_laws`], [`storage_laws`], [`payload_laws`]),
//!   of values ([`equality_laws`], [`comparison_laws`], [`hash_laws`], [`digest_laws`],
//!   [`measure_laws`], [`repr_laws`], [`arithmetic_laws`], [`product_laws`]), of modules and
//!   named tuples ([`module_laws`], [`regex_laws`], [`name_laws`], [`type_laws`]), and of
//!   calls ([`binding_laws`], [`call_laws`], [`error_laws`]).
//!
//! What the heap counts is stated in [`heap_model`]: [`heap_model::outside`] is how many
//! references to an entry are held by nobody on the heap, and a heap is
//! [`heap_model::sound`] where that number is never negative. Contracts say which
//! references a function uses up and which it hands out.
//!
//! The methods of the builtin types, the event loop and the regex engine lie outside.
//! Functions that need them return a [`types::py_trait::NativeCall`].

pub mod args;
pub mod arithmetic_laws;
pub mod asyncio;
pub mod binding;
pub mod binding_laws;
pub mod builtins;
pub mod call_laws;
pub mod comparison_laws;
pub mod digest_laws;
pub mod equality;
pub mod equality_laws;
pub mod error_laws;
pub mod exceptions;
pub mod function;
pub mod growth;
pub mod hash;
pub mod hash_laws;
pub mod heap;
pub mod heap_access;
pub mod heap_arith;
pub mod heap_data;
pub mod heap_fields;
pub mod heap_laws;
pub mod heap_lend;
pub mod heap_model;
pub mod heap_ops;
pub mod intern;
pub mod iteration;
pub mod measure;
pub mod measure_laws;
pub mod module_laws;
pub mod modules;
pub mod name_laws;
pub mod operators;
pub mod os;
pub mod payload_laws;
pub mod product_laws;
pub mod regex_laws;
pub mod repr;
pub mod repr_laws;
pub mod resource;
pub mod signature;
pub mod static_strings;
pub mod storage_laws;
pub mod text;
pub mod type_laws;
pub mod types;
pub mod value;
pub mod vm;
pub mod walk;
