//! Place handles: a model of field projections in which every place
//! expression is represented by a handle that points into memory.
pub mod borrowck;
pub mod boxed;
pub mod cell;
pub mod deref;
pub mod envelope;
pub mod local;
pub mod mem;
pub mod memory;
pub mod ops;
pub mod option;
pub mod pin;
pub mod ptr;
pub mod reference;
pub mod subplace;
pub mod sync;
pub mod vec;
