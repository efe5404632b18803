//! Vectors whose elements live in a key-addressed store and are resolved
//! lazily, slot by slot.
//!
//! A vector is a length and a backing array. The backing array belongs to a
//! region of the store and holds in memory only the slots that were written
//! or handed out for writing; every other slot is read from the store when
//! it is asked for. Nothing is written to the store before the vector is
//! pushed to it, and then only the slots held in memory are.
//!
//! - [`store`] and [`key_ptr`]: the cells and the cursor that moves through
//!   them.
//! - [`traits`]: what an element offers: a footprint, a pull, a push and a
//!   saturated value.
//! - [`lazy_array`]: the backing array.
//! - [`vec_model`]: a vector as a value, and what its operations do to it.
//! - [`smallvec`] and [`vec2`]: the bounded and the dynamic vector.
//! - [`iter`]: walks over a vector, for reading and for writing.
//! - [`laws`]: what holds of all vectors.

pub mod iter;
pub mod key_ptr;
pub mod laws;
pub mod lazy_array;
pub mod smallvec;
pub mod store;
pub mod traits;
pub mod vec2;
pub mod vec_model;
