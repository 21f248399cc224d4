//! An append-only container of heterogeneous elements with stable handles.
//!
//! The container keeps every element in its own arena slot; a [`traitvec::Handle`]
//! names a slot and stays usable across any number of later appends. Elements
//! leave only through `drain`, which invalidates exactly the handles of the
//! removed slots, or when the whole container is destroyed.

pub mod traitvec;
pub mod value;
pub mod laws;
