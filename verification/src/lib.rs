//! Two elementary generic containers with verified ordering behaviour:
//! a last-in-first-out [`lifo::Stack`] and a first-in-first-out
//! [`fifo::Queue`].
//!
//! Every container is modelled by the sequence of the elements it holds, in
//! the order in which they were inserted, and all contracts are stated over
//! that sequence. [`laws`] proves what follows for whole runs of insertions
//! and removals. [`demo`] fills both containers with the same run of
//! integers, drains them and renders what came out, with the help of
//! [`text`].

pub mod demo;
pub mod fifo;
pub mod laws;
pub mod lifo;
pub mod text;
