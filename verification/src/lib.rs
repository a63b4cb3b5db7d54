//! Hydration reconciliation: walking server-rendered markup and the client's
//! expected node tree in lockstep, pairing each expected node with the live
//! node that stands at its position and reporting every disagreement.
//!
//! The parts, leaves first:
//!
//! - [`identity`]: identifiers of positions in the render tree.
//! - [`boundary`] and [`seeding`]: the phase of each suspense boundary, and
//!   how a client takes it from the markers of the document.
//! - [`node`], [`builder`] and [`cursor`]: the two trees, the lazy builder of
//!   the expected one and the cursors over the live one.
//! - [`mismatch`]: the records of what disagreed.
//! - [`machine`] and [`walker`]: the walk as a state machine, and the walker
//!   that takes its steps; [`progress`] shows that the walk ends and
//!   [`hydrate`] is hydration as one call.
//! - [`outcome`] and [`equivalence`]: what a hydration finds, said of the two
//!   trees at once, and that the walker finds exactly that.
//! - [`mirror`], [`laws`], [`order`] and [`agreement`]: what holds of every
//!   walk.

pub mod agreement;
pub mod boundary;
pub mod builder;
pub mod cursor;
pub mod equivalence;
pub mod hydrate;
pub mod identity;
pub mod laws;
pub mod machine;
pub mod mirror;
pub mod mismatch;
pub mod node;
pub mod order;
pub mod outcome;
pub mod progress;
pub mod seeding;
pub mod walker;
