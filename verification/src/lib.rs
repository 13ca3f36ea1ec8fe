//! Harvests a catalogue of exam topics and their exercises from structural
//! (HTML) documents and assembles, per topic, the query link that a remote
//! PDF renderer consumes.
//!
//! The extraction and assembly logic lives here, fully verified; fetching the
//! documents over the network and writing the rendered bytes to disk are I/O
//! concerns left to the surrounding application.

use vstd::prelude::*;

pub mod html;
pub mod laws;
pub mod link;
pub mod model;
pub mod order;

verus! {

/// A structurally required attribute was absent where the page contract
/// guarantees its presence. The page contract is assumed stable, so this is
/// fatal: callers abort the whole run rather than recover.
#[derive(Clone, Copy, PartialEq, Eq, Structural, Debug)]
pub enum ExtractError {
    /// A topic listing element lacked its `id` attribute.
    MissingTopicId,
    /// An exercise row's input control lacked its `value` attribute.
    MissingExerciseValue,
}

} // verus!
