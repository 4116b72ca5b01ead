//! Verified presentation and decision logic of the yoink web client.
use vstd::prelude::*;

pub mod text;
pub mod order;
pub mod seqs;
pub mod tracks;
pub mod merge;
pub mod session;
pub mod dialogs;
pub mod catalog;
pub mod jobs;
pub mod imports;
pub mod search;
pub mod styles;
pub mod editing;
pub mod candidates;
pub mod icons;

verus! {

} // verus!
