use vstd::prelude::*;

pub mod filter;
pub mod picker;
pub mod focus;
pub mod presets;
pub mod seqs;
pub mod settings;
pub mod snapshot;
pub mod state;
pub mod text;
pub mod window_list;
pub mod windows;

verus! {

} // verus!
