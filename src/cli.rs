use vstd::prelude::*;

verus! {

/// What a run is asked to do: the folder to scan, how deep to walk it, and
/// whether to write the Markdown report into it.
pub struct Cli {
    pub folder: String,
    pub max_depth: usize,
    pub report: bool,
}

} // verus!
