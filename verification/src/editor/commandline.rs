//! The command line the editor is started with.
use vstd::prelude::*;

verus! {

/// The files to open.
#[derive(Debug)]
pub struct Cli {
    pub files: Vec<String>,
}

} // verus!
