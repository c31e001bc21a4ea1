//! Actions the tool asks the surrounding shell to perform after it exits.

use vstd::prelude::*;

verus! {

/// One shell action: change into a directory, or open a file in the
/// editor.
#[derive(Debug)]
pub enum ShellAction {
    Cd { path: String },
    EditFile { path: String },
}

} // verus!
