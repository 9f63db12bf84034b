//! Small shared values of the launcher's environment.

use vstd::prelude::*;

verus! {

/// What the launcher reads from its environment at startup: where the
/// configuration lives and which shell is in use. The surrounding
/// binary fills it in from the environment variables.
#[derive(Debug)]
pub struct Env {
    pub config_path: String,
    pub shell: String,
}

} // verus!
