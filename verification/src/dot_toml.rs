//! The shape of the persisted store: the launcher's configuration
//! document with its application header and the ordered list of quick
//! commands.
//!
//! Reading and writing the document on disk is the surrounding binary's
//! work; the core only consumes and produces these values.

use crate::quick_page::QuickItem;
use vstd::prelude::*;

verus! {

/// The application header of the configuration document.
#[derive(Debug)]
pub struct Application {
    pub name: String,
    pub version: String,
    pub author: String,
}

/// The whole configuration document: display and persistence order of
/// `quick` is significant.
#[derive(Debug)]
pub struct DotToml {
    pub path: String,
    pub application: Application,
    pub quick: Vec<QuickItem>,
}

} // verus!
