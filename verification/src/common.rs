//! Plain record types shared across registry resources.

use vstd::prelude::*;

verus! {

/// A content-trust signature attached to a tag.
#[derive(Debug, Clone)]
pub struct Signature {
    pub description: String,
}

/// A label attached to a registry resource.
#[derive(Debug, Clone)]
pub struct Label {
    pub description: String,
    pub update_time: String,
    pub color: String,
    pub creation_time: String,
    pub deleted: bool,
    pub scope: String,
    pub project_id: u64,
    pub id: u64,
    pub name: String,
}

} // verus!
