//! The file storage: folders.

use vstd::prelude::*;

verus! {

#[derive(Clone, Eq, PartialEq, Ord, PartialOrd, Hash, Debug)]
pub struct FolderNode {
    pub id: i32,
    pub name: String,
    pub description: Option<String>,
    /// The amount of subfolders
    pub subfolders: i32,
}

impl FolderNode {
    pub fn new(
        id: i32,
        name: String,
        description: Option<String>,
        subfolders: i32,
    ) -> (node: FolderNode)
        ensures
            node.id == id,
            node.name == name,
            node.description == description,
            node.subfolders == subfolders,
    {
        Self { id, name, description, subfolders }
    }
}

} // verus!
