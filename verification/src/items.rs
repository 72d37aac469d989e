//! Directory entries: an entry has a name and a kind (file or folder).
//! Two entries are the same entry exactly when both fields agree.

use vstd::prelude::*;

verus! {

/// The kind of a directory entry: a plain file or a folder.
#[derive(Clone, Copy, Debug, PartialEq, Eq, Structural, Hash)]
pub enum Kind {
    File,
    Folder,
}

/// One directory entry, as observed in a single listing.
#[derive(Debug)]
pub struct Item {
    pub name: String,
    pub ty: Kind,
}

/// The mathematical value of an [`Item`]: its name as a character
/// sequence, and its kind.
pub ghost struct ItemModel {
    pub name: Seq<char>,
    pub ty: Kind,
}

impl View for Item {
    type V = ItemModel;

    open spec fn view(&self) -> ItemModel {
        ItemModel { name: self.name@, ty: self.ty }
    }
}

impl Item {
    /// Classifies one child of a listed directory: a folder when the
    /// metadata check said so, a plain file otherwise.
    pub fn from_listing(name: String, is_dir: bool) -> (i: Item)
        ensures
            i@.name == name@,
            i@.ty == (if is_dir {
                Kind::Folder
            } else {
                Kind::File
            }),
    {
        Item { name, ty: if is_dir { Kind::Folder } else { Kind::File } }
    }
}

impl Clone for Item {
    fn clone(&self) -> (r: Item)
        ensures
            r == *self,
    {
        Item { name: self.name.clone(), ty: self.ty }
    }
}

impl PartialEq for Item {
    fn eq(&self, other: &Item) -> (r: bool) {
        self.name == other.name && self.ty == other.ty
    }
}

impl vstd::std_specs::cmp::PartialEqSpecImpl for Item {
    open spec fn obeys_eq_spec() -> bool {
        true
    }

    open spec fn eq_spec(&self, other: &Item) -> bool {
        self@ == other@
    }
}

} // verus!
