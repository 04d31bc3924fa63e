//! What the file system shows of the themes directory.

use crate::models::theme::text;
use vstd::prelude::*;

verus! {

/// One entry of the themes directory.
#[derive(Debug)]
pub struct DirEntry {
    /// The entry's file name.
    pub name: String,
    /// Whether the entry is a directory, once symbolic links are followed.
    pub is_dir: bool,
    /// Where the entry points to, if it is itself a symbolic link.
    pub link_target: Option<String>,
}

/// What a [`DirEntry`] holds.
pub struct DirEntryView {
    pub name: Seq<char>,
    pub is_dir: bool,
    pub link_target: Option<Seq<char>>,
}

impl View for DirEntry {
    type V = DirEntryView;

    open spec fn view(&self) -> DirEntryView {
        DirEntryView {
            name: self.name@,
            is_dir: self.is_dir,
            link_target: text(self.link_target),
        }
    }
}

impl Clone for DirEntry {
    fn clone(&self) -> (r: Self)
        ensures
            r@ == self@,
    {
        DirEntry {
            name: self.name.clone(),
            is_dir: self.is_dir,
            link_target: self.link_target.clone(),
        }
    }
}

/// The entries of a listing, each by what it holds.
pub open spec fn entry_views(entries: Seq<DirEntry>) -> Seq<DirEntryView> {
    entries.map_values(|e: DirEntry| e@)
}

/// The strings of a list, each by its characters.
pub open spec fn texts(names: Seq<String>) -> Seq<Seq<char>> {
    names.map_values(|s: String| s@)
}

/// Whether a list of strings holds the given one.
pub fn contains_name(names: &Vec<String>, name: &String) -> (r: bool)
    ensures
        r == texts(names@).contains(name@),
{
    let mut i: usize = 0;
    while i < names.len()
        invariant
            i <= names.len(),
            forall|k: int| 0 <= k < i ==> (#[trigger] names[k])@ != name@,
        decreases names.len() - i,
    {
        if names[i] == *name {
            assert(texts(names@)[i as int] == name@);
            return true;
        }
        i += 1;
    }
    proof {
        if texts(names@).contains(name@) {
            let k = choose|k: int| 0 <= k < texts(names@).len() && texts(names@)[k] == name@;
            assert(names[k]@ != name@);
        }
    }
    false
}

} // verus!
