//! The state behind the recent-paths list: which paths were analyzed before
//! and which build variant was selected last.
//!
//! Reading and writing the persistence file is I/O and lives outside the
//! library; what lives here is the state itself and the rules on it: a path
//! is remembered once, and removing a path keeps the order of the rest.

use vstd::prelude::*;
use crate::model::BuildVariant;

verus! {

/// Whether some remembered path reads `p`.
pub open spec fn has_path(files: Seq<String>, p: Seq<char>) -> bool {
    exists|i: int| 0 <= i < files.len() && files[i]@ == p
}

/// The remembered recent paths and last selected build variant, plus where
/// they are persisted and whether persisting works at all.
pub struct Persistance {
    pub persistance_file_path: String,
    pub last_files: Vec<String>,
    pub last_selected_build_variant: BuildVariant,
    pub is_functional: bool,
}

impl Persistance {
    /// The variant selected last.
    pub fn build_variant(&self) -> (r: BuildVariant)
        ensures
            r == self.last_selected_build_variant,
    {
        self.last_selected_build_variant
    }

    /// The remembered paths, in the order they were added.
    pub fn last_paths(&self) -> (r: Vec<&str>)
        ensures
            r@.len() == self.last_files@.len(),
            forall|i: int| 0 <= i < r@.len() ==> r@[i]@ == self.last_files@[i]@,
    {
        let mut r: Vec<&str> = Vec::new();
        let mut i: usize = 0;
        while i < self.last_files.len()
            invariant
                i <= self.last_files@.len(),
                r@.len() == i,
                forall|j: int| 0 <= j < i ==> r@[j]@ == self.last_files@[j]@,
            decreases self.last_files@.len() - i,
        {
            r.push(self.last_files[i].as_str());
            i = i + 1;
        }
        r
    }

    /// Remember one more path. A path already on the list is not added
    /// twice; the result says whether the list changed (and so needs to be
    /// persisted).
    pub fn push_last_path(&mut self, path: &str) -> (r: bool)
        ensures
            final(self).persistance_file_path == old(self).persistance_file_path,
            final(self).last_selected_build_variant == old(self).last_selected_build_variant,
            final(self).is_functional == old(self).is_functional,
            has_path(old(self).last_files@, path@) ==> !r && final(self).last_files@ == old(
                self,
            ).last_files@,
            !has_path(old(self).last_files@, path@) ==> r && final(self).last_files@.len() == old(
                self,
            ).last_files@.len() + 1 && final(self).last_files@.drop_last() == old(
                self,
            ).last_files@ && final(self).last_files@.last()@ == path@,
    {
        let mut i: usize = 0;
        while i < self.last_files.len()
            invariant
                i <= self.last_files@.len(),
                *self == *old(self),
                forall|j: int| 0 <= j < i ==> self.last_files@[j]@ != path@,
            decreases self.last_files@.len() - i,
        {
            if crate::strkit::str_eqs(self.last_files[i].as_str(), path) {
                return false;
            }
            i = i + 1;
        }
        self.last_files.push(path.to_owned());
        proof {
            assert(self.last_files@.drop_last() =~= old(self).last_files@);
        }
        true
    }

    /// Forget every occurrence of `path`, keeping the order of the rest.
    pub fn remove_last_path(&mut self, path: &str)
        ensures
            final(self).persistance_file_path == old(self).persistance_file_path,
            final(self).last_selected_build_variant == old(self).last_selected_build_variant,
            final(self).is_functional == old(self).is_functional,
            final(self).last_files@ == old(self).last_files@.filter(
                |s: String| s@ != path@,
            ),
    {
        let ghost orig = self.last_files@;
        let ghost pred = |s: String| s@ != path@;
        let mut kept: Vec<String> = Vec::new();
        let mut i: usize = 0;
        while i < self.last_files.len()
            invariant
                i <= self.last_files@.len(),
                *self == *old(self),
                orig == self.last_files@,
                pred == (|s: String| s@ != path@),
                kept@ == orig.take(i as int).filter(pred),
            decreases self.last_files@.len() - i,
        {
            let s = &self.last_files[i];
            proof {
                reveal(Seq::filter);
                assert(orig.take(i + 1).drop_last() =~= orig.take(i as int));
                assert(orig.take(i + 1).last() == orig[i as int]);
            }
            if !crate::strkit::str_eqs(s.as_str(), path) {
                kept.push(s.clone());
            }
            i = i + 1;
        }
        proof {
            assert(orig.take(orig.len() as int) =~= orig);
        }
        self.last_files = kept;
    }
}

} // verus!
