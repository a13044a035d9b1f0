//! The project advisory a watcher keeps current.

use vstd::prelude::*;

verus! {

/// A cached advisory, and whether somebody keeps it current.
#[derive(Debug, PartialEq, Eq)]
pub enum StandaloneNotice {
    /// Kept current; the text is there where there is something to say.
    Kept(Option<String>),
    /// Nobody keeps it current any more.
    Abandoned,
}

/// The advisory slot of a watcher, where it has one. Refreshed on every config change the watcher
/// sees; handed back as abandoned when the watcher leaves.
#[derive(Debug, PartialEq, Eq)]
pub struct AdvisoryOwner {
    pub slot: Option<StandaloneNotice>,
}

impl AdvisoryOwner {
    /// Bring the slot up to date. `derive` reads the project, and is asked only where there is a
    /// slot to write.
    pub fn refresh<F: FnOnce() -> Option<String>>(&mut self, derive: F)
        requires
            old(self).slot is Some ==> derive.requires(()),
        ensures
            old(self).slot is None ==> final(self).slot is None,
            old(self).slot is Some ==> exists|notice: Option<String>| #[trigger]
                derive.ensures((), notice) && final(self).slot == Some(
                    StandaloneNotice::Kept(notice),
                ),
    {
        if self.slot.is_some() {
            let notice = derive();
            assert(derive.ensures((), notice));
            self.slot = Some(StandaloneNotice::Kept(notice));
        }
    }

    /// Hand the slot back: it is a cached value, and one with no updater that still reads as tracked
    /// would tell of a project this daemon has stopped following.
    pub fn leave(&mut self)
        ensures
            old(self).slot is None ==> final(self).slot is None,
            old(self).slot is Some ==> final(self).slot == Some(StandaloneNotice::Abandoned),
    {
        if self.slot.is_some() {
            self.slot = Some(StandaloneNotice::Abandoned);
        }
    }
}

} // verus!
