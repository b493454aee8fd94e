//! The working log: the uncommitted attribution state of the checked-out
//! tree, anchored at its base commit, until a commit turns it into an
//! authorship record.
use vstd::prelude::*;
use crate::attribution::VirtualAttributions;
use crate::blame::AuthorshipLogEntry;
use crate::pull::InitialAttributions;

verus! {

/// The working log of one base commit: the INITIAL slot, holding attribution
/// inherited from elsewhere, and the episodes recorded since the base commit.
pub struct WorkingLog {
    pub base_commit: String,
    pub initial: Option<InitialAttributions>,
    pub episodes: Vec<VirtualAttributions>,
}

/// The log with its INITIAL slot set.
pub open spec fn with_initial(log: WorkingLog, initial: InitialAttributions) -> WorkingLog {
    WorkingLog { initial: Some(initial), ..log }
}

impl WorkingLog {
    /// An empty log anchored at `base_commit`.
    pub fn new(base_commit: String) -> (r: WorkingLog)
        ensures
            r.base_commit == base_commit,
            r.initial is None,
            r.episodes@.len() == 0,
    {
        WorkingLog { base_commit, initial: None, episodes: Vec::new() }
    }

    /// Sets the INITIAL slot, replacing what it held.
    pub fn write_initial(&mut self, initial: InitialAttributions)
        ensures
            *final(self) == with_initial(*old(self), initial),
    {
        self.initial = Some(initial);
    }

    /// Records one more episode.
    pub fn append_episode(&mut self, episode: VirtualAttributions)
        ensures
            final(self).base_commit == old(self).base_commit,
            final(self).initial == old(self).initial,
            final(self).episodes@ == old(self).episodes@.push(episode),
    {
        self.episodes.push(episode);
    }

    /// Checks out `base_commit`: the log is kept for the same base and
    /// discarded for another one.
    pub fn checkout(&mut self, base_commit: String)
        ensures
            old(self).base_commit@ == base_commit@ ==> *final(self) == *old(self),
            old(self).base_commit@ != base_commit@ ==> final(self).base_commit == base_commit
                && final(self).initial is None && final(self).episodes@.len() == 0,
    {
        if self.base_commit != base_commit {
            self.base_commit = base_commit;
            self.initial = None;
            self.episodes = Vec::new();
        }
    }

    /// Finalizes `commit`: the record of the commit is made from
    /// `attributions`, and the log starts over, anchored at the new commit.
    pub fn finalize_commit(&mut self, commit: String, attributions: VirtualAttributions) -> (r:
        AuthorshipLogEntry)
        requires
            attributions.wf(),
        ensures
            r.wf(),
            r@.commit == commit@,
            r@.files == attributions@.files,
            final(self).base_commit@ == commit@,
            final(self).initial is None,
            final(self).episodes@.len() == 0,
    {
        let base = commit.clone();
        let entry = AuthorshipLogEntry::from_attributions(commit, attributions);
        self.base_commit = base;
        self.initial = None;
        self.episodes = Vec::new();
        entry
    }
}

/// Writing the same INITIAL attribution twice leaves the log as one write does.
pub proof fn law_write_initial_idempotent(log: WorkingLog, initial: InitialAttributions)
    ensures
        with_initial(with_initial(log, initial), initial) == with_initial(log, initial),
{
}

} // verus!
