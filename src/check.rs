use vstd::prelude::*;

use crate::entry::{find_named, lookup, Entry, EntryKind};
use crate::stamp::{is_up_to_date, Stamp};

verus! {

/// What to do with one source entry, given what the destination directory holds under its name.
#[derive(Clone, Copy, Debug, PartialEq, Eq, Structural)]
pub enum Decision {
    /// A directory of that name exists: walk into it.
    DirExists,
    /// No entry of that name: create the directory, then walk into it.
    DirMissing,
    /// A file of that name, modified no earlier than the source file: leave it.
    FileUpToDate,
    /// A file of that name, modified earlier than the source file: copy over it.
    FileStale,
    /// No entry of that name: copy the file.
    FileMissing,
    /// The destination entry is a file where the source has a directory, or the reverse.
    KindMismatch,
    /// The metadata of the source entry or of the matched destination entry could not be read.
    Unreadable,
}

impl Decision {
    /// The decision asks for a file copy.
    pub open spec fn spec_needs_copy(self) -> bool {
        self is FileStale || self is FileMissing
    }

    /// The decision asks for a new directory.
    pub open spec fn spec_needs_dir(self) -> bool {
        self is DirMissing
    }

    /// The decision asks to walk into a directory.
    pub open spec fn spec_descends(self) -> bool {
        self is DirExists || self is DirMissing
    }

    /// The decision reports a problem for this entry.
    pub open spec fn spec_is_problem(self) -> bool {
        self is KindMismatch || self is Unreadable
    }

    pub fn needs_copy(&self) -> (r: bool)
        ensures
            r == self.spec_needs_copy(),
    {
        matches!(self, Decision::FileStale | Decision::FileMissing)
    }

    pub fn needs_dir(&self) -> (r: bool)
        ensures
            r == self.spec_needs_dir(),
    {
        matches!(self, Decision::DirMissing)
    }

    pub fn descends(&self) -> (r: bool)
        ensures
            r == self.spec_descends(),
    {
        matches!(self, Decision::DirExists | Decision::DirMissing)
    }

    pub fn is_problem(&self) -> (r: bool)
        ensures
            r == self.spec_is_problem(),
    {
        matches!(self, Decision::KindMismatch | Decision::Unreadable)
    }
}

/// The decision for a source entry of kind `src`, where the destination directory holds
/// `found` under the same name (`None`: nothing).
pub open spec fn decision_of(src: EntryKind, found: Option<EntryKind>) -> Decision {
    match (src, found) {
        (EntryKind::Unreadable, _) => Decision::Unreadable,
        (_, Some(EntryKind::Unreadable)) => Decision::Unreadable,
        (EntryKind::Dir, None) => Decision::DirMissing,
        (EntryKind::Dir, Some(EntryKind::Dir)) => Decision::DirExists,
        (EntryKind::Dir, Some(EntryKind::File(_))) => Decision::KindMismatch,
        (EntryKind::File(_), None) => Decision::FileMissing,
        (EntryKind::File(_), Some(EntryKind::Dir)) => Decision::KindMismatch,
        (EntryKind::File(s), Some(EntryKind::File(d))) => if s.not_after(d) {
            Decision::FileUpToDate
        } else {
            Decision::FileStale
        },
    }
}

/// The decision for `src` against the listing `dest` of the destination directory.
pub open spec fn decision_in(src: Entry, dest: Seq<Entry>) -> Decision {
    decision_of(src.kind, lookup(dest, src.name@))
}

/// Decides for a source entry of kind `src`, given the kind `found` of the destination entry
/// of the same name, if there is one.
pub fn decide(src: EntryKind, found: Option<EntryKind>) -> (r: Decision)
    ensures
        r == decision_of(src, found),
{
    match (src, found) {
        (EntryKind::Unreadable, _) => Decision::Unreadable,
        (_, Some(EntryKind::Unreadable)) => Decision::Unreadable,
        (EntryKind::Dir, None) => Decision::DirMissing,
        (EntryKind::Dir, Some(EntryKind::Dir)) => Decision::DirExists,
        (EntryKind::Dir, Some(EntryKind::File(_))) => Decision::KindMismatch,
        (EntryKind::File(_), None) => Decision::FileMissing,
        (EntryKind::File(_), Some(EntryKind::Dir)) => Decision::KindMismatch,
        (EntryKind::File(s), Some(EntryKind::File(d))) => {
            if is_up_to_date(s, d) {
                Decision::FileUpToDate
            } else {
                Decision::FileStale
            }
        },
    }
}

/// Looks for an entry named like `src` in the listing `dest` of the destination directory
/// (the first one wins) and decides what `src` needs.
pub fn check_entry(src: &Entry, dest: &Vec<Entry>) -> (r: Decision)
    ensures
        r == decision_in(*src, dest@),
{
    match find_named(dest, &src.name) {
        Some(i) => decide(src.kind, Some(dest[i].kind)),
        None => decide(src.kind, None),
    }
}

/// Equal modification times need no copy; a destination one second older does.
pub proof fn lemma_staleness_boundary(t: Stamp)
    requires
        t.seconds > i64::MIN,
    ensures
        decision_of(EntryKind::File(t), Some(EntryKind::File(t))) == Decision::FileUpToDate,
        decision_of(
            EntryKind::File(t),
            Some(EntryKind::File(Stamp { seconds: (t.seconds - 1) as i64, nanos: t.nanos })),
        ) == Decision::FileStale,
{
}

} // verus!
