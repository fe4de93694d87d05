use vstd::prelude::*;

verus! {

/// A modification time: whole seconds and the nanoseconds within that second.
#[derive(Clone, Copy, Debug, PartialEq, Eq, Structural)]
pub struct Stamp {
    pub seconds: i64,
    pub nanos: u32,
}

impl Stamp {
    /// `self` is not later than `other`: seconds first, then nanoseconds (the order of
    /// `filetime::FileTime`, whose seconds and nanoseconds a stamp holds).
    pub open spec fn not_after(self, other: Stamp) -> bool {
        self.seconds < other.seconds || (self.seconds == other.seconds && self.nanos <= other.nanos)
    }

    pub fn new(seconds: i64, nanos: u32) -> (r: Stamp)
        ensures
            r.seconds == seconds,
            r.nanos == nanos,
    {
        Stamp { seconds, nanos }
    }
}

/// A destination file is up to date when it was modified no earlier than its source.
/// Equal times count as up to date.
pub fn is_up_to_date(src: Stamp, dest: Stamp) -> (r: bool)
    ensures
        r == src.not_after(dest),
{
    src.seconds < dest.seconds || (src.seconds == dest.seconds && src.nanos <= dest.nanos)
}

} // verus!
