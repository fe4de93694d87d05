use vstd::prelude::*;

use crate::stamp::Stamp;

verus! {

/// What a directory listing says an entry is.
#[derive(Clone, Copy, Debug, PartialEq, Eq, Structural)]
pub enum EntryKind {
    Dir,
    /// A regular file, with its last modification time.
    File(Stamp),
    /// The entry's metadata could not be read.
    Unreadable,
}

/// One entry of a directory listing: its final name component (as bytes) and its kind.
#[derive(Clone, Debug)]
pub struct Entry {
    pub name: Vec<u8>,
    pub kind: EntryKind,
}

impl Entry {
    pub fn new(name: Vec<u8>, kind: EntryKind) -> (r: Entry)
        ensures
            r.name@ == name@,
            r.kind == kind,
    {
        Entry { name, kind }
    }
}

/// The kind of the first entry of `listing` named `name`, if any.
pub open spec fn lookup(listing: Seq<Entry>, name: Seq<u8>) -> Option<EntryKind>
    decreases listing.len(),
{
    if listing.len() == 0 {
        None
    } else if listing[0].name@ == name {
        Some(listing[0].kind)
    } else {
        lookup(listing.drop_first(), name)
    }
}

/// Some entry of `listing` is named `name`.
pub open spec fn has_name(listing: Seq<Entry>, name: Seq<u8>) -> bool {
    exists|i: int| 0 <= i < listing.len() && #[trigger] listing[i].name@ == name
}

/// `lookup` finds nothing exactly when no entry bears the name.
pub proof fn lemma_lookup_none(listing: Seq<Entry>, name: Seq<u8>)
    ensures
        lookup(listing, name) is None <==> !has_name(listing, name),
    decreases listing.len(),
{
    if listing.len() > 0 {
        let rest = listing.drop_first();
        lemma_lookup_none(rest, name);
        if has_name(listing, name) && listing[0].name@ != name {
            let i = choose|i: int| 0 <= i < listing.len() && #[trigger] listing[i].name@ == name;
            assert(rest[i - 1].name@ == name);
        }
        if has_name(rest, name) {
            let i = choose|i: int| 0 <= i < rest.len() && #[trigger] rest[i].name@ == name;
            assert(listing[i + 1].name@ == name);
        }
    }
}

/// Where the first entry named `name` stands at `i`, `lookup` gives its kind.
pub proof fn lemma_lookup_at(listing: Seq<Entry>, name: Seq<u8>, i: int)
    requires
        0 <= i < listing.len(),
        listing[i].name@ == name,
        forall|j: int| 0 <= j < i ==> #[trigger] listing[j].name@ != name,
    ensures
        lookup(listing, name) == Some(listing[i].kind),
    decreases i,
{
    if i > 0 {
        let rest = listing.drop_first();
        assert(listing[0].name@ != name);
        assert(rest[i - 1] == listing[i]);
        assert forall|j: int| 0 <= j < i - 1 implies #[trigger] rest[j].name@ != name by {
            assert(rest[j] == listing[j + 1]);
        }
        lemma_lookup_at(rest, name, i - 1);
    }
}

/// Where some entry bears the name, `lookup` gives the kind of one that does.
pub proof fn lemma_lookup_some(listing: Seq<Entry>, name: Seq<u8>)
    requires
        has_name(listing, name),
    ensures
        exists|i: int|
            0 <= i < listing.len() && #[trigger] listing[i].name@ == name && lookup(listing, name)
                == Some(listing[i].kind),
    decreases listing.len(),
{
    if listing[0].name@ == name {
        assert(listing[0].name@ == name);
    } else {
        let rest = listing.drop_first();
        let i = choose|i: int| 0 <= i < listing.len() && #[trigger] listing[i].name@ == name;
        assert(rest[i - 1].name@ == name);
        lemma_lookup_some(rest, name);
        let j = choose|j: int|
            0 <= j < rest.len() && #[trigger] rest[j].name@ == name && lookup(rest, name) == Some(
                rest[j].kind,
            );
        assert(listing[j + 1] == rest[j]);
    }
}

/// Whether two names are the same bytes.
pub fn same_name(a: &Vec<u8>, b: &Vec<u8>) -> (r: bool)
    ensures
        r == (a@ == b@),
{
    if a.len() != b.len() {
        return false;
    }
    let mut i: usize = 0;
    while i < a.len()
        invariant
            a@.len() == b@.len(),
            0 <= i <= a@.len(),
            forall|j: int| 0 <= j < i ==> a@[j] == b@[j],
        decreases a@.len() - i,
    {
        if a[i] != b[i] {
            return false;
        }
        i = i + 1;
    }
    assert(a@ =~= b@);
    true
}

/// The index of the first entry of `listing` named `name`; the scan stops at the first match.
pub fn find_named(listing: &Vec<Entry>, name: &Vec<u8>) -> (r: Option<usize>)
    ensures
        r is None <==> !has_name(listing@, name@),
        r matches Some(i) ==> i < listing@.len() && listing@[i as int].name@ == name@ && (forall|
            j: int,
        | 0 <= j < i ==> #[trigger] listing@[j].name@ != name@),
        r matches Some(i) ==> lookup(listing@, name@) == Some(listing@[i as int].kind),
        r is None ==> lookup(listing@, name@) is None,
{
    proof {
        lemma_lookup_none(listing@, name@);
    }
    let mut i: usize = 0;
    while i < listing.len()
        invariant
            0 <= i <= listing@.len(),
            forall|j: int| 0 <= j < i ==> #[trigger] listing@[j].name@ != name@,
        decreases listing@.len() - i,
    {
        if same_name(&listing[i].name, name) {
            proof {
                lemma_lookup_at(listing@, name@, i as int);
            }
            return Some(i);
        }
        i = i + 1;
    }
    None
}

} // verus!
