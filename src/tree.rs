use vstd::prelude::*;

use crate::check::{decision_in, decision_of, Decision};
use crate::entry::{has_name, lemma_lookup_none, lemma_lookup_some, lookup, Entry, EntryKind};

verus! {

/// `found` is a file modified no earlier than the source file of kind `src`.
pub open spec fn is_fresh_copy(src: EntryKind, found: Option<EntryKind>) -> bool {
    match (src, found) {
        (EntryKind::File(s), Some(EntryKind::File(t))) => s.not_after(t),
        _ => false,
    }
}

/// `found` is an entry of the same kind as the source entry of kind `src`.
pub open spec fn same_kind(src: EntryKind, found: Option<EntryKind>) -> bool {
    match (src, found) {
        (EntryKind::Dir, Some(EntryKind::Dir)) => true,
        (EntryKind::File(_), Some(EntryKind::File(_))) => true,
        _ => false,
    }
}

/// A whole directory tree: the kind of each entry, by its path relative to the root.
pub open spec fn is_tree(t: Map<Seq<Seq<u8>>, EntryKind>) -> bool {
    forall|p: Seq<Seq<u8>>|
        #[trigger] t.contains_key(p) ==> p.len() > 0 && forall|k: int|
            1 <= k < p.len() ==> t.contains_key(#[trigger] p.subrange(0, k)) && t[p.subrange(
                0,
                k,
            )] == EntryKind::Dir
}

/// What the tree `t` holds at `p`, if anything.
pub open spec fn found_at(t: Map<Seq<Seq<u8>>, EntryKind>, p: Seq<Seq<u8>>) -> Option<EntryKind> {
    if t.contains_key(p) {
        Some(t[p])
    } else {
        None
    }
}

/// The decision for the source entry at `p`.
pub open spec fn decision_at(
    s: Map<Seq<Seq<u8>>, EntryKind>,
    d: Map<Seq<Seq<u8>>, EntryKind>,
    p: Seq<Seq<u8>>,
) -> Decision {
    decision_of(s[p], found_at(d, p))
}

/// The walk of source `s` against destination `d` reaches the source entry at `p`: the walk
/// enters every directory above it.
pub open spec fn reached(
    s: Map<Seq<Seq<u8>>, EntryKind>,
    d: Map<Seq<Seq<u8>>, EntryKind>,
    p: Seq<Seq<u8>>,
) -> bool {
    &&& s.contains_key(p)
    &&& forall|k: int|
        1 <= k < p.len() ==> (#[trigger] decision_at(s, d, p.subrange(0, k))).spec_descends()
}

/// The decision at `p` is carried out in a run: a new directory or a file copy.
pub open spec fn writes_at(
    s: Map<Seq<Seq<u8>>, EntryKind>,
    d: Map<Seq<Seq<u8>>, EntryKind>,
    p: Seq<Seq<u8>>,
) -> bool {
    reached(s, d, p) && (decision_at(s, d, p).spec_needs_dir() || decision_at(
        s,
        d,
        p,
    ).spec_needs_copy())
}

/// `after` is the destination `d` once a run of the walk over source `s` has been carried out
/// successfully: each directory it creates exists, each file it copies carries a modification
/// time no earlier than its source (times do not go backwards), and every other path holds
/// what it held.
pub open spec fn run_carried_out(
    s: Map<Seq<Seq<u8>>, EntryKind>,
    d: Map<Seq<Seq<u8>>, EntryKind>,
    after: Map<Seq<Seq<u8>>, EntryKind>,
) -> bool {
    &&& forall|p: Seq<Seq<u8>>|
        #[trigger] writes_at(s, d, p) && decision_at(s, d, p).spec_needs_dir() ==> found_at(
            after,
            p,
        ) == Some(EntryKind::Dir)
    &&& forall|p: Seq<Seq<u8>>|
        #[trigger] writes_at(s, d, p) && decision_at(s, d, p).spec_needs_copy() ==> is_fresh_copy(
            s[p],
            found_at(after, p),
        )
    &&& forall|p: Seq<Seq<u8>>| !#[trigger] writes_at(s, d, p) ==> found_at(after, p) == found_at(d, p)
}

/// A directory that the second run enters was entered by the first run too.
proof fn lemma_descends_before(
    s: Map<Seq<Seq<u8>>, EntryKind>,
    d: Map<Seq<Seq<u8>>, EntryKind>,
    after: Map<Seq<Seq<u8>>, EntryKind>,
    q: Seq<Seq<u8>>,
)
    requires
        run_carried_out(s, d, after),
        decision_at(s, after, q).spec_descends(),
    ensures
        decision_at(s, d, q).spec_descends(),
{
    if writes_at(s, d, q) {
    } else {
        assert(found_at(after, q) == found_at(d, q));
    }
}

/// Running the walk again over the same source, once a run has been carried out, neither copies
/// a file nor creates a directory anywhere it reaches.
pub proof fn lemma_second_run_is_quiet(
    s: Map<Seq<Seq<u8>>, EntryKind>,
    d: Map<Seq<Seq<u8>>, EntryKind>,
    after: Map<Seq<Seq<u8>>, EntryKind>,
)
    requires
        run_carried_out(s, d, after),
    ensures
        forall|p: Seq<Seq<u8>>|
            #[trigger] reached(s, after, p) ==> !decision_at(s, after, p).spec_needs_copy()
                && !decision_at(s, after, p).spec_needs_dir(),
{
    assert forall|p: Seq<Seq<u8>>| #[trigger] reached(s, after, p) implies !decision_at(
        s,
        after,
        p,
    ).spec_needs_copy() && !decision_at(s, after, p).spec_needs_dir() by {
        assert forall|k: int| 1 <= k < p.len() implies (#[trigger] decision_at(
            s,
            d,
            p.subrange(0, k),
        )).spec_descends() by {
            assert(decision_at(s, after, p.subrange(0, k)).spec_descends());
            lemma_descends_before(s, d, after, p.subrange(0, k));
        }
        assert(reached(s, d, p));
        if writes_at(s, d, p) {
        } else {
            assert(found_at(after, p) == found_at(d, p));
        }
    }
}

/// Where no decision of the walk reports a problem, the walk reaches every source entry.
proof fn lemma_reaches_all(
    s: Map<Seq<Seq<u8>>, EntryKind>,
    d: Map<Seq<Seq<u8>>, EntryKind>,
    p: Seq<Seq<u8>>,
)
    requires
        is_tree(s),
        s.contains_key(p),
        forall|q: Seq<Seq<u8>>| #[trigger] reached(s, d, q) ==> !decision_at(s, d, q).spec_is_problem(),
    ensures
        reached(s, d, p),
    decreases p.len(),
{
    assert forall|k: int| 1 <= k < p.len() implies (#[trigger] decision_at(
        s,
        d,
        p.subrange(0, k),
    )).spec_descends() by {
        let q = p.subrange(0, k);
        assert(s.contains_key(q) && s[q] == EntryKind::Dir);
        lemma_reaches_all(s, d, q);
        assert(!decision_at(s, d, q).spec_is_problem());
    }
}

/// After a run that reported no problem has been carried out, every source entry has an entry of
/// the same relative path and kind in the destination.
pub proof fn lemma_run_is_complete(
    s: Map<Seq<Seq<u8>>, EntryKind>,
    d: Map<Seq<Seq<u8>>, EntryKind>,
    after: Map<Seq<Seq<u8>>, EntryKind>,
)
    requires
        is_tree(s),
        run_carried_out(s, d, after),
        forall|q: Seq<Seq<u8>>| #[trigger] reached(s, d, q) ==> !decision_at(s, d, q).spec_is_problem(),
    ensures
        forall|p: Seq<Seq<u8>>| #[trigger] s.contains_key(p) ==> same_kind(s[p], found_at(after, p)),
{
    assert forall|p: Seq<Seq<u8>>| #[trigger] s.contains_key(p) implies same_kind(
        s[p],
        found_at(after, p),
    ) by {
        lemma_reaches_all(s, d, p);
        assert(!decision_at(s, d, p).spec_is_problem());
        if writes_at(s, d, p) {
        } else {
            assert(found_at(after, p) == found_at(d, p));
        }
    }
}

/// A run writes only at source paths, and there only where the destination holds nothing or a
/// file modified strictly earlier than the source file: an existing directory, an up-to-date file
/// or an entry with no source counterpart is never replaced, and once the run is carried out no
/// destination entry has gone.
pub proof fn lemma_run_is_additive(
    s: Map<Seq<Seq<u8>>, EntryKind>,
    d: Map<Seq<Seq<u8>>, EntryKind>,
    after: Map<Seq<Seq<u8>>, EntryKind>,
)
    ensures
        forall|p: Seq<Seq<u8>>|
            #[trigger] writes_at(s, d, p) ==> s.contains_key(p) && match (s[p], found_at(d, p)) {
                (EntryKind::Dir, None) => true,
                (EntryKind::File(_), None) => true,
                (EntryKind::File(x), Some(EntryKind::File(y))) => !x.not_after(y),
                _ => false,
            },
        run_carried_out(s, d, after) ==> forall|p: Seq<Seq<u8>>|
            !s.contains_key(p) ==> #[trigger] found_at(after, p) == found_at(d, p),
        run_carried_out(s, d, after) ==> forall|p: Seq<Seq<u8>>|
            #[trigger] d.contains_key(p) ==> after.contains_key(p),
{
    if run_carried_out(s, d, after) {
        assert forall|p: Seq<Seq<u8>>| !s.contains_key(p) implies #[trigger] found_at(after, p)
            == found_at(d, p) by {
            assert(!writes_at(s, d, p));
        }
        assert forall|p: Seq<Seq<u8>>| #[trigger] d.contains_key(p) implies after.contains_key(p) by {
            if writes_at(s, d, p) {
            } else {
                assert(found_at(after, p) == found_at(d, p));
            }
        }
    }
}

/// Where `src` and `dest` are the listings of the directory at `dir` in the source tree `s` and
/// the destination tree `d`, the decision for each source entry against `dest` is the decision at
/// its path in the trees.
pub proof fn lemma_listing_decisions(
    s: Map<Seq<Seq<u8>>, EntryKind>,
    d: Map<Seq<Seq<u8>>, EntryKind>,
    dir: Seq<Seq<u8>>,
    src: Seq<Entry>,
    dest: Seq<Entry>,
)
    requires
        forall|i: int|
            0 <= i < src.len() ==> s.contains_key(dir.push(#[trigger] src[i].name@)) && s[dir.push(
                src[i].name@,
            )] == src[i].kind,
        forall|i: int|
            0 <= i < dest.len() ==> d.contains_key(dir.push(#[trigger] dest[i].name@)) && d[dir.push(
                dest[i].name@,
            )] == dest[i].kind,
        forall|n: Seq<u8>| #[trigger] d.contains_key(dir.push(n)) ==> has_name(dest, n),
    ensures
        forall|i: int|
            0 <= i < src.len() ==> decision_in(#[trigger] src[i], dest) == decision_at(
                s,
                d,
                dir.push(src[i].name@),
            ),
{
    assert forall|i: int| 0 <= i < src.len() implies decision_in(#[trigger] src[i], dest)
        == decision_at(s, d, dir.push(src[i].name@)) by {
        let n = src[i].name@;
        lemma_lookup_none(dest, n);
        if has_name(dest, n) {
            lemma_lookup_some(dest, n);
            let j = choose|j: int|
                0 <= j < dest.len() && #[trigger] dest[j].name@ == n && lookup(dest, n) == Some(
                    dest[j].kind,
                );
            assert(d.contains_key(dir.push(dest[j].name@)));
        } else {
            assert(!d.contains_key(dir.push(n)));
        }
    }
}

} // verus!
