use vstd::prelude::*;

use crate::check::{check_entry, decision_in, Decision};
use crate::entry::Entry;

verus! {

/// A path relative to the source root, and equally to the destination root: its name
/// components in order. Both trees are addressed through the same relative path, so the
/// destination side always mirrors the source side.
pub open spec fn path_view(p: Seq<Vec<u8>>) -> Seq<Seq<u8>> {
    p.map_values(|c: Vec<u8>| c@)
}

/// What a walk does for one source entry: its relative path and the decision taken for it.
#[derive(Clone, Debug)]
pub struct Step {
    pub path: Vec<Vec<u8>>,
    pub decision: Decision,
}

/// The relative paths of the directories under `dir` that a walk enters, in listing order:
/// those source entries whose decision is to descend.
pub open spec fn child_dirs(dir: Seq<Seq<u8>>, src: Seq<Entry>, dest: Seq<Entry>) -> Seq<
    Seq<Seq<u8>>,
>
    decreases src.len(),
{
    if src.len() == 0 {
        seq![]
    } else {
        let before = child_dirs(dir, src.drop_last(), dest);
        if decision_in(src.last(), dest).spec_descends() {
            before.push(dir.push(src.last().name@))
        } else {
            before
        }
    }
}

/// A copy of a name, byte for byte.
pub fn copy_name(name: &Vec<u8>) -> (r: Vec<u8>)
    ensures
        r@ == name@,
{
    let mut out: Vec<u8> = Vec::new();
    let mut i: usize = 0;
    while i < name.len()
        invariant
            0 <= i <= name@.len(),
            out@ == name@.subrange(0, i as int),
        decreases name@.len() - i,
    {
        out.push(name[i]);
        i = i + 1;
        assert(out@ =~= name@.subrange(0, i as int));
    }
    assert(name@.subrange(0, name@.len() as int) =~= name@);
    out
}

/// The relative path of the entry `name` inside the directory `dir`.
pub fn join(dir: &Vec<Vec<u8>>, name: &Vec<u8>) -> (r: Vec<Vec<u8>>)
    ensures
        path_view(r@) == path_view(dir@).push(name@),
{
    let mut out: Vec<Vec<u8>> = Vec::new();
    let mut i: usize = 0;
    while i < dir.len()
        invariant
            0 <= i <= dir@.len(),
            out@.len() == i,
            forall|k: int| 0 <= k < i ==> (#[trigger] out@[k])@ == dir@[k]@,
        decreases dir@.len() - i,
    {
        let c = copy_name(&dir[i]);
        out.push(c);
        i = i + 1;
    }
    out.push(copy_name(name));
    assert(path_view(out@) =~= path_view(dir@).push(name@));
    out
}

/// A depth-first walk of the source tree, one directory level at a time. The walker holds the
/// relative paths of the directories still to be visited; the caller lists each directory on
/// both sides, hands the listings in, and carries out the steps that come back.
#[derive(Clone, Debug)]
pub struct Walker {
    pub pending: Vec<Vec<Vec<u8>>>,
}

impl Walker {
    /// The relative paths of the directories still to be visited; the last is visited next.
    pub open spec fn pending_view(&self) -> Seq<Seq<Seq<u8>>> {
        self.pending@.map_values(|p: Vec<Vec<u8>>| path_view(p@))
    }

    /// A walk that starts at the roots.
    pub fn new() -> (r: Walker)
        ensures
            r.pending_view() == seq![Seq::<Seq<u8>>::empty()],
    {
        let mut pending: Vec<Vec<Vec<u8>>> = Vec::new();
        pending.push(Vec::new());
        let r = Walker { pending };
        assert(r.pending@[0]@.len() == 0);
        assert(path_view(r.pending@[0]@) =~= Seq::<Seq<u8>>::empty());
        assert(r.pending_view() =~= seq![Seq::<Seq<u8>>::empty()]);
        r
    }

    /// Takes the next directory to visit; `None` once the walk is over.
    pub fn next_dir(&mut self) -> (r: Option<Vec<Vec<u8>>>)
        ensures
            r is None <==> old(self).pending_view().len() == 0,
            r is None ==> final(self).pending_view() == old(self).pending_view(),
            r matches Some(p) ==> path_view(p@) == old(self).pending_view().last()
                && final(self).pending_view() == old(self).pending_view().drop_last(),
    {
        let r = self.pending.pop();
        proof {
            if r is Some {
                assert(final(self).pending_view() =~= old(self).pending_view().drop_last());
            }
        }
        r
    }

    /// Visits the directory `dir`, given the listing `src` of its source side and `dest` of its
    /// destination side: one step per source entry, in listing order, and each directory to
    /// descend into is queued.
    pub fn visit(&mut self, dir: &Vec<Vec<u8>>, src: &Vec<Entry>, dest: &Vec<Entry>) -> (r: Vec<
        Step,
    >)
        ensures
            r@.len() == src@.len(),
            forall|i: int|
                0 <= i < src@.len() ==> path_view((#[trigger] r@[i]).path@) == path_view(
                    dir@,
                ).push(src@[i].name@) && r@[i].decision == decision_in(src@[i], dest@),
            final(self).pending_view() == old(self).pending_view() + child_dirs(
                path_view(dir@),
                src@,
                dest@,
            ),
    {
        let ghost d = path_view(dir@);
        let ghost start = self.pending_view();
        let mut steps: Vec<Step> = Vec::new();
        let mut i: usize = 0;
        while i < src.len()
            invariant
                0 <= i <= src@.len(),
                d == path_view(dir@),
                steps@.len() == i,
                forall|j: int|
                    0 <= j < i ==> path_view((#[trigger] steps@[j]).path@) == d.push(src@[j].name@)
                        && steps@[j].decision == decision_in(src@[j], dest@),
                self.pending_view() == start + child_dirs(d, src@.subrange(0, i as int), dest@),
            decreases src@.len() - i,
        {
            let decision = check_entry(&src[i], dest);
            let path = join(dir, &src[i].name);
            let ghost before = src@.subrange(0, i as int);
            let ghost upto = src@.subrange(0, i + 1);
            assert(upto.drop_last() =~= before);
            assert(upto.last() == src@[i as int]);
            if decision.descends() {
                let queued = join(dir, &src[i].name);
                let ghost old_view = self.pending_view();
                self.pending.push(queued);
                assert(child_dirs(d, upto, dest@) == child_dirs(d, before, dest@).push(
                    d.push(src@[i as int].name@),
                ));
                assert(self.pending_view() =~= old_view.push(path_view(queued@)));
                assert(self.pending_view() =~= start + child_dirs(d, upto, dest@));
            } else {
                assert(self.pending_view() =~= start + child_dirs(d, upto, dest@));
            }
            steps.push(Step { path, decision });
            i = i + 1;
        }
        assert(src@.subrange(0, src@.len() as int) =~= src@);
        steps
    }
}

} // verus!
