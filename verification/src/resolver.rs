//! Lexical clean-up of a stored book path: the folding of `.` and `..`
//! components done before the path is looked up on disk.

use vstd::prelude::*;

verus! {

/// One component of a path (`std::path::Component` on Unix), the name of a
/// plain component as text.
#[derive(Debug, Clone, PartialEq, Eq)]
pub enum PathPart {
    Root,
    Current,
    Parent,
    Normal(String),
}

/// What a component stands for, the name of a plain one as characters.
pub enum PathPartView {
    Root,
    Current,
    Parent,
    Normal(Seq<char>),
}

impl View for PathPart {
    type V = PathPartView;

    open spec fn view(&self) -> PathPartView {
        match self {
            PathPart::Root => PathPartView::Root,
            PathPart::Current => PathPartView::Current,
            PathPart::Parent => PathPartView::Parent,
            PathPart::Normal(s) => PathPartView::Normal(s@),
        }
    }
}

pub open spec fn part_views(parts: Seq<PathPart>) -> Seq<PathPartView> {
    parts.map_values(|p: PathPart| p@)
}

/// The components of `parts` folded from the left: `.` is skipped, `..`
/// removes the last name kept so far (and is dropped when there is none:
/// at the root, or at the start of a relative path), the root starts the
/// path afresh, and a name is kept.
pub open spec fn fold_parts(parts: Seq<PathPartView>) -> Seq<PathPartView>
    decreases parts.len(),
{
    if parts.len() == 0 {
        Seq::empty()
    } else {
        let out = fold_parts(parts.drop_last());
        match parts.last() {
            PathPartView::Current => out,
            PathPartView::Parent => if out.len() > 0 && out.last() is Normal {
                out.drop_last()
            } else {
                out
            },
            PathPartView::Root => seq![PathPartView::Root],
            PathPartView::Normal(n) => out.push(PathPartView::Normal(n)),
        }
    }
}

/// Folds `.` and `..` out of a path's components (see [`fold_parts`]),
/// without looking at the file system.
pub fn normalize_components(parts: Vec<PathPart>) -> (r: Vec<PathPart>)
    ensures
        part_views(r@) == fold_parts(part_views(parts@)),
    decreases parts@.len(),
{
    let mut parts = parts;
    let ghost all = part_views(parts@);
    match parts.pop() {
        None => {
            let r: Vec<PathPart> = Vec::new();
            assert(part_views(r@) =~= Seq::<PathPartView>::empty());
            r
        },
        Some(last) => {
            assert(part_views(parts@) =~= all.drop_last());
            let mut out = normalize_components(parts);
            let ghost pre = part_views(out@);
            match last {
                PathPart::Current => out,
                PathPart::Parent => {
                    let n = out.len();
                    if n > 0 && out[n - 1].is_normal() {
                        assert(pre.last() == out@[n - 1]@);
                        out.pop();
                        assert(part_views(out@) =~= pre.drop_last());
                    } else {
                        proof {
                            if n > 0 {
                                assert(pre.last() == out@[n - 1]@);
                            }
                        }
                    }
                    out
                },
                PathPart::Root => {
                    let r = vec![PathPart::Root];
                    assert(part_views(r@) =~= seq![PathPartView::Root]);
                    r
                },
                PathPart::Normal(name) => {
                    out.push(PathPart::Normal(name));
                    assert(part_views(out@) =~= pre.push(all.last()));
                    out
                },
            }
        },
    }
}

impl PathPart {
    /// A plain name (not the root, `.` or `..`).
    pub fn is_normal(&self) -> (r: bool)
        ensures
            r == (self@ is Normal),
    {
        match self {
            PathPart::Normal(_) => true,
            _ => false,
        }
    }
}

/// A folded path: names only, after a root at the start if there is one.
pub open spec fn folded(parts: Seq<PathPartView>) -> bool {
    forall|i: int|
        0 <= i < parts.len() ==> (#[trigger] parts[i] is Normal || (i == 0 && parts[i] is Root))
}

proof fn lemma_fold_folded(parts: Seq<PathPartView>)
    ensures
        folded(fold_parts(parts)),
    decreases parts.len(),
{
    if parts.len() > 0 {
        lemma_fold_folded(parts.drop_last());
        let out = fold_parts(parts.drop_last());
        let r = fold_parts(parts);
        assert forall|i: int| 0 <= i < r.len() implies (#[trigger] r[i] is Normal || (i == 0
            && r[i] is Root)) by {
            if i < out.len() && !(parts.last() is Root) {
                assert(r[i] == out[i]);
            }
        }
    }
}

proof fn lemma_fold_of_folded(parts: Seq<PathPartView>)
    requires
        folded(parts),
    ensures
        fold_parts(parts) == parts,
    decreases parts.len(),
{
    if parts.len() > 0 {
        let init = parts.drop_last();
        assert forall|i: int| 0 <= i < init.len() implies (#[trigger] init[i] is Normal || (i == 0
            && init[i] is Root)) by {
            assert(init[i] == parts[i]);
        }
        lemma_fold_of_folded(init);
        assert(parts[parts.len() - 1] is Normal || parts.len() == 1);
        if parts.last() is Root {
            assert(parts =~= seq![PathPartView::Root]);
        } else {
            assert(init.push(parts.last()) =~= parts);
        }
    }
}

/// Normalizing a normalized path changes nothing.
pub proof fn law_normalize_components_idempotent(parts: Seq<PathPartView>)
    ensures
        fold_parts(fold_parts(parts)) == fold_parts(parts),
{
    lemma_fold_folded(parts);
    lemma_fold_of_folded(fold_parts(parts));
}

} // verus!
