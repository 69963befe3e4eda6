//! A model of the filesystem, for stating what the planned steps do.
use vstd::prelude::*;
use crate::plan::{ActionView, StepView};

verus! {

/// What a driver finds at a path when it looks before planning.
#[derive(Clone, Copy, Debug, PartialEq, Eq, Structural)]
pub enum Kind {
    Absent,
    File,
    Link,
    Dir,
}

/// What a path holds in the model.
pub enum Node {
    File(Seq<u8>),
    Link(Seq<u8>),
    Dir,
}

/// A filesystem: what each existing path holds.
pub type Disk = Map<Seq<u8>, Node>;

pub open spec fn kind_of(d: Disk, p: Seq<u8>) -> Kind {
    if !d.contains_key(p) {
        Kind::Absent
    } else {
        match d[p] {
            Node::File(_) => Kind::File,
            Node::Link(_) => Kind::Link,
            Node::Dir => Kind::Dir,
        }
    }
}

/// The bytes read at `p`, following one link.
pub open spec fn content(d: Disk, p: Seq<u8>) -> Option<Seq<u8>> {
    if !d.contains_key(p) {
        None
    } else {
        match d[p] {
            Node::File(c) => Some(c),
            Node::Link(t) => if d.contains_key(t) && d[t] is File {
                Some(d[t]->File_0)
            } else {
                None
            },
            Node::Dir => None,
        }
    }
}

/// The filesystem after `a` succeeds on `d`, or `None` where `a` cannot succeed.
pub open spec fn effect(d: Disk, a: ActionView) -> Option<Disk> {
    match a {
        ActionView::MakeLink { at, to } => if d.contains_key(at) {
            None
        } else {
            Some(d.insert(at, Node::Link(to)))
        },
        ActionView::MakeDir { path } => match kind_of(d, path) {
            Kind::Absent => Some(d.insert(path, Node::Dir)),
            Kind::Dir => Some(d),
            _ => None,
        },
        ActionView::CopyFile { from, to } => match content(d, from) {
            Some(c) => if kind_of(d, to) == Kind::Absent {
                Some(d.insert(to, Node::File(c)))
            } else {
                None
            },
            None => None,
        },
        ActionView::RemovePath { path } => if kind_of(d, path) == Kind::File || kind_of(d, path) == Kind::Link {
            Some(d.remove(path))
        } else {
            None
        },
        ActionView::Rename { from, to } => if d.contains_key(from) && kind_of(d, to) != Kind::Dir {
            Some(d.remove(from).insert(to, d[from]))
        } else {
            None
        },
    }
}

/// Performs `steps` from the one at `i` on `d`. The step at `k` succeeds when
/// `oks[k]` allows it and the model says it can; a failed step leaves the
/// disk as it was. Gives the final disk and the outcome of each step
/// performed; a failed step that aborts ends the run.
pub open spec fn play(d: Disk, steps: Seq<StepView>, oks: Seq<bool>, i: int) -> (Disk, Seq<bool>)
    decreases steps.len() - i,
{
    if i < 0 || i >= steps.len() {
        (d, Seq::empty())
    } else {
        let e = effect(d, steps[i].action);
        let ok = i < oks.len() && oks[i] && e is Some;
        let d2 = if ok { e->Some_0 } else { d };
        if !ok && steps[i].abort {
            (d2, seq![false])
        } else {
            let rest = play(d2, steps, oks, i + 1);
            (rest.0, seq![ok] + rest.1)
        }
    }
}

/// Performs every step with nothing but the model to make it fail.
pub open spec fn play_all(d: Disk, steps: Seq<StepView>) -> (Disk, Seq<bool>) {
    play(d, steps, Seq::new(steps.len(), |k: int| true), 0)
}

/// Whether `a` may change what is at `p`.
pub open spec fn action_writes(a: ActionView, p: Seq<u8>) -> bool {
    match a {
        ActionView::MakeLink { at, to } => at == p,
        ActionView::MakeDir { path } => path == p,
        ActionView::CopyFile { from, to } => to == p,
        ActionView::RemovePath { path } => path == p,
        ActionView::Rename { from, to } => from == p || to == p,
    }
}

/// Whether some step may change what is at `p`.
pub open spec fn steps_write(steps: Seq<StepView>, p: Seq<u8>) -> bool {
    exists|k: int| 0 <= k < steps.len() && action_writes(#[trigger] steps[k].action, p)
}

/// What no step writes stays as it was, whichever steps fail.
pub proof fn lemma_frame(d: Disk, steps: Seq<StepView>, oks: Seq<bool>, i: int, p: Seq<u8>)
    requires
        0 <= i,
        !steps_write(steps, p),
    ensures
        play(d, steps, oks, i).0.contains_key(p) == d.contains_key(p),
        d.contains_key(p) ==> play(d, steps, oks, i).0[p] == d[p],
    decreases steps.len() - i,
{
    if i < steps.len() {
        let a = steps[i].action;
        assert(!action_writes(a, p));
        let e = effect(d, a);
        let ok = i < oks.len() && oks[i] && e is Some;
        if ok {
            let d2 = e->Some_0;
            assert(d2.contains_key(p) == d.contains_key(p));
            assert(d.contains_key(p) ==> d2[p] == d[p]);
            lemma_frame(d2, steps, oks, i + 1, p);
        } else {
            lemma_frame(d, steps, oks, i + 1, p);
        }
    }
}

} // verus!
