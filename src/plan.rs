//! Filesystem steps and the executor state that a driver advances.
//!
//! An operation is planned as a sequence of steps. The driver asks the run
//! for the next action, performs it, and reports the result; the run stops
//! at the end of the plan or at the first failed step that must not be
//! passed over.
use vstd::prelude::*;
use crate::path::copy_bytes;

verus! {

/// One filesystem action, on absolute paths.
#[derive(Clone, Debug, PartialEq, Eq)]
pub enum Action {
    /// Create a symbolic link at `at` that points to `to`; `at` must not exist.
    MakeLink { at: Vec<u8>, to: Vec<u8> },
    /// Create the directory `path` with its parents, unless it is a directory already.
    MakeDir { path: Vec<u8> },
    /// Write the bytes that `from` holds (through a link) to a new regular
    /// file at `to`; nothing may exist at `to`.
    CopyFile { from: Vec<u8>, to: Vec<u8> },
    /// Remove the regular file or symbolic link at `path`.
    RemovePath { path: Vec<u8> },
    /// Move what is at `from` over `to`, in one step.
    Rename { from: Vec<u8>, to: Vec<u8> },
}

pub enum ActionView {
    MakeLink { at: Seq<u8>, to: Seq<u8> },
    MakeDir { path: Seq<u8> },
    CopyFile { from: Seq<u8>, to: Seq<u8> },
    RemovePath { path: Seq<u8> },
    Rename { from: Seq<u8>, to: Seq<u8> },
}

impl View for Action {
    type V = ActionView;

    open spec fn view(&self) -> ActionView {
        match self {
            Action::MakeLink { at, to } => ActionView::MakeLink { at: at@, to: to@ },
            Action::MakeDir { path } => ActionView::MakeDir { path: path@ },
            Action::CopyFile { from, to } => ActionView::CopyFile { from: from@, to: to@ },
            Action::RemovePath { path } => ActionView::RemovePath { path: path@ },
            Action::Rename { from, to } => ActionView::Rename { from: from@, to: to@ },
        }
    }
}

impl Action {
    pub fn duplicate(&self) -> (r: Action)
        ensures
            r@ == self@,
    {
        match self {
            Action::MakeLink { at, to } => Action::MakeLink { at: copy_bytes(at), to: copy_bytes(to) },
            Action::MakeDir { path } => Action::MakeDir { path: copy_bytes(path) },
            Action::CopyFile { from, to } => Action::CopyFile { from: copy_bytes(from), to: copy_bytes(to) },
            Action::RemovePath { path } => Action::RemovePath { path: copy_bytes(path) },
            Action::Rename { from, to } => Action::Rename { from: copy_bytes(from), to: copy_bytes(to) },
        }
    }
}

/// An action and what a failure of it means for the rest of the plan.
#[derive(Clone, Debug, PartialEq, Eq)]
pub struct Step {
    pub action: Action,
    /// A failure of this step ends the run.
    pub abort_on_failure: bool,
}

pub struct StepView {
    pub action: ActionView,
    pub abort: bool,
}

impl View for Step {
    type V = StepView;

    open spec fn view(&self) -> StepView {
        StepView { action: self.action@, abort: self.abort_on_failure }
    }
}

pub open spec fn step(action: ActionView, abort: bool) -> StepView {
    StepView { action, abort }
}

pub open spec fn steps_view(v: Seq<Step>) -> Seq<StepView> {
    v.map_values(|s: Step| s@)
}

/// A run may have these outcomes: every reported step but the last
/// succeeded or may be passed over.
pub open spec fn outcomes_fit(steps: Seq<StepView>, outcomes: Seq<bool>) -> bool {
    &&& outcomes.len() <= steps.len()
    &&& forall|k: int| 0 <= k < outcomes.len() - 1 ==> #[trigger] outcomes[k] || !steps[k].abort
}

/// The run is over: every step was reported, or the last one reported
/// failed and ends the run.
pub open spec fn is_done(steps: Seq<StepView>, outcomes: Seq<bool>) -> bool {
    ||| outcomes.len() == steps.len()
    ||| (outcomes.len() > 0 && !outcomes.last() && steps[outcomes.len() - 1].abort)
}

/// Every step of the plan was performed and succeeded.
pub open spec fn all_ok(steps: Seq<StepView>, outcomes: Seq<bool>) -> bool {
    outcomes.len() == steps.len() && forall|k: int| 0 <= k < outcomes.len() ==> #[trigger] outcomes[k]
}

pub open spec fn cause_view(r: Option<String>) -> Option<Seq<char>> {
    match r {
        Some(e) => Some(e@),
        None => None,
    }
}

/// The most recent failure's cause, or the empty text.
pub open spec fn last_cause(c: Seq<Option<Seq<char>>>) -> Seq<char>
    decreases c.len(),
{
    if c.len() == 0 {
        Seq::empty()
    } else if c.last() is Some {
        c.last()->Some_0
    } else {
        last_cause(c.drop_last())
    }
}

/// The executor state of one planned operation.
pub struct Run {
    steps: Vec<Step>,
    results: Vec<Option<String>>,
}

impl Run {
    /// The planned steps.
    pub closed spec fn steps(&self) -> Seq<StepView> {
        steps_view(self.steps@)
    }

    /// For each performed step, in order, `None` where it succeeded and the
    /// reported cause where it failed.
    pub closed spec fn causes(&self) -> Seq<Option<Seq<char>>> {
        self.results@.map_values(|r: Option<String>| cause_view(r))
    }

    /// Which of the performed steps succeeded, in order.
    pub open spec fn outcomes(&self) -> Seq<bool> {
        self.causes().map_values(|c: Option<Seq<char>>| c is None)
    }

    pub open spec fn wf(&self) -> bool {
        outcomes_fit(self.steps(), self.outcomes())
    }

    pub open spec fn finished(&self) -> bool {
        is_done(self.steps(), self.outcomes())
    }

    pub fn new(steps: Vec<Step>) -> (r: Run)
        ensures
            r.steps() == steps_view(steps@),
            r.causes() == Seq::<Option<Seq<char>>>::empty(),
            r.outcomes() == Seq::<bool>::empty(),
            r.wf(),
    {
        let r = Run { steps, results: Vec::new() };
        assert(r.causes() =~= Seq::<Option<Seq<char>>>::empty());
        assert(r.outcomes() =~= Seq::<bool>::empty());
        r
    }

    pub fn is_finished(&self) -> (r: bool)
        requires
            self.wf(),
        ensures
            r == self.finished(),
    {
        let n = self.results.len();
        if n == self.steps.len() {
            return true;
        }
        n > 0 && self.results[n - 1].is_some() && self.steps[n - 1].abort_on_failure
    }

    /// The action to perform next, or `None` once the run is over.
    pub fn next_action(&self) -> (r: Option<Action>)
        requires
            self.wf(),
        ensures
            r is None <==> self.finished(),
            r matches Some(a) ==> a@ == self.steps()[self.outcomes().len() as int].action,
    {
        if self.is_finished() {
            None
        } else {
            Some(self.steps[self.results.len()].action.duplicate())
        }
    }

    /// Records the result of the action that `next_action` gave.
    pub fn report(&mut self, result: Result<(), String>)
        requires
            old(self).wf(),
            !old(self).finished(),
        ensures
            final(self).wf(),
            final(self).steps() == old(self).steps(),
            final(self).outcomes() == old(self).outcomes().push(result is Ok),
            final(self).causes() == old(self).causes().push(match result {
                Ok(_) => None,
                Err(e) => Some(e@),
            }),
    {
        let r = match result {
            Ok(()) => None,
            Err(e) => Some(e),
        };
        self.results.push(r);
        assert(self.causes() =~= old(self).causes().push(cause_view(r)));
        assert(self.outcomes() =~= old(self).outcomes().push(result is Ok));
    }

    /// The cause of the last failure reported, or an empty text if none failed.
    pub fn last_error(&self) -> (r: String)
        ensures
            r@ == last_cause(self.causes()),
    {
        let mut i: usize = self.results.len();
        assert(self.causes().subrange(0, i as int) =~= self.causes());
        while i > 0
            invariant
                i <= self.results.len(),
                self.causes().len() == self.results@.len(),
                last_cause(self.causes()) == last_cause(self.causes().subrange(0, i as int)),
            decreases i,
        {
            assert(self.causes().subrange(0, i - 1) =~= self.causes().subrange(0, i as int).drop_last());
            i = i - 1;
            if let Some(e) = &self.results[i] {
                assert(self.causes()[i as int] == Some(e@));
                return e.clone();
            }
        }
        String::new()
    }

    /// Whether the step at `i` was performed and succeeded.
    pub fn succeeded(&self, i: usize) -> (r: bool)
        ensures
            r == (i < self.outcomes().len() && self.outcomes()[i as int]),
    {
        if i < self.results.len() {
            assert(self.causes()[i as int] == cause_view(self.results@[i as int]));
            self.results[i].is_none()
        } else {
            false
        }
    }

    /// Every step of the plan was performed and succeeded.
    pub fn all_succeeded(&self) -> (r: bool)
        ensures
            r == all_ok(self.steps(), self.outcomes()),
    {
        let n = self.steps.len();
        if self.results.len() != n {
            return false;
        }
        let mut i: usize = 0;
        while i < n
            invariant
                i <= n,
                n == self.outcomes().len(),
                n == self.steps().len(),
                forall|k: int| 0 <= k < i ==> #[trigger] self.outcomes()[k],
            decreases n - i,
        {
            if !self.succeeded(i) {
                return false;
            }
            i = i + 1;
        }
        true
    }

    pub fn performed(&self) -> (r: usize)
        ensures
            r == self.outcomes().len(),
            r == self.causes().len(),
    {
        self.results.len()
    }

    pub fn planned(&self) -> (r: usize)
        ensures
            r == self.steps().len(),
    {
        self.steps.len()
    }
}

} // verus!
