//! The lifecycle engine: how each operation is planned as filesystem steps
//! and how the tracking records follow the steps' outcomes.
//!
//! Each operation has a `*_begin` that decides, from the records and what the
//! driver found on disk, whether there is anything to do and with which
//! steps, and a `*_finish` that settles the records once the run is over.
use vstd::prelude::*;
use crate::disk::Kind;
use crate::error::{ForgeError, ItemOutcome};
use crate::path::{bytes_eq, copy_bytes, swap_path, swap_path_spec};
use crate::plan::{Action, ActionView, Run, Step, StepView, all_ok, last_cause, step, steps_view};
use crate::store::{
    DotfileRecord, RecordView, Status, TrackingStore, by_target, has_source, has_target,
    is_staged_pair, mark_linked, profile_view, staged_record, without_target,
};

verus! {

/// One item to stage: the original and where its link goes in the managed folder.
#[derive(Clone, Debug, PartialEq, Eq)]
pub struct StageTask {
    pub source: Vec<u8>,
    pub target: Vec<u8>,
    /// The source is a directory, staged as one unit.
    pub as_dir: bool,
    /// The profile the record is filed under.
    pub profile: Option<String>,
}

// ---- plans ----

pub open spec fn stage_steps(source: Seq<u8>, target: Seq<u8>, as_dir: bool) -> Seq<StepView> {
    if as_dir {
        seq![step(ActionView::MakeDir { path: target }, true)]
    } else {
        seq![step(ActionView::MakeLink { at: target, to: source }, true)]
    }
}

/// Copy, link beside the original, then move the link over the original,
/// so that the link exists before the original content goes.
pub open spec fn relocate_steps(source: Seq<u8>, target: Seq<u8>) -> Seq<StepView> {
    seq![
        step(ActionView::CopyFile { from: source, to: target }, true),
        step(ActionView::MakeLink { at: swap_path_spec(source), to: target }, true),
        step(ActionView::Rename { from: swap_path_spec(source), to: source }, true),
    ]
}

pub open spec fn link_steps(source: Seq<u8>, target: Seq<u8>, source_kind: Kind, target_kind: Kind) -> Seq<StepView> {
    if source_kind == Kind::Dir {
        Seq::empty()
    } else if target_kind == Kind::File || target_kind == Kind::Link {
        seq![step(ActionView::RemovePath { path: target }, true)] + relocate_steps(source, target)
    } else {
        relocate_steps(source, target)
    }
}

/// Copy the canonical content beside the link, then move it over the link.
pub open spec fn restore_steps(source: Seq<u8>, target: Seq<u8>) -> Seq<StepView> {
    seq![
        step(ActionView::CopyFile { from: target, to: swap_path_spec(source) }, true),
        step(ActionView::Rename { from: swap_path_spec(source), to: source }, true),
    ]
}

pub open spec fn remove_steps(source: Seq<u8>, target: Seq<u8>, source_kind: Kind) -> Seq<StepView> {
    if source_kind == Kind::Link {
        restore_steps(source, target) + seq![step(ActionView::RemovePath { path: target }, true)]
    } else {
        seq![step(ActionView::RemovePath { path: target }, true)]
    }
}

/// The original goes first and its failure does not stop the run.
pub open spec fn delete_steps(source: Seq<u8>, target: Seq<u8>) -> Seq<StepView> {
    seq![
        step(ActionView::RemovePath { path: source }, false),
        step(ActionView::RemovePath { path: target }, true),
    ]
}

pub open spec fn discard_steps(p: Seq<u8>) -> Seq<StepView> {
    seq![step(ActionView::RemovePath { path: p }, true)]
}

// ---- what the records become ----

/// Staging records the pair once its one step succeeded.
pub open spec fn stage_after(
    s: Seq<RecordView>,
    source: Seq<u8>,
    target: Seq<u8>,
    profile: Option<Seq<char>>,
    outcomes: Seq<bool>,
) -> Seq<RecordView> {
    if outcomes == seq![true] && !has_source(s, source) && !has_target(s, target) {
        s.push(staged_record(source, target, profile))
    } else {
        s
    }
}

/// The pair is tracked and staged.
pub open spec fn staged_pair_in(s: Seq<RecordView>, source: Seq<u8>, target: Seq<u8>) -> bool {
    exists|i: int| 0 <= i < s.len() && is_staged_pair(#[trigger] s[i], source, target)
}

/// Staging is planned for a pair neither of whose ends is tracked, where
/// nothing exists at the target.
pub open spec fn stage_admits(s: Seq<RecordView>, source: Seq<u8>, target: Seq<u8>, target_kind: Kind) -> bool {
    !has_target(s, target) && target_kind == Kind::Absent && !has_source(s, source)
}

/// Linking is planned for a staged pair whose source exists and whose ends
/// and side path are three different paths; for a file the side path must
/// also be free, so that no step writes over anything but the pair's own ends.
pub open spec fn link_admits(s: Seq<RecordView>, source: Seq<u8>, target: Seq<u8>, source_kind: Kind, swap_kind: Kind) -> bool {
    &&& staged_pair_in(s, source, target)
    &&& source_kind != Kind::Absent
    &&& source != target
    &&& target != swap_path_spec(source)
    &&& (source_kind != Kind::Dir ==> swap_kind == Kind::Absent)
}

/// Linking marks the record once every step succeeded, so that a linked
/// record's source is the link.
pub open spec fn link_after(s: Seq<RecordView>, source: Seq<u8>, target: Seq<u8>, steps: Seq<StepView>, outcomes: Seq<bool>) -> Seq<RecordView> {
    if all_ok(steps, outcomes) {
        mark_linked(s, source, target)
    } else {
        s
    }
}

/// Unlinking drops the record once the content was copied back.
pub open spec fn unlink_after(s: Seq<RecordView>, target: Seq<u8>, outcomes: Seq<bool>) -> Seq<RecordView> {
    if outcomes.len() > 0 && outcomes[0] {
        without_target(s, target)
    } else {
        s
    }
}

/// Removing drops the record once every step succeeded.
pub open spec fn remove_after(s: Seq<RecordView>, target: Seq<u8>, steps: Seq<StepView>, outcomes: Seq<bool>) -> Seq<RecordView> {
    if all_ok(steps, outcomes) {
        without_target(s, target)
    } else {
        s
    }
}

/// The last planned step was performed and succeeded.
pub open spec fn last_ok(steps: Seq<StepView>, outcomes: Seq<bool>) -> bool {
    steps.len() > 0 && outcomes.len() == steps.len() && outcomes.last()
}

/// Deleting drops the record once the canonical copy, the last step, is gone.
pub open spec fn delete_after(s: Seq<RecordView>, target: Seq<u8>, steps: Seq<StepView>, outcomes: Seq<bool>) -> Seq<RecordView> {
    if last_ok(steps, outcomes) {
        without_target(s, target)
    } else {
        s
    }
}

// ---- step builders ----

fn one_step(action: Action, abort: bool) -> (r: Step)
    ensures
        r@ == step(action@, abort),
{
    Step { action, abort_on_failure: abort }
}

fn restore_plan(source: &Vec<u8>, target: &Vec<u8>) -> (r: Vec<Step>)
    ensures
        steps_view(r@) == restore_steps(source@, target@),
{
    let mut v: Vec<Step> = Vec::new();
    v.push(one_step(Action::CopyFile { from: copy_bytes(target), to: swap_path(source) }, true));
    v.push(one_step(Action::Rename { from: swap_path(source), to: copy_bytes(source) }, true));
    assert(steps_view(v@) =~= restore_steps(source@, target@));
    v
}

// ---- stage ----

/// Decides whether `task` is staged. It is skipped where its target is tracked
/// already or something exists there, refused where its source is tracked
/// under another target, and otherwise planned.
pub fn stage_begin(store: &TrackingStore, task: &StageTask, target_kind: Kind) -> (r: Result<Run, ItemOutcome>)
    requires
        store.wf(),
    ensures
        r matches Err(o) ==> {
            ||| o == ItemOutcome::SkippedExisting && (has_target(store@, task.target@) || target_kind != Kind::Absent)
            ||| o == ItemOutcome::Failed(ForgeError::Conflict) && !has_target(store@, task.target@)
                && target_kind == Kind::Absent && has_source(store@, task.source@)
        },
        r is Ok <==> stage_admits(store@, task.source@, task.target@, target_kind),
        r matches Ok(run) ==> run.wf() && run.outcomes().len() == 0
            && run.steps() == stage_steps(task.source@, task.target@, task.as_dir),
{
    if store.contains_target(&task.target) || target_kind != Kind::Absent {
        return Err(ItemOutcome::SkippedExisting);
    }
    if store.contains_source(&task.source) {
        return Err(ItemOutcome::Failed(ForgeError::Conflict));
    }
    let mut v: Vec<Step> = Vec::new();
    if task.as_dir {
        v.push(one_step(Action::MakeDir { path: copy_bytes(&task.target) }, true));
    } else {
        v.push(one_step(Action::MakeLink { at: copy_bytes(&task.target), to: copy_bytes(&task.source) }, true));
    }
    assert(steps_view(v@) =~= stage_steps(task.source@, task.target@, task.as_dir));
    Ok(Run::new(v))
}

/// Records the staged pair once the step succeeded; a failed step leaves no record.
pub fn stage_finish(store: &mut TrackingStore, task: &StageTask, run: &Run) -> (r: ItemOutcome)
    requires
        old(store).wf(),
    ensures
        final(store).wf(),
        final(store)@ == stage_after(old(store)@, task.source@, task.target@, profile_view(task.profile), run.outcomes()),
        r == ItemOutcome::Success <==> final(store)@ != old(store)@,
        run.outcomes() == seq![true] && !has_source(old(store)@, task.source@) && !has_target(old(store)@, task.target@)
            ==> r == ItemOutcome::Success,
        run.outcomes() != seq![true] ==> r is Failed,
        !(r is SkippedExisting),
        !(r is Partial),
        r matches ItemOutcome::Failed(ForgeError::IoFailure(m)) ==> m@ == last_cause(run.causes()),
        r matches ItemOutcome::Partial(m) ==> m@ == last_cause(run.causes()),
{
    if !(run.performed() == 1 && run.succeeded(0)) {
        assert(run.outcomes() != seq![true]);
        return ItemOutcome::Failed(ForgeError::IoFailure(run.last_error()));
    }
    assert(run.outcomes() =~= seq![true]);
    let profile = match &task.profile {
        Some(p) => Some(p.clone()),
        None => None,
    };
    match store.insert(copy_bytes(&task.source), copy_bytes(&task.target), profile) {
        Ok(()) => {
            assert(old(store)@.len() != store@.len());
            ItemOutcome::Success
        },
        Err(e) => ItemOutcome::Failed(e),
    }
}

// ---- link ----

/// Plans linking `rec`, given what the driver found at its source, at its
/// target, and at the side path of its source. A directory source is only
/// marked, not moved.
pub fn link_begin(store: &TrackingStore, rec: &DotfileRecord, source_kind: Kind, target_kind: Kind, swap_kind: Kind) -> (r: Result<Run, ItemOutcome>)
    requires
        store.wf(),
    ensures
        r is Ok <==> link_admits(store@, rec.source@, rec.target@, source_kind, swap_kind),
        r matches Err(o) ==> {
            ||| o == ItemOutcome::Failed(ForgeError::NotFound)
                && !(staged_pair_in(store@, rec.source@, rec.target@) && source_kind != Kind::Absent)
            ||| o == ItemOutcome::Failed(ForgeError::Conflict)
                && staged_pair_in(store@, rec.source@, rec.target@) && source_kind != Kind::Absent
        },
        r matches Ok(run) ==> run.wf() && run.outcomes().len() == 0
            && run.steps() == link_steps(rec.source@, rec.target@, source_kind, target_kind),
{
    if source_kind == Kind::Absent {
        return Err(ItemOutcome::Failed(ForgeError::NotFound));
    }
    match store.find_by_source(&rec.source) {
        None => {
            return Err(ItemOutcome::Failed(ForgeError::NotFound));
        },
        Some(found) => {
            if !bytes_eq(&found.target, &rec.target) || !found.is_staged() {
                assert forall|i: int| 0 <= i < store@.len() implies !is_staged_pair(#[trigger] store@[i], rec.source@, rec.target@) by {
                    let j = choose|j: int| 0 <= j < store@.len() && #[trigger] store@[j].source == rec.source@;
                    if store@[i].source == rec.source@ && i != j {
                        assert(store@[i].source != store@[j].source);
                    }
                }
                return Err(ItemOutcome::Failed(ForgeError::NotFound));
            }
            let ghost j = choose|j: int| 0 <= j < store@.len() && #[trigger] store@[j].source == rec.source@;
            assert(is_staged_pair(store@[j], rec.source@, rec.target@));
        },
    }
    let swap = swap_path(&rec.source);
    if bytes_eq(&rec.source, &rec.target) || bytes_eq(&rec.target, &swap)
        || (source_kind != Kind::Dir && swap_kind != Kind::Absent) {
        return Err(ItemOutcome::Failed(ForgeError::Conflict));
    }
    let mut v: Vec<Step> = Vec::new();
    if source_kind != Kind::Dir {
        if target_kind == Kind::File || target_kind == Kind::Link {
            v.push(one_step(Action::RemovePath { path: copy_bytes(&rec.target) }, true));
        }
        v.push(one_step(Action::CopyFile { from: copy_bytes(&rec.source), to: copy_bytes(&rec.target) }, true));
        v.push(one_step(Action::MakeLink { at: swap_path(&rec.source), to: copy_bytes(&rec.target) }, true));
        v.push(one_step(Action::Rename { from: swap, to: copy_bytes(&rec.source) }, true));
    }
    assert(steps_view(v@) =~= link_steps(rec.source@, rec.target@, source_kind, target_kind));
    Ok(Run::new(v))
}

/// Marks the record linked once every step succeeded. Any failure, the last
/// move over the original included, leaves the record staged.
pub fn link_finish(store: &mut TrackingStore, rec: &DotfileRecord, run: &Run) -> (r: ItemOutcome)
    requires
        old(store).wf(),
    ensures
        final(store).wf(),
        final(store)@ == link_after(old(store)@, rec.source@, rec.target@, run.steps(), run.outcomes()),
        r == ItemOutcome::Success <==> all_ok(run.steps(), run.outcomes()) && staged_pair_in(old(store)@, rec.source@, rec.target@),
        r != ItemOutcome::Success ==> r is Failed,
        !all_ok(run.steps(), run.outcomes()) ==> r is Failed,
        r matches ItemOutcome::Failed(ForgeError::IoFailure(m)) ==> m@ == last_cause(run.causes()),
{
    if !run.all_succeeded() {
        return ItemOutcome::Failed(ForgeError::IoFailure(run.last_error()));
    }
    match store.transition_to_linked(&rec.source, &rec.target) {
        Ok(()) => ItemOutcome::Success,
        Err(e) => {
            proof {
                assert(mark_linked(old(store)@, rec.source@, rec.target@) =~= old(store)@);
            }
            ItemOutcome::Failed(e)
        },
    }
}

// ---- unlink ----

/// The record whose canonical copy is `target`, where it is linked.
pub open spec fn linked_at(s: Seq<RecordView>, target: Seq<u8>) -> bool {
    by_target(s, target) matches Some(x) && x.status == Status::Linked
}

/// Plans restoring the original of the linked record whose canonical copy is
/// `target`, once the user confirmed. `swap_kind` is what the driver found at
/// the side path of that record's source, which must be free.
pub fn unlink_begin(store: &TrackingStore, target: &Vec<u8>, confirmed: bool, swap_kind: Kind) -> (r: Result<Run, ItemOutcome>)
    requires
        store.wf(),
    ensures
        r is Ok <==> linked_at(store@, target@) && swap_kind == Kind::Absent && confirmed,
        r matches Err(o) ==> {
            ||| o == ItemOutcome::Failed(ForgeError::NotFound) && !linked_at(store@, target@)
            ||| o == ItemOutcome::Failed(ForgeError::Conflict) && linked_at(store@, target@) && swap_kind != Kind::Absent
            ||| o == ItemOutcome::Failed(ForgeError::UserAborted) && linked_at(store@, target@)
                && swap_kind == Kind::Absent && !confirmed
        },
        r matches Ok(run) ==> run.wf() && run.outcomes().len() == 0
            && run.steps() == restore_steps(by_target(store@, target@)->Some_0.source, target@),
{
    let rec = match store.find_by_target(target) {
        Some(x) => x,
        None => {
            return Err(ItemOutcome::Failed(ForgeError::NotFound));
        },
    };
    if rec.status != Status::Linked {
        return Err(ItemOutcome::Failed(ForgeError::NotFound));
    }
    if swap_kind != Kind::Absent {
        return Err(ItemOutcome::Failed(ForgeError::Conflict));
    }
    if !confirmed {
        return Err(ItemOutcome::Failed(ForgeError::UserAborted));
    }
    Ok(Run::new(restore_plan(&rec.source, target)))
}

/// Drops the record once the content was copied back; a failed copy leaves
/// everything as it was, and a failed final move is reported.
pub fn unlink_finish(store: &mut TrackingStore, target: &Vec<u8>, run: &Run) -> (r: ItemOutcome)
    requires
        old(store).wf(),
    ensures
        final(store).wf(),
        final(store)@ == unlink_after(old(store)@, target@, run.outcomes()),
        !(run.outcomes().len() > 0 && run.outcomes()[0]) ==> r is Failed,
        all_ok(run.steps(), run.outcomes()) && run.steps().len() > 0 && has_target(old(store)@, target@)
            ==> r == ItemOutcome::Success,
        r == ItemOutcome::Success ==> all_ok(run.steps(), run.outcomes()),
        !(r is SkippedExisting),
        r matches ItemOutcome::Failed(ForgeError::IoFailure(m)) ==> m@ == last_cause(run.causes()),
        r matches ItemOutcome::Partial(m) ==> m@ == last_cause(run.causes()),
{
    if !run.succeeded(0) {
        return ItemOutcome::Failed(ForgeError::IoFailure(run.last_error()));
    }
    if let Err(e) = store.deactivate(target) {
        return ItemOutcome::Failed(e);
    }
    if run.all_succeeded() {
        ItemOutcome::Success
    } else {
        ItemOutcome::Partial(run.last_error())
    }
}

// ---- remove ----

/// A remove that restores the original first needs the source's side path free.
pub open spec fn remove_blocked(source_kind: Kind, swap_kind: Kind) -> bool {
    source_kind == Kind::Link && swap_kind != Kind::Absent
}

/// Plans dropping the record whose canonical copy is `target` and that copy,
/// with the original restored first where `source_kind` says it is a link.
/// `swap_kind` is what the driver found at the side path of the record's source.
pub fn remove_begin(store: &TrackingStore, target: &Vec<u8>, confirmed: bool, source_kind: Kind, swap_kind: Kind) -> (r: Result<Run, ItemOutcome>)
    requires
        store.wf(),
    ensures
        r is Ok <==> has_target(store@, target@) && !remove_blocked(source_kind, swap_kind) && confirmed,
        r matches Err(o) ==> {
            ||| o == ItemOutcome::Failed(ForgeError::NotFound) && !has_target(store@, target@)
            ||| o == ItemOutcome::Failed(ForgeError::Conflict) && has_target(store@, target@)
                && remove_blocked(source_kind, swap_kind)
            ||| o == ItemOutcome::Failed(ForgeError::UserAborted) && has_target(store@, target@)
                && !remove_blocked(source_kind, swap_kind) && !confirmed
        },
        r matches Ok(run) ==> run.wf() && run.outcomes().len() == 0
            && run.steps() == remove_steps(by_target(store@, target@)->Some_0.source, target@, source_kind),
{
    let rec = match store.find_by_target(target) {
        Some(x) => x,
        None => {
            return Err(ItemOutcome::Failed(ForgeError::NotFound));
        },
    };
    if source_kind == Kind::Link && swap_kind != Kind::Absent {
        return Err(ItemOutcome::Failed(ForgeError::Conflict));
    }
    if !confirmed {
        return Err(ItemOutcome::Failed(ForgeError::UserAborted));
    }
    let mut v: Vec<Step> = if source_kind == Kind::Link {
        restore_plan(&rec.source, target)
    } else {
        Vec::new()
    };
    v.push(one_step(Action::RemovePath { path: copy_bytes(target) }, true));
    assert(steps_view(v@) =~= remove_steps(rec.source@, target@, source_kind));
    Ok(Run::new(v))
}

/// Drops the record once every step succeeded.
pub fn remove_finish(store: &mut TrackingStore, target: &Vec<u8>, run: &Run) -> (r: ItemOutcome)
    requires
        old(store).wf(),
    ensures
        final(store).wf(),
        final(store)@ == remove_after(old(store)@, target@, run.steps(), run.outcomes()),
        r == ItemOutcome::Success <==> all_ok(run.steps(), run.outcomes()) && has_target(old(store)@, target@),
        r != ItemOutcome::Success ==> r is Failed,
        r matches ItemOutcome::Failed(ForgeError::IoFailure(m)) ==> m@ == last_cause(run.causes()),
{
    if !run.all_succeeded() {
        return ItemOutcome::Failed(ForgeError::IoFailure(run.last_error()));
    }
    match store.remove(target) {
        Ok(()) => ItemOutcome::Success,
        Err(e) => ItemOutcome::Failed(e),
    }
}

// ---- delete ----

/// Plans deleting both the original and the canonical copy of the record
/// whose canonical copy is `target`, once the user confirmed.
pub fn delete_begin(store: &TrackingStore, target: &Vec<u8>, confirmed: bool) -> (r: Result<Run, ItemOutcome>)
    requires
        store.wf(),
    ensures
        r is Ok <==> has_target(store@, target@) && confirmed,
        r matches Err(o) ==> {
            ||| o == ItemOutcome::Failed(ForgeError::NotFound) && !has_target(store@, target@)
            ||| o == ItemOutcome::Failed(ForgeError::UserAborted) && has_target(store@, target@) && !confirmed
        },
        r matches Ok(run) ==> run.wf() && run.outcomes().len() == 0
            && run.steps() == delete_steps(by_target(store@, target@)->Some_0.source, target@),
{
    let rec = match store.find_by_target(target) {
        Some(x) => x,
        None => {
            return Err(ItemOutcome::Failed(ForgeError::NotFound));
        },
    };
    if !confirmed {
        return Err(ItemOutcome::Failed(ForgeError::UserAborted));
    }
    let mut v: Vec<Step> = Vec::new();
    v.push(one_step(Action::RemovePath { path: copy_bytes(&rec.source) }, false));
    v.push(one_step(Action::RemovePath { path: copy_bytes(target) }, true));
    assert(steps_view(v@) =~= delete_steps(rec.source@, target@));
    Ok(Run::new(v))
}

/// Drops the record once the canonical copy is gone; a failure to remove the
/// original is reported without stopping that.
pub fn delete_finish(store: &mut TrackingStore, target: &Vec<u8>, run: &Run) -> (r: ItemOutcome)
    requires
        old(store).wf(),
    ensures
        final(store).wf(),
        final(store)@ == delete_after(old(store)@, target@, run.steps(), run.outcomes()),
        !last_ok(run.steps(), run.outcomes()) ==> r is Failed,
        all_ok(run.steps(), run.outcomes()) && run.steps().len() > 0 && has_target(old(store)@, target@)
            ==> r == ItemOutcome::Success,
        r == ItemOutcome::Success ==> all_ok(run.steps(), run.outcomes()),
        !(r is SkippedExisting),
        r matches ItemOutcome::Failed(ForgeError::IoFailure(m)) ==> m@ == last_cause(run.causes()),
        r matches ItemOutcome::Partial(m) ==> m@ == last_cause(run.causes()),
{
    let n = run.planned();
    if !(n > 0 && run.performed() == n && run.succeeded(n - 1)) {
        return ItemOutcome::Failed(ForgeError::IoFailure(run.last_error()));
    }
    if let Err(e) = store.remove(target) {
        return ItemOutcome::Failed(e);
    }
    if run.all_succeeded() {
        ItemOutcome::Success
    } else {
        ItemOutcome::Partial(run.last_error())
    }
}

// ---- untracked paths ----

/// Plans removing an untracked symbolic link at `path`: anything else there
/// is left alone.
pub fn unlink_untracked_begin(path: &Vec<u8>, kind: Kind, confirmed: bool) -> (r: Result<Run, ItemOutcome>)
    ensures
        r is Ok <==> kind == Kind::Link && confirmed,
        r matches Err(o) ==> {
            ||| o == ItemOutcome::Failed(ForgeError::NotFound) && kind != Kind::Link
            ||| o == ItemOutcome::Failed(ForgeError::UserAborted) && kind == Kind::Link && !confirmed
        },
        r matches Ok(run) ==> run.wf() && run.outcomes().len() == 0 && run.steps() == discard_steps(path@),
{
    if kind != Kind::Link {
        return Err(ItemOutcome::Failed(ForgeError::NotFound));
    }
    discard_begin(path, confirmed)
}

/// Plans deleting an untracked file or link at `path`.
pub fn delete_untracked_begin(path: &Vec<u8>, kind: Kind, confirmed: bool) -> (r: Result<Run, ItemOutcome>)
    ensures
        r is Ok <==> (kind == Kind::File || kind == Kind::Link) && confirmed,
        r matches Err(o) ==> {
            ||| o == ItemOutcome::Failed(ForgeError::NotFound) && !(kind == Kind::File || kind == Kind::Link)
            ||| o == ItemOutcome::Failed(ForgeError::UserAborted) && (kind == Kind::File || kind == Kind::Link) && !confirmed
        },
        r matches Ok(run) ==> run.wf() && run.outcomes().len() == 0 && run.steps() == discard_steps(path@),
{
    if kind != Kind::File && kind != Kind::Link {
        return Err(ItemOutcome::Failed(ForgeError::NotFound));
    }
    discard_begin(path, confirmed)
}

fn discard_begin(path: &Vec<u8>, confirmed: bool) -> (r: Result<Run, ItemOutcome>)
    ensures
        r is Ok <==> confirmed,
        r matches Err(o) ==> o == ItemOutcome::Failed(ForgeError::UserAborted),
        r matches Ok(run) ==> run.wf() && run.outcomes().len() == 0 && run.steps() == discard_steps(path@),
{
    if !confirmed {
        return Err(ItemOutcome::Failed(ForgeError::UserAborted));
    }
    let mut v: Vec<Step> = Vec::new();
    v.push(one_step(Action::RemovePath { path: copy_bytes(path) }, true));
    assert(steps_view(v@) =~= discard_steps(path@));
    Ok(Run::new(v))
}

/// The outcome of a run that touches no record.
pub fn untracked_finish(run: &Run) -> (r: ItemOutcome)
    ensures
        r == ItemOutcome::Success <==> all_ok(run.steps(), run.outcomes()),
        r != ItemOutcome::Success ==> r is Failed,
        r matches ItemOutcome::Failed(ForgeError::IoFailure(m)) ==> m@ == last_cause(run.causes()),
        r matches ItemOutcome::Partial(m) ==> m@ == last_cause(run.causes()),
{
    if run.all_succeeded() {
        ItemOutcome::Success
    } else {
        ItemOutcome::Failed(ForgeError::IoFailure(run.last_error()))
    }
}

// ---- batches ----

/// How many items of a batch took effect, and how many failed; skipped
/// items count as neither.
pub open spec fn tally_spec(outcomes: Seq<ItemOutcome>) -> (nat, nat)
    decreases outcomes.len(),
{
    if outcomes.len() == 0 {
        (0, 0)
    } else {
        let t = tally_spec(outcomes.drop_last());
        match outcomes.last() {
            ItemOutcome::Success => (t.0 + 1, t.1),
            ItemOutcome::Partial(_) => (t.0 + 1, t.1),
            ItemOutcome::Failed(_) => (t.0, t.1 + 1),
            ItemOutcome::SkippedExisting => t,
        }
    }
}

/// Without skipped items, every item counts once.
pub open spec fn no_skips(outcomes: Seq<ItemOutcome>) -> bool {
    forall|k: int| 0 <= k < outcomes.len() ==> !(#[trigger] outcomes[k] is SkippedExisting)
}

proof fn lemma_tally_bounded(outcomes: Seq<ItemOutcome>)
    ensures
        tally_spec(outcomes).0 + tally_spec(outcomes).1 <= outcomes.len(),
        no_skips(outcomes) ==> tally_spec(outcomes).0 + tally_spec(outcomes).1 == outcomes.len(),
    decreases outcomes.len(),
{
    if outcomes.len() > 0 {
        let rest = outcomes.drop_last();
        lemma_tally_bounded(rest);
        if no_skips(outcomes) {
            assert(no_skips(rest)) by {
                assert forall|k: int| 0 <= k < rest.len() implies !(#[trigger] rest[k] is SkippedExisting) by {
                    assert(rest[k] == outcomes[k]);
                }
            }
            assert(!(outcomes[outcomes.len() - 1] is SkippedExisting));
        }
    }
}

/// Counts the items of a batch that took effect and those that failed.
pub fn tally(outcomes: &Vec<ItemOutcome>) -> (r: (usize, usize))
    ensures
        r.0 as nat == tally_spec(outcomes@).0,
        r.1 as nat == tally_spec(outcomes@).1,
        no_skips(outcomes@) ==> r.0 + r.1 == outcomes.len(),
{
    let mut done: usize = 0;
    let mut failed: usize = 0;
    let mut i: usize = 0;
    while i < outcomes.len()
        invariant
            i <= outcomes.len(),
            done as nat == tally_spec(outcomes@.subrange(0, i as int)).0,
            failed as nat == tally_spec(outcomes@.subrange(0, i as int)).1,
        decreases outcomes.len() - i,
    {
        assert(outcomes@.subrange(0, i + 1).drop_last() =~= outcomes@.subrange(0, i as int));
        proof {
            lemma_tally_bounded(outcomes@.subrange(0, i as int));
        }
        match &outcomes[i] {
            ItemOutcome::Success => done = done + 1,
            ItemOutcome::Partial(_) => done = done + 1,
            ItemOutcome::Failed(_) => failed = failed + 1,
            ItemOutcome::SkippedExisting => {},
        }
        i = i + 1;
    }
    assert(outcomes@.subrange(0, outcomes.len() as int) =~= outcomes@);
    proof {
        lemma_tally_bounded(outcomes@);
    }
    (done, failed)
}

} // verus!
