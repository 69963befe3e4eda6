//! The commands: how the paths a user names become items for the engine.
//!
//! The driver looks at the disk first (does a path exist, is it a
//! directory, which files lie below it) and hands what it found over; the
//! functions here decide which items each command works on.
use vstd::prelude::*;
use crate::disk::Kind;
use crate::engine::StageTask;
use crate::path::{
    bytes_eq, copy_bytes, depth, depth_spec, file_name, file_name_spec, is_absolute, is_absolute_spec, join,
    join_spec, relative, relative_spec, strictly_within, strictly_within_spec, within, within_spec,
};
use crate::store::{DotfileRecord, RecordView, Status, TrackingStore, by_target, has_target, in_profile, profile_filter_view, profile_view};

verus! {

/// How a path a user named is taken, decided once for each path.
#[derive(Clone, Debug, PartialEq, Eq)]
pub enum Resolution {
    /// An absolute path, taken as it stands.
    ByAbsolutePath(Vec<u8>),
    /// A relative path: its file name inside the managed folder.
    ByRelativeFilename(Vec<u8>),
    /// A directory whose records are looked for below it.
    ByDirectoryScan(Vec<u8>),
}

// ---- stage ----

/// A path named for staging, with what the driver found there.
#[derive(Clone, Debug)]
pub struct StageInput {
    /// The path, absolute and normalized.
    pub path: Vec<u8>,
    pub kind: Kind,
    /// For a directory: the regular files the walker found below it.
    pub found: Vec<Vec<u8>>,
}

pub struct StageInputView {
    pub path: Seq<u8>,
    pub kind: Kind,
    pub found: Seq<Seq<u8>>,
}

impl View for StageInput {
    type V = StageInputView;

    open spec fn view(&self) -> StageInputView {
        StageInputView { path: self.path@, kind: self.kind, found: self.found@.map_values(|f: Vec<u8>| f@) }
    }
}

pub struct StageTaskView {
    pub source: Seq<u8>,
    pub target: Seq<u8>,
    pub as_dir: bool,
    pub profile: Option<Seq<char>>,
}

impl View for StageTask {
    type V = StageTaskView;

    open spec fn view(&self) -> StageTaskView {
        StageTaskView { source: self.source@, target: self.target@, as_dir: self.as_dir, profile: profile_view(self.profile) }
    }
}

pub open spec fn tasks_view(v: Seq<StageTask>) -> Seq<StageTaskView> {
    v.map_values(|t: StageTask| t@)
}

/// How deep below a directory staging goes: `None` stages the directory as
/// one unit. Recursion without a depth has no limit.
pub open spec fn depth_limit(recursive: bool, max_depth: Option<usize>) -> Option<nat> {
    match max_depth {
        Some(d) => Some(d as nat),
        None => if recursive { Some(usize::MAX as nat) } else { None },
    }
}

/// The depth of a relative path, as a machine word can count it.
pub open spec fn counted_depth(rel: Seq<u8>) -> nat {
    if depth_spec(rel) <= usize::MAX { depth_spec(rel) } else { usize::MAX as nat }
}

/// The name a directory's files are filed under in the managed folder.
pub open spec fn dir_label(dir: Seq<u8>) -> Seq<u8> {
    match file_name_spec(dir) {
        Some(n) => n,
        None => Seq::empty(),
    }
}

/// The staging tasks for files found below `dir`, within `limit` levels,
/// each filed under the directory's name with its relative path kept.
pub open spec fn tree_tasks(root: Seq<u8>, dir: Seq<u8>, found: Seq<Seq<u8>>, limit: nat) -> Seq<StageTaskView>
    decreases found.len(),
{
    if found.len() == 0 {
        Seq::empty()
    } else {
        let rest = tree_tasks(root, dir, found.drop_last(), limit);
        let f = found.last();
        if strictly_within_spec(f, dir) && counted_depth(relative_spec(f, dir)) <= limit {
            rest.push(StageTaskView {
                source: f,
                target: join_spec(join_spec(root, dir_label(dir)), relative_spec(f, dir)),
                as_dir: false,
                profile: None,
            })
        } else {
            rest
        }
    }
}

/// One task for `p` itself, filed under its own name.
pub open spec fn unit_task(root: Seq<u8>, p: Seq<u8>, as_dir: bool) -> Seq<StageTaskView> {
    match file_name_spec(p) {
        Some(n) => seq![StageTaskView { source: p, target: join_spec(root, n), as_dir, profile: None }],
        None => Seq::empty(),
    }
}

pub open spec fn input_tasks(root: Seq<u8>, inp: StageInputView, limit: Option<nat>) -> Seq<StageTaskView> {
    if inp.kind == Kind::Absent {
        Seq::empty()
    } else if inp.kind == Kind::Dir {
        match limit {
            Some(l) => tree_tasks(root, inp.path, inp.found, l),
            None => unit_task(root, inp.path, true),
        }
    } else {
        unit_task(root, inp.path, false)
    }
}

/// The staging tasks for all inputs, in order.
pub open spec fn stage_plan(root: Seq<u8>, inputs: Seq<StageInputView>, limit: Option<nat>) -> Seq<StageTaskView>
    decreases inputs.len(),
{
    if inputs.len() == 0 {
        Seq::empty()
    } else {
        stage_plan(root, inputs.drop_last(), limit) + input_tasks(root, inputs.last(), limit)
    }
}

fn push_unit_task(out: &mut Vec<StageTask>, root: &Vec<u8>, p: &Vec<u8>, as_dir: bool)
    ensures
        tasks_view(final(out)@) == tasks_view(old(out)@) + unit_task(root@, p@, as_dir),
{
    match file_name(p) {
        Some(n) => {
            let t = StageTask { source: copy_bytes(p), target: join(root, &n), as_dir, profile: None };
            out.push(t);
            assert(tasks_view(out@) =~= tasks_view(old(out)@) + unit_task(root@, p@, as_dir));
        },
        None => {
            assert(tasks_view(out@) =~= tasks_view(old(out)@) + unit_task(root@, p@, as_dir));
        },
    }
}

fn push_tree_tasks(out: &mut Vec<StageTask>, root: &Vec<u8>, inp: &StageInput, limit: usize)
    ensures
        tasks_view(final(out)@) == tasks_view(old(out)@) + tree_tasks(root@, inp.path@, inp@.found, limit as nat),
{
    let label = match file_name(&inp.path) {
        Some(n) => n,
        None => Vec::new(),
    };
    assert(label@ == dir_label(inp.path@));
    let base = join(root, &label);
    let ghost found = inp@.found;
    let mut j: usize = 0;
    while j < inp.found.len()
        invariant
            j <= inp.found.len(),
            found == inp@.found,
            found.len() == inp.found@.len(),
            base@ == join_spec(root@, dir_label(inp.path@)),
            tasks_view(out@) == tasks_view(old(out)@) + tree_tasks(root@, inp.path@, found.subrange(0, j as int), limit as nat),
        decreases inp.found.len() - j,
    {
        let ghost before = tasks_view(out@);
        assert(found.subrange(0, j + 1).drop_last() =~= found.subrange(0, j as int));
        assert(found.subrange(0, j + 1).last() == inp.found@[j as int]@);
        let f = &inp.found[j];
        if strictly_within(f, &inp.path) {
            let rel = relative(f, &inp.path);
            if depth(&rel) <= limit {
                let t = StageTask { source: copy_bytes(f), target: join(&base, &rel), as_dir: false, profile: None };
                out.push(t);
                assert(tasks_view(out@) =~= before.push(t@));
            }
        }
        j = j + 1;
    }
    assert(found.subrange(0, found.len() as int) =~= found);
}

/// The items that staging `inputs` into the managed folder at `root` works on.
/// A missing path gives none. A file, or a directory without a depth limit,
/// gives one item filed under its name. A directory with a limit gives one
/// item for each regular file found within the limit below it.
pub fn stage_command(root: &Vec<u8>, inputs: &Vec<StageInput>, recursive: bool, max_depth: Option<usize>) -> (r: Vec<StageTask>)
    ensures
        tasks_view(r@) == stage_plan(root@, inputs@.map_values(|i: StageInput| i@), depth_limit(recursive, max_depth)),
{
    let ghost ins = inputs@.map_values(|i: StageInput| i@);
    let ghost limit = depth_limit(recursive, max_depth);
    let exec_limit: Option<usize> = match max_depth {
        Some(d) => Some(d),
        None => if recursive { Some(usize::MAX) } else { None },
    };
    let mut out: Vec<StageTask> = Vec::new();
    let mut i: usize = 0;
    while i < inputs.len()
        invariant
            i <= inputs.len(),
            ins == inputs@.map_values(|i: StageInput| i@),
            limit == depth_limit(recursive, max_depth),
            exec_limit matches Some(l) ==> limit == Some(l as nat),
            exec_limit is None ==> limit is None,
            tasks_view(out@) == stage_plan(root@, ins.subrange(0, i as int), limit),
        decreases inputs.len() - i,
    {
        assert(ins.subrange(0, i + 1).drop_last() =~= ins.subrange(0, i as int));
        let inp = &inputs[i];
        assert(ins.subrange(0, i + 1).last() == inp@);
        if inp.kind == Kind::Dir {
            match exec_limit {
                Some(l) => push_tree_tasks(&mut out, root, inp, l),
                None => push_unit_task(&mut out, root, &inp.path, true),
            }
        } else if inp.kind != Kind::Absent {
            push_unit_task(&mut out, root, &inp.path, false);
        } else {
            assert(tasks_view(out@) =~= tasks_view(out@) + Seq::<StageTaskView>::empty());
        }
        i = i + 1;
    }
    assert(ins.subrange(0, inputs.len() as int) =~= ins);
    out
}

/// Staging without descending into directories.
pub fn heat_command(root: &Vec<u8>, inputs: &Vec<StageInput>) -> (r: Vec<StageTask>)
    ensures
        tasks_view(r@) == stage_plan(root@, inputs@.map_values(|i: StageInput| i@), None),
{
    stage_command(root, inputs, false, None)
}

// ---- link ----

/// A path named for linking, with whether the driver found a directory there.
#[derive(Clone, Debug)]
pub struct LinkArg {
    /// The path, absolute and normalized.
    pub path: Vec<u8>,
    pub is_dir: bool,
}

pub struct LinkArgView {
    pub path: Seq<u8>,
    pub is_dir: bool,
}

impl View for LinkArg {
    type V = LinkArgView;

    open spec fn view(&self) -> LinkArgView {
        LinkArgView { path: self.path@, is_dir: self.is_dir }
    }
}

pub open spec fn args_view(v: Seq<LinkArg>) -> Seq<LinkArgView> {
    v.map_values(|a: LinkArg| a@)
}

/// A directory argument names every record whose source lies in it, and
/// every record filed under the managed folder's subdirectory of that name.
/// Another argument names the record whose target it is, or else the
/// record whose source it is.
pub open spec fn link_matches(s: Seq<RecordView>, root: Seq<u8>, a: LinkArgView, r: RecordView) -> bool {
    if a.is_dir {
        ||| within_spec(r.source, a.path)
        ||| (file_name_spec(a.path) matches Some(n) && within_spec(r.target, join_spec(root, n)))
    } else {
        ||| r.target == a.path
        ||| (r.source == a.path && !has_target(s, a.path))
    }
}

/// A record is linked when it is staged and some argument names it; with no
/// arguments every staged record is.
pub open spec fn chosen_for_link(s: Seq<RecordView>, root: Seq<u8>, args: Seq<LinkArgView>, r: RecordView) -> bool {
    &&& r.status == Status::Staged
    &&& (args.len() == 0 || exists|k: int| 0 <= k < args.len() && link_matches(s, root, #[trigger] args[k], r))
}

/// The records of `part` chosen for linking, in order; `whole` is the store.
pub open spec fn link_selection(part: Seq<RecordView>, whole: Seq<RecordView>, root: Seq<u8>, args: Seq<LinkArgView>) -> Seq<RecordView>
    decreases part.len(),
{
    if part.len() == 0 {
        part
    } else {
        let rest = link_selection(part.drop_last(), whole, root, args);
        if chosen_for_link(whole, root, args, part.last()) {
            rest.push(part.last())
        } else {
            rest
        }
    }
}

fn arg_matches(store: &TrackingStore, root: &Vec<u8>, a: &LinkArg, rec: &DotfileRecord) -> (r: bool)
    ensures
        r == link_matches(store@, root@, a@, rec@),
{
    match resolve_link_arg(a) {
        Resolution::ByDirectoryScan(dir) => {
            if within(&rec.source, &dir) {
                return true;
            }
            match file_name(&dir) {
                Some(n) => within(&rec.target, &join(root, &n)),
                None => false,
            }
        },
        Resolution::ByAbsolutePath(p) => {
            bytes_eq(&rec.target, &p) || (bytes_eq(&rec.source, &p) && !store.contains_target(&p))
        },
        Resolution::ByRelativeFilename(_) => false,
    }
}

fn chosen(store: &TrackingStore, root: &Vec<u8>, args: &Vec<LinkArg>, rec: &DotfileRecord) -> (r: bool)
    ensures
        r == chosen_for_link(store@, root@, args_view(args@), rec@),
{
    if !rec.is_staged() {
        return false;
    }
    if args.len() == 0 {
        return true;
    }
    let mut k: usize = 0;
    while k < args.len()
        invariant
            k <= args.len(),
            args.len() > 0,
            rec@.status == Status::Staged,
            forall|j: int| 0 <= j < k ==> !link_matches(store@, root@, #[trigger] args_view(args@)[j], rec@),
        decreases args.len() - k,
    {
        if arg_matches(store, root, &args[k], rec) {
            assert(link_matches(store@, root@, args_view(args@)[k as int], rec@));
            return true;
        }
        k = k + 1;
    }
    false
}

/// The staged records that linking `args` works on, in the store's order,
/// each once.
pub fn link_command(store: &TrackingStore, root: &Vec<u8>, args: &Vec<LinkArg>) -> (r: Vec<DotfileRecord>)
    requires
        store.wf(),
    ensures
        r@.map_values(|x: DotfileRecord| x@) == link_selection(store@, store@, root@, args_view(args@)),
{
    let mut out: Vec<DotfileRecord> = Vec::new();
    let mut i: usize = 0;
    while i < store.len()
        invariant
            i <= store@.len(),
            out@.map_values(|x: DotfileRecord| x@) == link_selection(store@.subrange(0, i as int), store@, root@, args_view(args@)),
        decreases store@.len() - i,
    {
        let ghost before = out@.map_values(|x: DotfileRecord| x@);
        assert(store@.subrange(0, i + 1).drop_last() =~= store@.subrange(0, i as int));
        let rec = store.get(i);
        if chosen(store, root, args, &rec) {
            out.push(rec);
            assert(out@.map_values(|x: DotfileRecord| x@) =~= before.push(store@[i as int]));
        }
        i = i + 1;
    }
    assert(store@.subrange(0, store@.len() as int) =~= store@);
    out
}

/// Linking every staged record.
pub fn forge_command(store: &TrackingStore, root: &Vec<u8>) -> (r: Vec<DotfileRecord>)
    requires
        store.wf(),
    ensures
        r@.map_values(|x: DotfileRecord| x@) == link_selection(store@, store@, root@, Seq::<LinkArgView>::empty()),
{
    let none: Vec<LinkArg> = Vec::new();
    assert(args_view(none@) =~= Seq::<LinkArgView>::empty());
    link_command(store, root, &none)
}

// ---- unlink, remove, delete ----

/// The canonical copy that a named path stands for, if it names one.
pub open spec fn resolved_target(root: Seq<u8>, given: Seq<u8>) -> Option<Seq<u8>> {
    if is_absolute_spec(given) {
        Some(given)
    } else {
        match file_name_spec(given) {
            Some(n) => Some(join_spec(root, n)),
            None => None,
        }
    }
}

/// Resolves a path named to unlink, remove or delete: an absolute path
/// stands for itself, a relative one for its file name in the managed folder.
pub fn resolve_target(root: &Vec<u8>, given: &Vec<u8>) -> (r: Option<Resolution>)
    ensures
        r is None <==> resolved_target(root@, given@) is None,
        r matches Some(Resolution::ByAbsolutePath(p)) ==> is_absolute_spec(given@) && p@ == given@,
        r matches Some(Resolution::ByRelativeFilename(p)) ==> !is_absolute_spec(given@)
            && resolved_target(root@, given@) == Some(p@),
        !(r matches Some(Resolution::ByDirectoryScan(_))),
{
    if is_absolute(given) {
        return Some(Resolution::ByAbsolutePath(copy_bytes(given)));
    }
    match file_name(given) {
        Some(n) => Some(Resolution::ByRelativeFilename(join(root, &n))),
        None => None,
    }
}

/// Resolves a path named to link: a directory is scanned for the records
/// below it, anything else is taken as the path of one record.
pub fn resolve_link_arg(a: &LinkArg) -> (r: Resolution)
    ensures
        r matches Resolution::ByDirectoryScan(p) ==> a.is_dir && p@ == a.path@,
        r matches Resolution::ByAbsolutePath(p) ==> !a.is_dir && p@ == a.path@,
        !(r is ByRelativeFilename),
{
    if a.is_dir {
        Resolution::ByDirectoryScan(copy_bytes(&a.path))
    } else {
        Resolution::ByAbsolutePath(copy_bytes(&a.path))
    }
}

/// What a named path turned out to be.
#[derive(Clone, Debug)]
pub enum TargetLookup {
    /// The record whose canonical copy the path names.
    Recorded(DotfileRecord),
    /// No record has that canonical copy; the resolved path.
    Unrecorded(Vec<u8>),
    /// The path names no file.
    Invalid,
}

pub open spec fn lookup_fits(s: Seq<RecordView>, root: Seq<u8>, given: Seq<u8>, l: TargetLookup) -> bool {
    match resolved_target(root, given) {
        None => l is Invalid,
        Some(t) => match by_target(s, t) {
            Some(x) => l matches TargetLookup::Recorded(rec) && rec@ == x,
            None => l matches TargetLookup::Unrecorded(p) && p@ == t,
        },
    }
}

/// Looks each named path up among the records' canonical copies.
pub fn lookup_targets(store: &TrackingStore, root: &Vec<u8>, files: &Vec<Vec<u8>>) -> (r: Vec<TargetLookup>)
    requires
        store.wf(),
    ensures
        r.len() == files.len(),
        forall|k: int| 0 <= k < r.len() ==> lookup_fits(store@, root@, files@[k]@, #[trigger] r@[k]),
{
    let mut out: Vec<TargetLookup> = Vec::new();
    let mut i: usize = 0;
    while i < files.len()
        invariant
            i <= files.len(),
            out.len() == i,
            store.wf(),
            forall|k: int| 0 <= k < i ==> lookup_fits(store@, root@, files@[k]@, #[trigger] out@[k]),
        decreases files.len() - i,
    {
        let l = match resolve_target(root, &files[i]) {
            None => TargetLookup::Invalid,
            Some(res) => {
                let t = match res {
                    Resolution::ByAbsolutePath(p) => p,
                    Resolution::ByRelativeFilename(p) => p,
                    Resolution::ByDirectoryScan(p) => p,
                };
                match store.find_by_target(&t) {
                    Some(rec) => TargetLookup::Recorded(rec),
                    None => TargetLookup::Unrecorded(t),
                }
            },
        };
        out.push(l);
        i = i + 1;
    }
    out
}

/// The items that unlinking `files` works on.
pub fn unlink_command(store: &TrackingStore, root: &Vec<u8>, files: &Vec<Vec<u8>>) -> (r: Vec<TargetLookup>)
    requires
        store.wf(),
    ensures
        r.len() == files.len(),
        forall|k: int| 0 <= k < r.len() ==> lookup_fits(store@, root@, files@[k]@, #[trigger] r@[k]),
{
    lookup_targets(store, root, files)
}

/// Unlinking, under its older name.
pub fn cool_command(store: &TrackingStore, root: &Vec<u8>, files: &Vec<Vec<u8>>) -> (r: Vec<TargetLookup>)
    requires
        store.wf(),
    ensures
        r.len() == files.len(),
        forall|k: int| 0 <= k < r.len() ==> lookup_fits(store@, root@, files@[k]@, #[trigger] r@[k]),
{
    unlink_command(store, root, files)
}

/// The items that removing `files` works on.
pub fn remove_command(store: &TrackingStore, root: &Vec<u8>, files: &Vec<Vec<u8>>) -> (r: Vec<TargetLookup>)
    requires
        store.wf(),
    ensures
        r.len() == files.len(),
        forall|k: int| 0 <= k < r.len() ==> lookup_fits(store@, root@, files@[k]@, #[trigger] r@[k]),
{
    lookup_targets(store, root, files)
}

/// The items that deleting `files` works on.
pub fn delete_command(store: &TrackingStore, root: &Vec<u8>, files: &Vec<Vec<u8>>) -> (r: Vec<TargetLookup>)
    requires
        store.wf(),
    ensures
        r.len() == files.len(),
        forall|k: int| 0 <= k < r.len() ==> lookup_fits(store@, root@, files@[k]@, #[trigger] r@[k]),
{
    lookup_targets(store, root, files)
}

/// The records to show, for one profile or for all.
pub fn list_command(store: &TrackingStore, profile: Option<&String>) -> (r: Vec<DotfileRecord>)
    ensures
        r@.map_values(|x: DotfileRecord| x@) == in_profile(store@, profile_filter_view(profile)),
{
    store.list(profile)
}

} // verus!
