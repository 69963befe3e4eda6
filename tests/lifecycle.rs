use forge::commands::{
    cool_command, delete_command, forge_command, heat_command, link_command, list_command,
    lookup_targets, remove_command, resolve_link_arg, resolve_target, stage_command, unlink_command, LinkArg,
    Resolution, StageInput, TargetLookup,
};
use forge::disk::Kind;
use forge::engine::{
    delete_begin, delete_finish, delete_untracked_begin, link_begin, link_finish, remove_begin,
    remove_finish, stage_begin, stage_finish, unlink_begin, unlink_finish, unlink_untracked_begin,
    untracked_finish, StageTask,
};
use forge::error::{ForgeError, ItemOutcome};
use forge::path::swap_path;
use forge::plan::{Action, Run};
use forge::store::{Status, TrackingStore};
use std::collections::HashMap;

#[derive(Clone, Debug, PartialEq)]
enum Node {
    File(Vec<u8>),
    Link(Vec<u8>),
    Dir,
}

type Disk = HashMap<Vec<u8>, Node>;

fn p(s: &str) -> Vec<u8> {
    s.as_bytes().to_vec()
}

fn kind(d: &Disk, path: &[u8]) -> Kind {
    match d.get(path) {
        None => Kind::Absent,
        Some(Node::File(_)) => Kind::File,
        Some(Node::Link(_)) => Kind::Link,
        Some(Node::Dir) => Kind::Dir,
    }
}

fn read(d: &Disk, path: &[u8]) -> Option<Vec<u8>> {
    match d.get(path) {
        Some(Node::File(c)) => Some(c.clone()),
        Some(Node::Link(t)) => match d.get(t) {
            Some(Node::File(c)) => Some(c.clone()),
            _ => None,
        },
        _ => None,
    }
}

fn apply(d: &mut Disk, a: &Action) -> Result<(), String> {
    match a {
        Action::MakeLink { at, to } => {
            if d.contains_key(at) {
                return Err("exists".to_string());
            }
            d.insert(at.clone(), Node::Link(to.clone()));
        }
        Action::MakeDir { path } => match kind(d, path) {
            Kind::Absent => {
                d.insert(path.clone(), Node::Dir);
            }
            Kind::Dir => {}
            _ => return Err("not a directory".to_string()),
        },
        Action::CopyFile { from, to } => {
            let c = read(d, from).ok_or_else(|| "unreadable".to_string())?;
            if kind(d, to) != Kind::Absent {
                return Err("destination exists".to_string());
            }
            d.insert(to.clone(), Node::File(c));
        }
        Action::RemovePath { path } => match kind(d, path) {
            Kind::File | Kind::Link => {
                d.remove(path);
            }
            _ => return Err("cannot remove".to_string()),
        },
        Action::Rename { from, to } => {
            if kind(d, to) == Kind::Dir {
                return Err("is a directory".to_string());
            }
            let n = d.remove(from).ok_or_else(|| "missing".to_string())?;
            d.insert(to.clone(), n);
        }
    }
    Ok(())
}

/// Performs the run on `d`, failing the step at `fail_at` on purpose.
fn drive(d: &mut Disk, run: &mut Run, fail_at: Option<usize>) {
    while let Some(a) = run.next_action() {
        let i = run.performed();
        let r = if Some(i) == fail_at { Err("injected failure".to_string()) } else { apply(d, &a) };
        run.report(r);
    }
}

const HOME: &str = "/home/u";
const ROOT: &str = "/home/u/.forge-dots";
const SRC: &str = "/home/u/.bashrc";
const TGT: &str = "/home/u/.forge-dots/.bashrc";

fn bashrc_disk() -> Disk {
    let mut d = Disk::new();
    d.insert(p(HOME), Node::Dir);
    d.insert(p(ROOT), Node::Dir);
    d.insert(p(SRC), Node::File(p("export X=1")));
    d
}

fn stage_file(d: &mut Disk, store: &mut TrackingStore, src: &str) -> ItemOutcome {
    let tasks = heat_command(&p(ROOT), &vec![StageInput { path: p(src), kind: kind(d, src.as_bytes()), found: vec![] }]);
    assert_eq!(tasks.len(), 1);
    let task = &tasks[0];
    match stage_begin(store, task, kind(d, &task.target)) {
        Ok(mut run) => {
            drive(d, &mut run, None);
            stage_finish(store, task, &run)
        }
        Err(o) => o,
    }
}

fn link_all(d: &mut Disk, store: &mut TrackingStore, fail_at: Option<usize>) -> Vec<ItemOutcome> {
    let recs = forge_command(store, &p(ROOT));
    let mut out = Vec::new();
    for rec in recs {
        let o = match link_begin(store, &rec, kind(d, &rec.source), kind(d, &rec.target), kind(d, &swap_path(&rec.source))) {
            Ok(mut run) => {
                drive(d, &mut run, fail_at);
                link_finish(store, &rec, &run)
            }
            Err(o) => o,
        };
        out.push(o);
    }
    out
}

fn staged_bashrc() -> (Disk, TrackingStore) {
    let mut d = bashrc_disk();
    let mut store = TrackingStore::new();
    assert_eq!(stage_file(&mut d, &mut store, SRC), ItemOutcome::Success);
    (d, store)
}

#[test]
fn stage_then_link_bashrc() {
    let (mut d, mut store) = staged_bashrc();
    let rec = store.find_by_source(&p(SRC)).unwrap();
    assert_eq!(rec.target, p(TGT));
    assert_eq!(rec.status, Status::Staged);
    assert_eq!(d.get(&p(TGT)), Some(&Node::Link(p(SRC))));
    assert_eq!(d.get(&p(SRC)), Some(&Node::File(p("export X=1"))));

    assert_eq!(link_all(&mut d, &mut store, None), vec![ItemOutcome::Success]);
    assert_eq!(d.get(&p(TGT)), Some(&Node::File(p("export X=1"))));
    assert_eq!(d.get(&p(SRC)), Some(&Node::Link(p(TGT))));
    assert_eq!(store.find_by_target(&p(TGT)).unwrap().status, Status::Linked);
    assert_eq!(d.len(), 4);
}

#[test]
fn unlink_restores_bashrc() {
    let (mut d, mut store) = staged_bashrc();
    link_all(&mut d, &mut store, None);
    let found = cool_command(&store, &p(ROOT), &vec![p(TGT)]);
    assert!(matches!(&found[0], TargetLookup::Recorded(r) if r.source == p(SRC)));
    let mut run = unlink_begin(&store, &p(TGT), true, Kind::Absent).unwrap();
    drive(&mut d, &mut run, None);
    assert_eq!(unlink_finish(&mut store, &p(TGT), &run), ItemOutcome::Success);
    assert_eq!(d.get(&p(SRC)), Some(&Node::File(p("export X=1"))));
    assert_eq!(d.get(&p(TGT)), Some(&Node::File(p("export X=1"))));
    assert!(store.find_by_target(&p(TGT)).is_none());
    assert!(store.find_by_source(&p(SRC)).is_none());
    assert_eq!(store.len(), 0);
}

#[test]
fn round_trip_keeps_content() {
    let (mut d, mut store) = staged_bashrc();
    link_all(&mut d, &mut store, None);
    let mut run = unlink_begin(&store, &p(TGT), true, Kind::Absent).unwrap();
    drive(&mut d, &mut run, None);
    unlink_finish(&mut store, &p(TGT), &run);
    assert_eq!(read(&d, SRC.as_bytes()), Some(p("export X=1")));
    assert_eq!(kind(&d, SRC.as_bytes()), Kind::File);
}

#[test]
fn stage_twice_is_one_record() {
    let (mut d, mut store) = staged_bashrc();
    assert_eq!(stage_file(&mut d, &mut store, SRC), ItemOutcome::SkippedExisting);
    assert_eq!(store.len(), 1);
}

#[test]
fn stage_skips_tracked_target_even_if_absent_on_disk() {
    let (mut d, mut store) = staged_bashrc();
    d.remove(&p(TGT));
    let task = StageTask { source: p(SRC), target: p(TGT), as_dir: false, profile: None };
    assert!(matches!(stage_begin(&store, &task, Kind::Absent), Err(ItemOutcome::SkippedExisting)));
    assert_eq!(store.len(), 1);
}

#[test]
fn stage_conflict_on_tracked_source() {
    let (_d, store) = staged_bashrc();
    let task = StageTask { source: p(SRC), target: p("/home/u/.forge-dots/other"), as_dir: false, profile: None };
    assert!(matches!(stage_begin(&store, &task, Kind::Absent), Err(ItemOutcome::Failed(ForgeError::Conflict))));
}

#[test]
fn stage_link_failure_registers_nothing() {
    let mut d = bashrc_disk();
    let mut store = TrackingStore::new();
    let task = StageTask { source: p(SRC), target: p(TGT), as_dir: false, profile: None };
    let mut run = stage_begin(&store, &task, Kind::Absent).unwrap();
    drive(&mut d, &mut run, Some(0));
    assert!(matches!(stage_finish(&mut store, &task, &run), ItemOutcome::Failed(ForgeError::IoFailure(_))));
    assert_eq!(store.len(), 0);
}

#[test]
fn stage_directory_as_unit() {
    let mut d = bashrc_disk();
    d.insert(p("/home/u/cfg"), Node::Dir);
    let tasks = stage_command(&p(ROOT), &vec![StageInput { path: p("/home/u/cfg"), kind: Kind::Dir, found: vec![p("/home/u/cfg/x")] }], false, None);
    assert_eq!(tasks, vec![StageTask { source: p("/home/u/cfg"), target: p("/home/u/.forge-dots/cfg"), as_dir: true, profile: None }]);
    let mut store = TrackingStore::new();
    let mut run = stage_begin(&store, &tasks[0], Kind::Absent).unwrap();
    assert_eq!(run.next_action(), Some(Action::MakeDir { path: p("/home/u/.forge-dots/cfg") }));
    drive(&mut d, &mut run, None);
    assert_eq!(stage_finish(&mut store, &tasks[0], &run), ItemOutcome::Success);
    // A directory is only marked linked, not moved.
    let rec = store.get(0);
    let mut lrun = link_begin(&store, &rec, Kind::Dir, Kind::Dir, Kind::Absent).unwrap();
    assert_eq!(lrun.next_action(), None);
    drive(&mut d, &mut lrun, None);
    assert_eq!(link_finish(&mut store, &rec, &lrun), ItemOutcome::Success);
    assert_eq!(store.get(0).status, Status::Linked);
    assert_eq!(d.get(&p("/home/u/cfg")), Some(&Node::Dir));
}

#[test]
fn recursive_stage_respects_depth() {
    let input = StageInput {
        path: p("/home/u/a"),
        kind: Kind::Dir,
        found: vec![p("/home/u/a/b.txt"), p("/home/u/a/c/d.txt")],
    };
    let tasks = stage_command(&p(ROOT), &vec![input.clone()], true, Some(1));
    assert_eq!(tasks, vec![StageTask { source: p("/home/u/a/b.txt"), target: p("/home/u/.forge-dots/a/b.txt"), as_dir: false, profile: None }]);
    let all = stage_command(&p(ROOT), &vec![input], true, None);
    assert_eq!(all.len(), 2);
    assert_eq!(all[1].target, p("/home/u/.forge-dots/a/c/d.txt"));
}

#[test]
fn stage_ignores_files_outside_the_directory() {
    let input = StageInput { path: p("/home/u/a"), kind: Kind::Dir, found: vec![p("/home/u/ab/x"), p("/home/u/a")] };
    assert!(stage_command(&p(ROOT), &vec![input], true, None).is_empty());
}

#[test]
fn stage_missing_path_gives_nothing() {
    let input = StageInput { path: p("/home/u/nope"), kind: Kind::Absent, found: vec![] };
    assert!(stage_command(&p(ROOT), &vec![input], false, None).is_empty());
}

#[test]
fn link_copy_failure_keeps_original() {
    let (mut d, mut store) = staged_bashrc();
    // Step 0 removes the staging link, step 1 copies.
    let out = link_all(&mut d, &mut store, Some(1));
    assert!(matches!(&out[0], ItemOutcome::Failed(ForgeError::IoFailure(m)) if m == "injected failure"));
    assert_eq!(d.get(&p(SRC)), Some(&Node::File(p("export X=1"))));
    assert_eq!(store.find_by_source(&p(SRC)).unwrap().status, Status::Staged);
}

#[test]
fn link_symlink_failure_keeps_original() {
    let (mut d, mut store) = staged_bashrc();
    let out = link_all(&mut d, &mut store, Some(2));
    assert!(matches!(&out[0], ItemOutcome::Failed(ForgeError::IoFailure(_))));
    assert_eq!(d.get(&p(SRC)), Some(&Node::File(p("export X=1"))));
    assert_eq!(d.get(&p(TGT)), Some(&Node::File(p("export X=1"))));
    assert_eq!(store.get(0).status, Status::Staged);
}

#[test]
fn link_final_move_failure_keeps_record_staged() {
    let (mut d, mut store) = staged_bashrc();
    let out = link_all(&mut d, &mut store, Some(3));
    assert!(matches!(&out[0], ItemOutcome::Failed(ForgeError::IoFailure(m)) if m == "injected failure"));
    assert_eq!(store.get(0).status, Status::Staged);
    assert_eq!(d.get(&p("/home/u/.bashrc.forge-swap")), Some(&Node::Link(p(TGT))));
    assert_eq!(d.get(&p(SRC)), Some(&Node::File(p("export X=1"))));
    // The stray link now occupies the side path, so a new attempt is refused.
    assert!(matches!(link_all(&mut d, &mut store, None)[0], ItemOutcome::Failed(ForgeError::Conflict)));
}

#[test]
fn link_refuses_occupied_side_path() {
    let (mut d, mut store) = staged_bashrc();
    d.insert(p("/home/u/.bashrc.forge-swap"), Node::File(p("keep me")));
    let out = link_all(&mut d, &mut store, None);
    assert!(matches!(out[0], ItemOutcome::Failed(ForgeError::Conflict)));
    assert_eq!(d.get(&p("/home/u/.bashrc.forge-swap")), Some(&Node::File(p("keep me"))));
    assert_eq!(d.get(&p(TGT)), Some(&Node::Link(p(SRC))));
    assert_eq!(store.get(0).status, Status::Staged);
}

#[test]
fn link_refuses_record_onto_itself() {
    let mut store = TrackingStore::new();
    store.insert(p(SRC), p(SRC), None).unwrap();
    let rec = store.get(0);
    assert!(matches!(link_begin(&store, &rec, Kind::File, Kind::File, Kind::Absent), Err(ItemOutcome::Failed(ForgeError::Conflict))));
}

#[test]
fn unlink_refuses_occupied_side_path() {
    let (mut d, mut store) = staged_bashrc();
    link_all(&mut d, &mut store, None);
    assert!(matches!(unlink_begin(&store, &p(TGT), true, Kind::File), Err(ItemOutcome::Failed(ForgeError::Conflict))));
    assert_eq!(store.len(), 1);
}

#[test]
fn remove_leaves_other_records_files_alone() {
    let (mut d, mut store) = staged_bashrc();
    link_all(&mut d, &mut store, None);
    // Another record whose source is the first record's side path.
    let other = "/home/u/.bashrc.forge-swap";
    d.insert(p(other), Node::File(p("other")));
    store.insert(p(other), p("/home/u/.forge-dots/other"), None).unwrap();
    let swap_kind = kind(&d, &swap_path(&p(SRC)));
    assert!(matches!(
        remove_begin(&store, &p(TGT), true, kind(&d, SRC.as_bytes()), swap_kind),
        Err(ItemOutcome::Failed(ForgeError::Conflict))
    ));
    assert_eq!(d.get(&p(other)), Some(&Node::File(p("other"))));
    assert_eq!(store.len(), 2);
}

#[test]
fn all_steps_ok_means_success_for_directories() {
    let mut store = TrackingStore::new();
    store.insert(p("/home/u/cfg"), p("/home/u/.forge-dots/cfg"), None).unwrap();
    let rec = store.get(0);
    let run = link_begin(&store, &rec, Kind::Dir, Kind::Dir, Kind::File).unwrap();
    assert_eq!(link_finish(&mut store, &rec, &run), ItemOutcome::Success);
    assert_eq!(store.get(0).status, Status::Linked);
}

#[test]
fn link_plan_orders_link_before_removal() {
    let (d, store) = staged_bashrc();
    let rec = store.get(0);
    let mut run = link_begin(&store, &rec, kind(&d, SRC.as_bytes()), kind(&d, TGT.as_bytes()), Kind::Absent).unwrap();
    let mut actions = Vec::new();
    while let Some(a) = run.next_action() {
        actions.push(a);
        run.report(Ok(()));
    }
    assert_eq!(
        actions,
        vec![
            Action::RemovePath { path: p(TGT) },
            Action::CopyFile { from: p(SRC), to: p(TGT) },
            Action::MakeLink { at: p("/home/u/.bashrc.forge-swap"), to: p(TGT) },
            Action::Rename { from: p("/home/u/.bashrc.forge-swap"), to: p(SRC) },
        ]
    );
}

#[test]
fn link_refuses_linked_record() {
    let (mut d, mut store) = staged_bashrc();
    link_all(&mut d, &mut store, None);
    let rec = store.get(0);
    assert!(matches!(link_begin(&store, &rec, Kind::Link, Kind::File, Kind::Absent), Err(ItemOutcome::Failed(ForgeError::NotFound))));
    assert!(forge_command(&store, &p(ROOT)).is_empty());
}

#[test]
fn link_refuses_missing_source() {
    let (_d, store) = staged_bashrc();
    let rec = store.get(0);
    assert!(matches!(link_begin(&store, &rec, Kind::Absent, Kind::Link, Kind::Absent), Err(ItemOutcome::Failed(ForgeError::NotFound))));
}

#[test]
fn link_selects_by_argument() {
    let mut d = bashrc_disk();
    let mut store = TrackingStore::new();
    d.insert(p("/home/u/a"), Node::Dir);
    d.insert(p("/home/u/a/b.txt"), Node::File(p("b")));
    d.insert(p("/home/u/.vimrc"), Node::File(p("v")));
    stage_file(&mut d, &mut store, SRC);
    stage_file(&mut d, &mut store, "/home/u/.vimrc");
    let tasks = stage_command(&p(ROOT), &vec![StageInput { path: p("/home/u/a"), kind: Kind::Dir, found: vec![p("/home/u/a/b.txt")] }], true, None);
    for t in &tasks {
        let mut run = stage_begin(&store, t, kind(&d, &t.target)).unwrap();
        drive(&mut d, &mut run, None);
        stage_finish(&mut store, t, &run);
    }
    assert_eq!(store.len(), 3);
    let by_target = link_command(&store, &p(ROOT), &vec![LinkArg { path: p(TGT), is_dir: false }]);
    assert_eq!(by_target.len(), 1);
    assert_eq!(by_target[0].source, p(SRC));
    let by_source = link_command(&store, &p(ROOT), &vec![LinkArg { path: p("/home/u/.vimrc"), is_dir: false }]);
    assert_eq!(by_source.len(), 1);
    assert_eq!(by_source[0].target, p("/home/u/.forge-dots/.vimrc"));
    let by_dir = link_command(&store, &p(ROOT), &vec![LinkArg { path: p("/home/u/a"), is_dir: true }]);
    assert_eq!(by_dir.len(), 1);
    assert_eq!(by_dir[0].source, p("/home/u/a/b.txt"));
    let none = link_command(&store, &p(ROOT), &vec![LinkArg { path: p("/home/u/.zshrc"), is_dir: false }]);
    assert!(none.is_empty());
    assert_eq!(forge_command(&store, &p(ROOT)).len(), 3);
}

#[test]
fn unlink_needs_confirmation() {
    let (mut d, mut store) = staged_bashrc();
    link_all(&mut d, &mut store, None);
    assert!(matches!(unlink_begin(&store, &p(TGT), false, Kind::Absent), Err(ItemOutcome::Failed(ForgeError::UserAborted))));
    assert_eq!(store.len(), 1);
}

#[test]
fn unlink_of_staged_or_unknown_is_not_found() {
    let (_d, store) = staged_bashrc();
    assert!(matches!(unlink_begin(&store, &p(TGT), true, Kind::Absent), Err(ItemOutcome::Failed(ForgeError::NotFound))));
    assert!(matches!(unlink_begin(&store, &p("/x"), true, Kind::Absent), Err(ItemOutcome::Failed(ForgeError::NotFound))));
}

#[test]
fn unlink_copy_failure_changes_nothing() {
    let (mut d, mut store) = staged_bashrc();
    link_all(&mut d, &mut store, None);
    let mut run = unlink_begin(&store, &p(TGT), true, Kind::Absent).unwrap();
    drive(&mut d, &mut run, Some(0));
    assert!(matches!(unlink_finish(&mut store, &p(TGT), &run), ItemOutcome::Failed(ForgeError::IoFailure(_))));
    assert_eq!(store.len(), 1);
    assert_eq!(d.get(&p(SRC)), Some(&Node::Link(p(TGT))));
}

#[test]
fn unlink_move_failure_still_drops_record() {
    let (mut d, mut store) = staged_bashrc();
    link_all(&mut d, &mut store, None);
    let mut run = unlink_begin(&store, &p(TGT), true, Kind::Absent).unwrap();
    drive(&mut d, &mut run, Some(1));
    assert!(matches!(unlink_finish(&mut store, &p(TGT), &run), ItemOutcome::Partial(_)));
    assert_eq!(store.len(), 0);
}

#[test]
fn untracked_symlink_unlink() {
    let mut d = bashrc_disk();
    d.insert(p("/home/u/l"), Node::Link(p(SRC)));
    let mut run = unlink_untracked_begin(&p("/home/u/l"), kind(&d, b"/home/u/l"), true).unwrap();
    drive(&mut d, &mut run, None);
    assert_eq!(untracked_finish(&run), ItemOutcome::Success);
    assert!(!d.contains_key(&p("/home/u/l")));
    assert!(matches!(unlink_untracked_begin(&p(SRC), Kind::File, true), Err(ItemOutcome::Failed(ForgeError::NotFound))));
    assert!(matches!(unlink_untracked_begin(&p(SRC), Kind::Link, false), Err(ItemOutcome::Failed(ForgeError::UserAborted))));
}

#[test]
fn remove_linked_restores_original() {
    let (mut d, mut store) = staged_bashrc();
    link_all(&mut d, &mut store, None);
    let found = remove_command(&store, &p(ROOT), &vec![p(".bashrc")]);
    assert!(matches!(&found[0], TargetLookup::Recorded(r) if r.target == p(TGT)));
    let mut run = remove_begin(&store, &p(TGT), true, kind(&d, SRC.as_bytes()), Kind::Absent).unwrap();
    drive(&mut d, &mut run, None);
    assert_eq!(remove_finish(&mut store, &p(TGT), &run), ItemOutcome::Success);
    assert_eq!(d.get(&p(SRC)), Some(&Node::File(p("export X=1"))));
    assert!(!d.contains_key(&p(TGT)));
    assert_eq!(store.len(), 0);
}

#[test]
fn remove_staged_drops_staging_link() {
    let (mut d, mut store) = staged_bashrc();
    let mut run = remove_begin(&store, &p(TGT), true, kind(&d, SRC.as_bytes()), Kind::Absent).unwrap();
    drive(&mut d, &mut run, None);
    assert_eq!(remove_finish(&mut store, &p(TGT), &run), ItemOutcome::Success);
    assert_eq!(d.get(&p(SRC)), Some(&Node::File(p("export X=1"))));
    assert!(!d.contains_key(&p(TGT)));
    assert_eq!(store.len(), 0);
}

#[test]
fn remove_restore_failure_keeps_canonical_copy() {
    let (mut d, mut store) = staged_bashrc();
    link_all(&mut d, &mut store, None);
    let mut run = remove_begin(&store, &p(TGT), true, Kind::Link, Kind::Absent).unwrap();
    drive(&mut d, &mut run, Some(1));
    assert!(matches!(remove_finish(&mut store, &p(TGT), &run), ItemOutcome::Failed(ForgeError::IoFailure(_))));
    assert_eq!(run.performed(), 2);
    assert_eq!(d.get(&p(TGT)), Some(&Node::File(p("export X=1"))));
    assert_eq!(store.len(), 1);
}

#[test]
fn remove_errors() {
    let (_d, store) = staged_bashrc();
    assert!(matches!(remove_begin(&store, &p("/nope"), true, Kind::File, Kind::Absent), Err(ItemOutcome::Failed(ForgeError::NotFound))));
    assert!(matches!(remove_begin(&store, &p(TGT), false, Kind::File, Kind::Absent), Err(ItemOutcome::Failed(ForgeError::UserAborted))));
}

#[test]
fn delete_purges_everything() {
    let (mut d, mut store) = staged_bashrc();
    link_all(&mut d, &mut store, None);
    let found = delete_command(&store, &p(ROOT), &vec![p(TGT)]);
    assert!(matches!(&found[0], TargetLookup::Recorded(_)));
    let mut run = delete_begin(&store, &p(TGT), true).unwrap();
    drive(&mut d, &mut run, None);
    assert_eq!(delete_finish(&mut store, &p(TGT), &run), ItemOutcome::Success);
    assert!(!d.contains_key(&p(SRC)));
    assert!(!d.contains_key(&p(TGT)));
    assert!(store.find_by_source(&p(SRC)).is_none());
    assert!(store.find_by_target(&p(TGT)).is_none());
}

#[test]
fn delete_goes_on_when_original_removal_fails() {
    let (mut d, mut store) = staged_bashrc();
    link_all(&mut d, &mut store, None);
    let mut run = delete_begin(&store, &p(TGT), true).unwrap();
    drive(&mut d, &mut run, Some(0));
    assert!(matches!(delete_finish(&mut store, &p(TGT), &run), ItemOutcome::Partial(_)));
    assert!(!d.contains_key(&p(TGT)));
    assert_eq!(store.len(), 0);
}

#[test]
fn delete_keeps_record_when_copy_removal_fails() {
    let (mut d, mut store) = staged_bashrc();
    link_all(&mut d, &mut store, None);
    let mut run = delete_begin(&store, &p(TGT), true).unwrap();
    drive(&mut d, &mut run, Some(1));
    assert!(matches!(delete_finish(&mut store, &p(TGT), &run), ItemOutcome::Failed(ForgeError::IoFailure(_))));
    assert_eq!(store.len(), 1);
}

#[test]
fn delete_needs_confirmation() {
    let (_d, store) = staged_bashrc();
    assert!(matches!(delete_begin(&store, &p(TGT), false), Err(ItemOutcome::Failed(ForgeError::UserAborted))));
    assert!(matches!(delete_begin(&store, &p("/nope"), true), Err(ItemOutcome::Failed(ForgeError::NotFound))));
}

#[test]
fn delete_untracked_file() {
    let mut d = bashrc_disk();
    d.insert(p("/tmp/junk"), Node::File(p("j")));
    let found = delete_command(&TrackingStore::new(), &p(ROOT), &vec![p("/tmp/junk")]);
    assert!(matches!(&found[0], TargetLookup::Unrecorded(t) if *t == p("/tmp/junk")));
    let mut run = delete_untracked_begin(&p("/tmp/junk"), kind(&d, b"/tmp/junk"), true).unwrap();
    drive(&mut d, &mut run, None);
    assert_eq!(untracked_finish(&run), ItemOutcome::Success);
    assert!(!d.contains_key(&p("/tmp/junk")));
    assert!(matches!(delete_untracked_begin(&p("/tmp/none"), Kind::Absent, true), Err(ItemOutcome::Failed(ForgeError::NotFound))));
}

#[test]
fn lookups_resolve_names() {
    let (_d, store) = staged_bashrc();
    let found = lookup_targets(&store, &p(ROOT), &vec![p(".bashrc"), p("/home/u/.zshrc"), p("dir/"), p("sub/.zshrc")]);
    assert!(matches!(&found[0], TargetLookup::Recorded(r) if r.source == p(SRC)));
    assert!(matches!(&found[1], TargetLookup::Unrecorded(t) if *t == p("/home/u/.zshrc")));
    assert!(matches!(&found[2], TargetLookup::Invalid));
    assert!(matches!(&found[3], TargetLookup::Unrecorded(t) if *t == p("/home/u/.forge-dots/.zshrc")));
    assert_eq!(unlink_command(&store, &p(ROOT), &vec![p(".bashrc")]).len(), 1);
    assert_eq!(resolve_target(&p(ROOT), &p("/a/b")), Some(Resolution::ByAbsolutePath(p("/a/b"))));
    assert_eq!(resolve_target(&p(ROOT), &p("x/y")), Some(Resolution::ByRelativeFilename(p("/home/u/.forge-dots/y"))));
    assert_eq!(resolve_target(&p(ROOT), &p("")), None);
}

#[test]
fn list_by_profile() {
    let mut store = TrackingStore::new();
    store.insert(p("/a"), p("/r/a"), Some("work".to_string())).unwrap();
    store.insert(p("/b"), p("/r/b"), None).unwrap();
    store.insert(p("/c"), p("/r/c"), Some("home".to_string())).unwrap();
    assert_eq!(list_command(&store, None).len(), 3);
    let work = "work".to_string();
    let only = list_command(&store, Some(&work));
    assert_eq!(only.len(), 1);
    assert_eq!(only[0].source, p("/a"));
}

#[test]
fn tally_counts_partial_as_done() {
    let outcomes = vec![
        ItemOutcome::Success,
        ItemOutcome::Partial("x".to_string()),
        ItemOutcome::Failed(ForgeError::NotFound),
        ItemOutcome::SkippedExisting,
        ItemOutcome::Failed(ForgeError::IoFailure("y".to_string())),
    ];
    assert_eq!(forge::engine::tally(&outcomes), (2, 2));
    assert_eq!(forge::engine::tally(&Vec::new()), (0, 0));
}

#[test]
fn failure_cause_is_carried() {
    let (_d, mut store) = staged_bashrc();
    let rec = store.get(0);
    let mut run = link_begin(&store, &rec, Kind::File, Kind::Link, Kind::Absent).unwrap();
    run.report(Ok(()));
    run.report(Err("disk full".to_string()));
    assert_eq!(run.last_error(), "disk full");
    assert_eq!(run.next_action(), None);
    assert_eq!(link_finish(&mut store, &rec, &run), ItemOutcome::Failed(ForgeError::IoFailure("disk full".to_string())));
    assert_eq!(store.get(0).status, Status::Staged);
}

#[test]
fn link_args_resolve_by_kind() {
    assert_eq!(resolve_link_arg(&LinkArg { path: p("/home/u/a"), is_dir: true }), Resolution::ByDirectoryScan(p("/home/u/a")));
    assert_eq!(resolve_link_arg(&LinkArg { path: p(SRC), is_dir: false }), Resolution::ByAbsolutePath(p(SRC)));
}
