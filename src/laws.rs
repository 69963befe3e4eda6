//! Properties of the lifecycle as a whole, over the filesystem model and
//! the tracking records.
use vstd::prelude::*;
use crate::disk::{Disk, Kind, Node, action_writes, content, kind_of, lemma_frame, play, play_all, steps_write};
use crate::engine::{
    delete_after, delete_steps, link_admits, link_after, link_steps, linked_at, relocate_steps, remove_steps, restore_steps,
    stage_admits, stage_after, stage_steps, unlink_after,
};
use crate::path::swap_path_spec;
use crate::plan::all_ok;
use crate::store::{RecordView, Status, by_source, by_target, has_source, has_target, keys_unique, mark_linked, staged_record, without_target};

verus! {

/// Staging a file, linking it and unlinking it again, where each operation
/// was accepted and every step succeeded, leaves the original location a
/// regular file with the content it had, and the records as they were
/// before. Staging was accepted: nothing was at the target and neither end
/// was tracked. Linking was accepted: its begin check held on the disk that
/// staging left. Unlinking is then accepted too.
pub proof fn lemma_round_trip(d: Disk, s: Seq<RecordView>, source: Seq<u8>, target: Seq<u8>)
    requires
        kind_of(d, source) == Kind::File,
        keys_unique(s),
        stage_admits(s, source, target, kind_of(d, target)),
        ({
            let r1 = play_all(d, stage_steps(source, target, false));
            let s1 = stage_after(s, source, target, None, r1.1);
            link_admits(s1, source, target, kind_of(r1.0, source), kind_of(r1.0, swap_path_spec(source)))
        }),
    ensures
        ({
            let st = stage_steps(source, target, false);
            let r1 = play_all(d, st);
            let lk = link_steps(source, target, kind_of(r1.0, source), kind_of(r1.0, target));
            let r2 = play_all(r1.0, lk);
            let ul = restore_steps(source, target);
            let r3 = play_all(r2.0, ul);
            let s1 = stage_after(s, source, target, None, r1.1);
            let s2 = link_after(s1, source, target, lk, r2.1);
            let s3 = unlink_after(s2, target, r3.1);
            &&& all_ok(st, r1.1) && all_ok(lk, r2.1) && all_ok(ul, r3.1)
            &&& linked_at(s2, target) && kind_of(r2.0, swap_path_spec(source)) == Kind::Absent
            &&& kind_of(r3.0, source) == Kind::File
            &&& content(r3.0, source) == content(d, source)
            &&& s3 == s
        }),
{
    reveal_with_fuel(play, 6);
    let sw = swap_path_spec(source);
    assert(source != sw) by {
        assert(sw.len() > source.len());
    }
    let c = d[source]->File_0;
    let st = stage_steps(source, target, false);
    let r1 = play_all(d, st);
    let d1 = d.insert(target, Node::Link(source));
    assert(r1.0 == d1);
    assert(r1.1 =~= seq![true]);
    assert(target != sw);
    assert(!d.contains_key(sw));
    let lk = link_steps(source, target, kind_of(d1, source), kind_of(d1, target));
    let r2 = play_all(d1, lk);
    let d2a = d1.remove(target);
    let d2b = d2a.insert(target, Node::File(c));
    let d2c = d2b.insert(sw, Node::Link(target));
    let d2 = d2c.remove(sw).insert(source, Node::Link(target));
    assert(r2.0 == d2);
    assert(r2.1 =~= seq![true, true, true, true]);
    let ul = restore_steps(source, target);
    let r3 = play_all(d2, ul);
    let d3a = d2.insert(sw, Node::File(c));
    let d3 = d3a.remove(sw).insert(source, Node::File(c));
    assert(r3.0 == d3);
    assert(r3.1 =~= seq![true, true]);
    let rec = staged_record(source, target, None);
    let s1 = s.push(rec);
    assert(stage_after(s, source, target, None, r1.1) == s1);
    let lrec = RecordView { status: Status::Linked, ..rec };
    let s2 = s.push(lrec);
    assert(mark_linked(s1, source, target) =~= s2);
    assert(has_target(s2, target)) by {
        assert(s2[s.len() as int].target == target);
    }
    let k = choose|k: int| 0 <= k < s2.len() && #[trigger] s2[k].target == target;
    assert(k == s.len());
    assert(by_target(s2, target) == Some(lrec));
    assert(s2.remove(k) =~= s);
}

/// Staging is idempotent: once a pair is staged its target is tracked and
/// present on disk, so staging the same path again changes nothing, and the
/// records hold exactly one record for that target and one for that source.
pub proof fn lemma_stage_idempotent(d: Disk, s: Seq<RecordView>, source: Seq<u8>, target: Seq<u8>, again: Seq<bool>)
    requires
        keys_unique(s),
        !has_source(s, source),
        !has_target(s, target),
        kind_of(d, target) == Kind::Absent,
    ensures
        ({
            let r1 = play_all(d, stage_steps(source, target, false));
            let s1 = stage_after(s, source, target, None, r1.1);
            &&& keys_unique(s1)
            &&& has_target(s1, target)
            &&& kind_of(r1.0, target) != Kind::Absent
            &&& forall|k: Kind| !stage_admits(s1, source, target, k)
            &&& stage_after(s1, source, target, None, again) == s1
            &&& s1.len() == s.len() + 1
        }),
{
    reveal_with_fuel(play, 2);
    let r1 = play_all(d, stage_steps(source, target, false));
    assert(r1.1 =~= seq![true]);
    let s1 = s.push(staged_record(source, target, None));
    assert(s1[s.len() as int].target == target);
    assert(s1[s.len() as int].source == source);
    assert forall|i: int, j: int| 0 <= i < s1.len() && 0 <= j < s1.len() && i != j implies
        #[trigger] s1[i].source != #[trigger] s1[j].source by {
        if i < s.len() && j < s.len() {
            assert(s[i].source != s[j].source);
        } else if i < s.len() {
            assert(s1[i] == s[i]);
        } else {
            assert(s1[j] == s[j]);
        }
    }
    assert forall|i: int, j: int| 0 <= i < s1.len() && 0 <= j < s1.len() && i != j implies
        #[trigger] s1[i].target != #[trigger] s1[j].target by {
        if i < s.len() && j < s.len() {
            assert(s[i].target != s[j].target);
        } else if i < s.len() {
            assert(s1[i] == s[i]);
        } else {
            assert(s1[j] == s[j]);
        }
    }
}

/// Linking a file whose copy into the managed folder fails, where the link
/// was accepted and whatever else fails, leaves the original location as it
/// was and the record staged.
pub proof fn lemma_link_copy_failure(
    d: Disk,
    s: Seq<RecordView>,
    source: Seq<u8>,
    target: Seq<u8>,
    source_kind: Kind,
    target_kind: Kind,
    oks: Seq<bool>,
)
    requires
        source_kind != Kind::Dir,
        link_admits(s, source, target, source_kind, kind_of(d, swap_path_spec(source))),
        ({
            let lk = link_steps(source, target, source_kind, target_kind);
            let ci: int = if target_kind == Kind::File || target_kind == Kind::Link { 1 } else { 0 };
            let out = play(d, lk, oks, 0).1;
            out.len() > ci && !out[ci]
        }),
    ensures
        ({
            let lk = link_steps(source, target, source_kind, target_kind);
            let r = play(d, lk, oks, 0);
            &&& r.0.contains_key(source) == d.contains_key(source)
            &&& d.contains_key(source) ==> r.0[source] == d[source]
            &&& link_after(s, source, target, lk, r.1) == s
        }),
{
    reveal_with_fuel(play, 3);
    let lk = link_steps(source, target, source_kind, target_kind);
    let r = play(d, lk, oks, 0);
    if target_kind == Kind::File || target_kind == Kind::Link {
        assert(lk.len() == 4);
        assert(r.1.len() == 2);
    } else {
        assert(lk.len() == 3);
        assert(r.1.len() == 1);
    }
    assert(!all_ok(lk, r.1));
}

/// Deleting a record with every step succeeding removes its original and its
/// canonical copy from disk, and then neither path finds a record.
pub proof fn lemma_delete_purges(d: Disk, s: Seq<RecordView>, target: Seq<u8>)
    requires
        keys_unique(s),
        has_target(s, target),
        kind_of(d, by_target(s, target)->Some_0.source) == Kind::File
            || kind_of(d, by_target(s, target)->Some_0.source) == Kind::Link,
        kind_of(d, target) == Kind::File || kind_of(d, target) == Kind::Link,
        by_target(s, target)->Some_0.source != target,
    ensures
        ({
            let source = by_target(s, target)->Some_0.source;
            let r = play_all(d, delete_steps(source, target));
            let s2 = delete_after(s, target, delete_steps(source, target), r.1);
            &&& !r.0.contains_key(source)
            &&& !r.0.contains_key(target)
            &&& by_target(s2, target) is None
            &&& by_source(s2, source) is None
        }),
{
    reveal_with_fuel(play, 3);
    let k = choose|k: int| 0 <= k < s.len() && #[trigger] s[k].target == target;
    let source = s[k].source;
    let r = play_all(d, delete_steps(source, target));
    assert(r.0 == d.remove(source).remove(target));
    assert(r.1 =~= seq![true, true]);
    let s2 = s.remove(k);
    assert(without_target(s, target) == s2);
    assert forall|i: int| 0 <= i < s2.len() implies #[trigger] s2[i].target != target && s2[i].source != source by {
        if i < k {
            assert(s2[i] == s[i]);
        } else {
            assert(s2[i] == s[i + 1]);
        }
    }
}

/// The steps of linking, unlinking, removing and deleting a record write
/// nothing but the record's source, its target and the source's side path
/// (which their begin checks require to be free where a plan uses it), so
/// every other path is left as it was, whichever steps fail.
pub proof fn lemma_plans_confined(
    d: Disk,
    source: Seq<u8>,
    target: Seq<u8>,
    source_kind: Kind,
    target_kind: Kind,
    oks: Seq<bool>,
    p: Seq<u8>,
)
    requires
        p != source,
        p != target,
        p != swap_path_spec(source),
    ensures
        ({
            let plans = seq![
                link_steps(source, target, source_kind, target_kind),
                restore_steps(source, target),
                remove_steps(source, target, source_kind),
                delete_steps(source, target),
            ];
            forall|k: int| 0 <= k < 4 ==> {
                let r = #[trigger] play(d, plans[k], oks, 0).0;
                &&& r.contains_key(p) == d.contains_key(p)
                &&& d.contains_key(p) ==> r[p] == d[p]
            }
        }),
{
    let plans = seq![
        link_steps(source, target, source_kind, target_kind),
        restore_steps(source, target),
        remove_steps(source, target, source_kind),
        delete_steps(source, target),
    ];
    assert forall|k: int| 0 <= k < 4 implies !steps_write(plans[k], p) by {
        let st = plans[k];
        assert forall|j: int| 0 <= j < st.len() implies !action_writes(#[trigger] st[j].action, p) by {
            if k == 0 && target_kind != Kind::File && target_kind != Kind::Link && source_kind != Kind::Dir {
                assert(st == relocate_steps(source, target));
            }
        }
    }
    assert forall|k: int| 0 <= k < 4 implies ({
        let r = #[trigger] play(d, plans[k], oks, 0).0;
        &&& r.contains_key(p) == d.contains_key(p)
        &&& d.contains_key(p) ==> r[p] == d[p]
    }) by {
        lemma_frame(d, plans[k], oks, 0, p);
    }
}

} // verus!
