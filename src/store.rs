//! The tracking store: one record for each tracked source/target pair.
use vstd::prelude::*;
use crate::error::ForgeError;
use crate::path::{bytes_eq, copy_bytes};

verus! {

/// Where a tracked item stands in its lifecycle.
#[derive(Clone, Copy, Debug, PartialEq, Eq, Structural)]
pub enum Status {
    /// The managed folder holds a link back to the untouched original.
    Staged,
    /// The managed folder holds the canonical copy; the original location
    /// is a link to it.
    Linked,
}

/// One tracked item.
#[derive(Clone, Debug)]
pub struct DotfileRecord {
    /// The original location, where the link ends up.
    pub source: Vec<u8>,
    /// The canonical copy inside the managed folder.
    pub target: Vec<u8>,
    /// The profile the item belongs to, if any.
    pub profile: Option<String>,
    pub status: Status,
}

/// The mathematical value of a record.
pub struct RecordView {
    pub source: Seq<u8>,
    pub target: Seq<u8>,
    pub profile: Option<Seq<char>>,
    pub status: Status,
}

pub open spec fn profile_view(p: Option<String>) -> Option<Seq<char>> {
    match p {
        Some(s) => Some(s@),
        None => None,
    }
}

pub open spec fn profile_filter_view(p: Option<&String>) -> Option<Seq<char>> {
    match p {
        Some(s) => Some(s@),
        None => None,
    }
}

impl View for DotfileRecord {
    type V = RecordView;

    open spec fn view(&self) -> RecordView {
        RecordView {
            source: self.source@,
            target: self.target@,
            profile: profile_view(self.profile),
            status: self.status,
        }
    }
}

impl DotfileRecord {
    pub fn is_staged(&self) -> (r: bool)
        ensures
            r == (self.status == Status::Staged),
    {
        self.status == Status::Staged
    }

    /// A copy of this record.
    pub fn duplicate(&self) -> (r: DotfileRecord)
        ensures
            r@ == self@,
    {
        let profile = match &self.profile {
            Some(p) => Some(p.clone()),
            None => None,
        };
        DotfileRecord {
            source: copy_bytes(&self.source),
            target: copy_bytes(&self.target),
            profile,
            status: self.status,
        }
    }
}

/// No two records share a source, and no two share a target.
pub open spec fn keys_unique(s: Seq<RecordView>) -> bool {
    &&& forall|i: int, j: int|
        0 <= i < s.len() && 0 <= j < s.len() && i != j ==> #[trigger] s[i].source != #[trigger] s[j].source
    &&& forall|i: int, j: int|
        0 <= i < s.len() && 0 <= j < s.len() && i != j ==> #[trigger] s[i].target != #[trigger] s[j].target
}

pub open spec fn has_source(s: Seq<RecordView>, p: Seq<u8>) -> bool {
    exists|i: int| 0 <= i < s.len() && #[trigger] s[i].source == p
}

pub open spec fn has_target(s: Seq<RecordView>, p: Seq<u8>) -> bool {
    exists|i: int| 0 <= i < s.len() && #[trigger] s[i].target == p
}

/// The record whose source is `p`, if one is tracked.
pub open spec fn by_source(s: Seq<RecordView>, p: Seq<u8>) -> Option<RecordView> {
    if has_source(s, p) {
        Some(s[choose|i: int| 0 <= i < s.len() && #[trigger] s[i].source == p])
    } else {
        None
    }
}

/// The record whose target is `p`, if one is tracked.
pub open spec fn by_target(s: Seq<RecordView>, p: Seq<u8>) -> Option<RecordView> {
    if has_target(s, p) {
        Some(s[choose|i: int| 0 <= i < s.len() && #[trigger] s[i].target == p])
    } else {
        None
    }
}

/// A fresh record, as staging creates it.
pub open spec fn staged_record(source: Seq<u8>, target: Seq<u8>, profile: Option<Seq<char>>) -> RecordView {
    RecordView { source, target, profile, status: Status::Staged }
}

pub open spec fn is_staged_pair(r: RecordView, source: Seq<u8>, target: Seq<u8>) -> bool {
    r.source == source && r.target == target && r.status == Status::Staged
}

/// `s` with the staged record of the pair marked linked.
pub open spec fn mark_linked(s: Seq<RecordView>, source: Seq<u8>, target: Seq<u8>) -> Seq<RecordView> {
    s.map_values(|r: RecordView|
        if is_staged_pair(r, source, target) {
            RecordView { status: Status::Linked, ..r }
        } else {
            r
        })
}

/// `s` without the record whose target is `t`.
pub open spec fn without_target(s: Seq<RecordView>, t: Seq<u8>) -> Seq<RecordView> {
    if has_target(s, t) {
        s.remove(choose|i: int| 0 <= i < s.len() && #[trigger] s[i].target == t)
    } else {
        s
    }
}

/// The records of `s` that belong to `profile`, or all of them for `None`, in order.
pub open spec fn in_profile(s: Seq<RecordView>, profile: Option<Seq<char>>) -> Seq<RecordView>
    decreases s.len(),
{
    if s.len() == 0 {
        s
    } else {
        let rest = in_profile(s.drop_last(), profile);
        if profile is None || s.last().profile == profile {
            rest.push(s.last())
        } else {
            rest
        }
    }
}

/// The tracked records, in the order they were staged.
pub struct TrackingStore {
    records: Vec<DotfileRecord>,
}

impl View for TrackingStore {
    type V = Seq<RecordView>;

    closed spec fn view(&self) -> Seq<RecordView> {
        self.records@.map_values(|r: DotfileRecord| r@)
    }
}

impl TrackingStore {
    /// The store's invariant: no two records share a source or a target.
    pub open spec fn wf(&self) -> bool {
        keys_unique(self@)
    }

    pub fn new() -> (r: TrackingStore)
        ensures
            r@ == Seq::<RecordView>::empty(),
            r.wf(),
    {
        let r = TrackingStore { records: Vec::new() };
        assert(r@ =~= Seq::<RecordView>::empty());
        r
    }

    pub fn len(&self) -> (r: usize)
        ensures
            r == self@.len(),
    {
        self.records.len()
    }

    /// A copy of the record at `i`.
    pub fn get(&self, i: usize) -> (r: DotfileRecord)
        requires
            i < self@.len(),
        ensures
            r@ == self@[i as int],
    {
        self.records[i].duplicate()
    }

    fn index_of_source(&self, p: &Vec<u8>) -> (r: Option<usize>)
        ensures
            r matches Some(i) ==> i < self@.len() && self@[i as int].source == p@,
            r is None ==> !has_source(self@, p@),
    {
        let mut i: usize = 0;
        while i < self.records.len()
            invariant
                i <= self@.len(),
                self@.len() == self.records@.len(),
                forall|k: int| 0 <= k < i ==> #[trigger] self@[k].source != p@,
            decreases self.records.len() - i,
        {
            if bytes_eq(&self.records[i].source, p) {
                return Some(i);
            }
            i = i + 1;
        }
        None
    }

    fn index_of_target(&self, p: &Vec<u8>) -> (r: Option<usize>)
        ensures
            r matches Some(i) ==> i < self@.len() && self@[i as int].target == p@,
            r is None ==> !has_target(self@, p@),
    {
        let mut i: usize = 0;
        while i < self.records.len()
            invariant
                i <= self@.len(),
                self@.len() == self.records@.len(),
                forall|k: int| 0 <= k < i ==> #[trigger] self@[k].target != p@,
            decreases self.records.len() - i,
        {
            if bytes_eq(&self.records[i].target, p) {
                return Some(i);
            }
            i = i + 1;
        }
        None
    }

    /// The record whose original location is `p`.
    pub fn find_by_source(&self, p: &Vec<u8>) -> (r: Option<DotfileRecord>)
        requires
            self.wf(),
        ensures
            r matches Some(x) ==> by_source(self@, p@) == Some(x@),
            r is None ==> by_source(self@, p@) is None,
    {
        match self.index_of_source(p) {
            Some(i) => Some(self.records[i].duplicate()),
            None => None,
        }
    }

    /// The record whose canonical copy is `p`.
    pub fn find_by_target(&self, p: &Vec<u8>) -> (r: Option<DotfileRecord>)
        requires
            self.wf(),
        ensures
            r matches Some(x) ==> by_target(self@, p@) == Some(x@),
            r is None ==> by_target(self@, p@) is None,
    {
        match self.index_of_target(p) {
            Some(i) => Some(self.records[i].duplicate()),
            None => None,
        }
    }

    pub fn contains_source(&self, p: &Vec<u8>) -> (r: bool)
        ensures
            r == has_source(self@, p@),
    {
        self.index_of_source(p).is_some()
    }

    pub fn contains_target(&self, p: &Vec<u8>) -> (r: bool)
        ensures
            r == has_target(self@, p@),
    {
        self.index_of_target(p).is_some()
    }

    /// Tracks a new pair as staged. Refused when either path is tracked already.
    pub fn insert(&mut self, source: Vec<u8>, target: Vec<u8>, profile: Option<String>) -> (r: Result<(), ForgeError>)
        requires
            old(self).wf(),
        ensures
            final(self).wf(),
            r is Err <==> has_source(old(self)@, source@) || has_target(old(self)@, target@),
            r matches Err(e) ==> e == ForgeError::Conflict && final(self)@ == old(self)@,
            r is Ok ==> final(self)@ == old(self)@.push(staged_record(source@, target@, profile_view(profile))),
    {
        if self.contains_source(&source) || self.contains_target(&target) {
            return Err(ForgeError::Conflict);
        }
        let rec = DotfileRecord { source, target, profile, status: Status::Staged };
        self.records.push(rec);
        assert(self@ =~= old(self)@.push(rec@));
        Ok(())
    }

    /// Marks the staged record of the pair as linked. The record must be
    /// staged: a linked one is refused.
    pub fn transition_to_linked(&mut self, source: &Vec<u8>, target: &Vec<u8>) -> (r: Result<(), ForgeError>)
        requires
            old(self).wf(),
        ensures
            final(self).wf(),
            r is Ok <==> exists|i: int| 0 <= i < old(self)@.len() && is_staged_pair(#[trigger] old(self)@[i], source@, target@),
            r matches Err(e) ==> e == ForgeError::NotFound && final(self)@ == old(self)@,
            r is Ok ==> final(self)@ == mark_linked(old(self)@, source@, target@),
    {
        match self.index_of_source(source) {
            None => Err(ForgeError::NotFound),
            Some(i) => {
                if !bytes_eq(&self.records[i].target, target) || !self.records[i].is_staged() {
                    assert forall|k: int| 0 <= k < old(self)@.len() implies !is_staged_pair(#[trigger] old(self)@[k], source@, target@) by {
                        if k != i {
                            assert(old(self)@[k].source != old(self)@[i as int].source);
                        }
                    }
                    return Err(ForgeError::NotFound);
                }
                let mut rec = self.records[i].duplicate();
                rec.status = Status::Linked;
                self.records.set(i, rec);
                assert forall|k: int| 0 <= k < old(self)@.len() && k != i implies !is_staged_pair(#[trigger] old(self)@[k], source@, target@) by {
                    assert(old(self)@[k].source != old(self)@[i as int].source);
                }
                assert(self@ =~= mark_linked(old(self)@, source@, target@));
                Ok(())
            }
        }
    }

    /// Purges the record whose canonical copy is `target`.
    pub fn remove(&mut self, target: &Vec<u8>) -> (r: Result<(), ForgeError>)
        requires
            old(self).wf(),
        ensures
            final(self).wf(),
            r is Ok <==> has_target(old(self)@, target@),
            r matches Err(e) ==> e == ForgeError::NotFound && final(self)@ == old(self)@,
            r is Ok ==> final(self)@ == without_target(old(self)@, target@),
    {
        match self.index_of_target(target) {
            None => Err(ForgeError::NotFound),
            Some(i) => {
                let ghost k = choose|k: int| 0 <= k < old(self)@.len() && #[trigger] old(self)@[k].target == target@;
                proof {
                    if k != i {
                        assert(old(self)@[k].target != old(self)@[i as int].target);
                    }
                }
                self.records.remove(i);
                assert(self@ =~= old(self)@.remove(i as int));
                Ok(())
            }
        }
    }

    /// Drops the live record whose canonical copy is `target`; no history is kept.
    pub fn deactivate(&mut self, target: &Vec<u8>) -> (r: Result<(), ForgeError>)
        requires
            old(self).wf(),
        ensures
            final(self).wf(),
            r is Ok <==> has_target(old(self)@, target@),
            r matches Err(e) ==> e == ForgeError::NotFound && final(self)@ == old(self)@,
            r is Ok ==> final(self)@ == without_target(old(self)@, target@),
    {
        self.remove(target)
    }

    /// The records of `profile`, or all records for `None`, in order.
    pub fn list(&self, profile: Option<&String>) -> (r: Vec<DotfileRecord>)
        ensures
            r@.map_values(|x: DotfileRecord| x@) == in_profile(self@, profile_filter_view(profile)),
    {
        let ghost want = profile_filter_view(profile);
        let mut out: Vec<DotfileRecord> = Vec::new();
        let mut i: usize = 0;
        while i < self.records.len()
            invariant
                i <= self@.len(),
                self@.len() == self.records@.len(),
                want == profile_filter_view(profile),
                out@.map_values(|x: DotfileRecord| x@) == in_profile(self@.subrange(0, i as int), want),
            decreases self.records.len() - i,
        {
            let ghost before = out@.map_values(|x: DotfileRecord| x@);
            assert(self@.subrange(0, i + 1).drop_last() =~= self@.subrange(0, i as int));
            let keep = match (profile, &self.records[i].profile) {
                (None, _) => true,
                (Some(p), Some(q)) => *p == *q,
                (Some(_), None) => false,
            };
            if keep {
                out.push(self.records[i].duplicate());
                assert(out@.map_values(|x: DotfileRecord| x@) =~= before.push(self@[i as int]));
            }
            i = i + 1;
        }
        assert(self@.subrange(0, self@.len() as int) =~= self@);
        out
    }
}

} // verus!
