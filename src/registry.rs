//! The registry of managed folders, one of which is active.
use vstd::prelude::*;
use crate::error::ForgeError;
use crate::path::{copy_bytes, join, join_spec};
use crate::plan::{Action, ActionView, Run, Step, StepView, all_ok, last_cause, step, steps_view};

verus! {

/// A folder that holds canonical copies.
#[derive(Clone, Debug)]
pub struct ManagedFolder {
    pub name: String,
    pub root: Vec<u8>,
    pub is_active: bool,
}

pub struct FolderView {
    pub name: Seq<char>,
    pub root: Seq<u8>,
    pub is_active: bool,
}

impl View for ManagedFolder {
    type V = FolderView;

    open spec fn view(&self) -> FolderView {
        FolderView { name: self.name@, root: self.root@, is_active: self.is_active }
    }
}

/// Names are unique, and while any folder is registered exactly one is active.
pub open spec fn registry_ok(s: Seq<FolderView>) -> bool {
    &&& forall|i: int, j: int|
        0 <= i < s.len() && 0 <= j < s.len() && i != j ==> #[trigger] s[i].name != #[trigger] s[j].name
    &&& forall|i: int, j: int|
        0 <= i < s.len() && 0 <= j < s.len() && s[i].is_active && s[j].is_active ==> i == j
    &&& s.len() > 0 ==> exists|i: int| 0 <= i < s.len() && #[trigger] s[i].is_active
}

pub open spec fn has_name(s: Seq<FolderView>, name: Seq<char>) -> bool {
    exists|i: int| 0 <= i < s.len() && #[trigger] s[i].name == name
}

pub open spec fn metadata_dir_spec(root: Seq<u8>) -> Seq<u8> {
    join_spec(root, seq![46u8, 102u8, 111u8, 114u8, 103u8, 101u8])
}

/// The directory inside `root` that marks it as a managed folder.
pub fn metadata_dir(root: &Vec<u8>) -> (r: Vec<u8>)
    ensures
        r@ == metadata_dir_spec(root@),
{
    let mut name: Vec<u8> = Vec::new();
    name.push(46u8);
    name.push(102u8);
    name.push(111u8);
    name.push(114u8);
    name.push(103u8);
    name.push(101u8);
    assert(name@ =~= seq![46u8, 102u8, 111u8, 114u8, 103u8, 101u8]);
    join(root, &name)
}

pub struct Registry {
    folders: Vec<ManagedFolder>,
}

impl View for Registry {
    type V = Seq<FolderView>;

    closed spec fn view(&self) -> Seq<FolderView> {
        self.folders@.map_values(|f: ManagedFolder| f@)
    }
}

impl Registry {
    pub open spec fn wf(&self) -> bool {
        registry_ok(self@)
    }

    pub fn new() -> (r: Registry)
        ensures
            r@ == Seq::<FolderView>::empty(),
            r.wf(),
    {
        let r = Registry { folders: Vec::new() };
        assert(r@ =~= Seq::<FolderView>::empty());
        r
    }

    pub fn len(&self) -> (r: usize)
        ensures
            r == self@.len(),
    {
        self.folders.len()
    }

    /// A copy of the folder at `i`.
    pub fn folder(&self, i: usize) -> (r: ManagedFolder)
        requires
            i < self@.len(),
        ensures
            r@ == self@[i as int],
    {
        let f = &self.folders[i];
        ManagedFolder { name: f.name.clone(), root: copy_bytes(&f.root), is_active: f.is_active }
    }

    fn index_of(&self, name: &String) -> (r: Option<usize>)
        ensures
            r matches Some(i) ==> i < self@.len() && self@[i as int].name == name@,
            r is None ==> !has_name(self@, name@),
    {
        let mut i: usize = 0;
        while i < self.folders.len()
            invariant
                i <= self@.len(),
                self@.len() == self.folders@.len(),
                forall|k: int| 0 <= k < i ==> #[trigger] self@[k].name != name@,
            decreases self.folders.len() - i,
        {
            if self.folders[i].name == *name {
                return Some(i);
            }
            i = i + 1;
        }
        None
    }

    /// Registers a folder under a new name. The first folder registered
    /// becomes the active one.
    pub fn add(&mut self, name: String, root: Vec<u8>) -> (r: Result<(), ForgeError>)
        requires
            old(self).wf(),
        ensures
            final(self).wf(),
            r is Err <==> has_name(old(self)@, name@),
            r matches Err(e) ==> e == ForgeError::Conflict && final(self)@ == old(self)@,
            r is Ok ==> final(self)@ == old(self)@.push(
                FolderView { name: name@, root: root@, is_active: old(self)@.len() == 0 }),
    {
        if self.index_of(&name).is_some() {
            return Err(ForgeError::Conflict);
        }
        let first = self.folders.len() == 0;
        let f = ManagedFolder { name, root, is_active: first };
        self.folders.push(f);
        assert(self@ =~= old(self)@.push(f@));
        proof {
            if !first {
                let k = choose|k: int| 0 <= k < old(self)@.len() && #[trigger] old(self)@[k].is_active;
                assert(self@[k].is_active);
            } else {
                assert(self@[0].is_active);
            }
        }
        Ok(())
    }

    /// The name and root of the active folder; `None` when none is registered.
    pub fn get_active(&self) -> (r: Option<(String, Vec<u8>)>)
        requires
            self.wf(),
        ensures
            r is None <==> self@.len() == 0,
            r matches Some(p) ==> exists|i: int| 0 <= i < self@.len() && #[trigger] self@[i].is_active
                && self@[i].name == p.0@ && self@[i].root == p.1@,
    {
        let mut i: usize = 0;
        while i < self.folders.len()
            invariant
                i <= self@.len(),
                self@.len() == self.folders@.len(),
                forall|k: int| 0 <= k < i ==> !(#[trigger] self@[k]).is_active,
            decreases self.folders.len() - i,
        {
            if self.folders[i].is_active {
                assert(self@[i as int].is_active);
                return Some((self.folders[i].name.clone(), copy_bytes(&self.folders[i].root)));
            }
            i = i + 1;
        }
        None
    }

    /// Makes the folder called `name` the active one.
    pub fn set_active(&mut self, name: &String) -> (r: Result<(), ForgeError>)
        requires
            old(self).wf(),
        ensures
            final(self).wf(),
            r is Ok <==> has_name(old(self)@, name@),
            r matches Err(e) ==> e == ForgeError::NotFound && final(self)@ == old(self)@,
            r is Ok ==> final(self)@ == old(self)@.map_values(|f: FolderView|
                FolderView { is_active: f.name == name@, ..f }),
    {
        let found = self.index_of(name);
        if found.is_none() {
            return Err(ForgeError::NotFound);
        }
        let n = self.folders.len();
        let mut i: usize = 0;
        while i < n
            invariant
                n == self.folders@.len() == old(self)@.len(),
                i <= n,
                has_name(old(self)@, name@),
                registry_ok(old(self)@),
                forall|k: int| 0 <= k < i ==> #[trigger] self@[k] == (FolderView { is_active: old(self)@[k].name == name@, ..old(self)@[k] }),
                forall|k: int| i <= k < n ==> #[trigger] self@[k] == old(self)@[k],
            decreases n - i,
        {
            let active = self.folders[i].name == *name;
            let f = ManagedFolder {
                name: self.folders[i].name.clone(),
                root: copy_bytes(&self.folders[i].root),
                is_active: active,
            };
            assert(self@[i as int] == self.folders@[i as int]@);
            assert(f@.name == old(self)@[i as int].name);
            assert(f@.root == old(self)@[i as int].root);
            assert(f@.is_active == (old(self)@[i as int].name == name@));
            let ghost prev = self@;
            self.folders.set(i, f);
            assert(self@[i as int] == f@);
            assert(forall|k: int| 0 <= k < n && k != i ==> #[trigger] self@[k] == prev[k]);
            i = i + 1;
        }
        assert(self@ =~= old(self)@.map_values(|f: FolderView| FolderView { is_active: f.name == name@, ..f }));
        proof {
            let k = choose|k: int| 0 <= k < old(self)@.len() && #[trigger] old(self)@[k].name == name@;
            assert(self@[k].is_active);
        }
        Ok(())
    }
}

/// Initialising a folder creates its root, then its metadata directory.
pub open spec fn init_steps(root: Seq<u8>) -> Seq<StepView> {
    seq![
        step(ActionView::MakeDir { path: root }, true),
        step(ActionView::MakeDir { path: metadata_dir_spec(root) }, true),
    ]
}

impl Registry {
    /// Plans initialising a managed folder at `root` under `name`; a name
    /// already registered is refused before anything is created.
    pub fn init_begin(&self, name: &String, root: &Vec<u8>) -> (r: Result<Run, ForgeError>)
        ensures
            r is Err <==> has_name(self@, name@),
            r matches Err(e) ==> e == ForgeError::Conflict,
            r matches Ok(run) ==> run.wf() && run.outcomes().len() == 0 && run.steps() == init_steps(root@),
    {
        if self.index_of(name).is_some() {
            return Err(ForgeError::Conflict);
        }
        let mut v: Vec<Step> = Vec::new();
        v.push(Step { action: Action::MakeDir { path: copy_bytes(root) }, abort_on_failure: true });
        v.push(Step { action: Action::MakeDir { path: metadata_dir(root) }, abort_on_failure: true });
        assert(steps_view(v@) =~= init_steps(root@));
        Ok(Run::new(v))
    }

    /// Registers the folder once both directories exist.
    pub fn init_finish(&mut self, name: String, root: Vec<u8>, run: &Run) -> (r: Result<(), ForgeError>)
        requires
            old(self).wf(),
        ensures
            final(self).wf(),
            r is Ok <==> all_ok(run.steps(), run.outcomes()) && !has_name(old(self)@, name@),
            r is Ok ==> final(self)@ == old(self)@.push(
                FolderView { name: name@, root: root@, is_active: old(self)@.len() == 0 }),
            r is Err ==> final(self)@ == old(self)@,
            r matches Err(e) ==> (e is IoFailure && !all_ok(run.steps(), run.outcomes()))
                || (e == ForgeError::Conflict && has_name(old(self)@, name@)),
            r matches Err(ForgeError::IoFailure(m)) ==> m@ == last_cause(run.causes()),
    {
        let n = run.planned();
        if run.performed() != n {
            return Err(ForgeError::IoFailure(run.last_error()));
        }
        let mut i: usize = 0;
        while i < n
            invariant
                i <= n,
                n == run.outcomes().len(),
                n == run.steps().len(),
                self.wf(),
                self@ == old(self)@,
                forall|k: int| 0 <= k < i ==> #[trigger] run.outcomes()[k],
            decreases n - i,
        {
            if !run.succeeded(i) {
                return Err(ForgeError::IoFailure(run.last_error()));
            }
            i = i + 1;
        }
        self.add(name, root)
    }
}

} // verus!
