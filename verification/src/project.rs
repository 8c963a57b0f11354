//! The domain model: projects, tasks, and the operations on the
//! in-memory collection, together with the project command executor.
//!
//! The collection is a sequence of projects with pairwise-distinct
//! identifiers; each project owns a sequence of tasks, again with
//! pairwise-distinct identifiers. Identifiers never change once assigned.

use vstd::prelude::*;
use crate::{Error, Output, ProjectLine, TaskLine};
use crate::ids::{Identifier, canonical_id, valid_id_input, norm_id, parse_id, new_id, str_eq};

verus! {

// ---------------------------------------------------------------------
// Commands

/// Arguments of the project namespace: one optional subcommand.
pub struct ProjectArgs {
    pub command: Option<Command>,
}

/// The project-namespace commands.
pub enum Command {
    Create { name: String, description: Option<String> },
    Destroy { project_id: String },
    Update { project_id: String, name: Option<String>, description: Option<String> },
    List,
    CreateTask { project_id: String, name: String, description: Option<String> },
    DestroyTask { project_id: String, task_id: String },
    UpdateTask { project_id: String, task_id: String, name: Option<String>, description: Option<String> },
    ListTasks { project_id: String },
}

// ---------------------------------------------------------------------
// Task type and status tags

/// The categorical type tag of a task; a single variant is meaningful
/// today, and unrecognized text falls back to it.
#[derive(Debug, Clone, Copy, PartialEq, Eq, Structural)]
pub enum ProjectTaskType {
    Default,
}

/// The status tag of a task. Unrecognized text falls back to `Default`
/// rather than failing; `Todo` is what task creation assigns.
#[derive(Debug, Clone, Copy, PartialEq, Eq, Structural)]
pub enum ProjectTaskStatus {
    Default,
    Todo,
    InProgress,
    Complete,
}

/// The total, lenient reading of a task-type string: the one recognized
/// word maps to its variant, everything else to the default.
pub open spec fn spec_type_from_text(s: Seq<char>) -> ProjectTaskType {
    if s == "default"@ {
        ProjectTaskType::Default
    } else {
        ProjectTaskType::Default
    }
}

/// The total, lenient reading of a status string: the three recognized
/// words map to their variants, everything else to `Default`.
pub open spec fn spec_status_from_text(s: Seq<char>) -> ProjectTaskStatus {
    if s == "todo"@ {
        ProjectTaskStatus::Todo
    } else if s == "in_progress"@ {
        ProjectTaskStatus::InProgress
    } else if s == "complete"@ {
        ProjectTaskStatus::Complete
    } else {
        ProjectTaskStatus::Default
    }
}

impl ProjectTaskType {
    /// Read a type tag from text; never fails.
    pub fn from_text(s: &str) -> (r: ProjectTaskType)
        ensures
            r == spec_type_from_text(s@),
    {
        if str_eq(s, "default") {
            ProjectTaskType::Default
        } else {
            ProjectTaskType::Default
        }
    }
}

impl ProjectTaskStatus {
    /// Read a status tag from text; never fails.
    pub fn from_text(s: &str) -> (r: ProjectTaskStatus)
        ensures
            r == spec_status_from_text(s@),
    {
        if str_eq(s, "todo") {
            ProjectTaskStatus::Todo
        } else if str_eq(s, "in_progress") {
            ProjectTaskStatus::InProgress
        } else if str_eq(s, "complete") {
            ProjectTaskStatus::Complete
        } else {
            ProjectTaskStatus::Default
        }
    }
}

// ---------------------------------------------------------------------
// Entities and their mathematical models

/// The mathematical model of a task.
#[verifier::ext_equal]
pub struct TaskModel {
    pub id: Seq<char>,
    pub name: Seq<char>,
    pub description: Seq<char>,
    pub type_: ProjectTaskType,
    pub status: ProjectTaskStatus,
}

/// The mathematical model of a project.
#[verifier::ext_equal]
pub struct ProjectModel {
    pub id: Seq<char>,
    pub name: Seq<char>,
    pub description: Seq<char>,
    pub tasks: Seq<TaskModel>,
}

/// A unit of work owned by exactly one project.
pub struct ProjectTask {
    pub id: Identifier,
    pub name: String,
    pub description: String,
    pub type_: ProjectTaskType,
    pub status: ProjectTaskStatus,
}

impl View for ProjectTask {
    type V = TaskModel;

    open spec fn view(&self) -> TaskModel {
        TaskModel {
            id: self.id@,
            name: self.name@,
            description: self.description@,
            type_: self.type_,
            status: self.status,
        }
    }
}

/// A top-level collection of tasks with a name and description.
pub struct Project {
    pub id: Identifier,
    pub name: String,
    pub description: String,
    pub tasks: Vec<ProjectTask>,
}

impl View for Project {
    type V = ProjectModel;

    open spec fn view(&self) -> ProjectModel {
        ProjectModel {
            id: self.id@,
            name: self.name@,
            description: self.description@,
            tasks: self.tasks@.map_values(|t: ProjectTask| t@),
        }
    }
}

/// The aggregate root: every project of the collection.
pub struct ProjectData {
    projects: Vec<Project>,
}

impl View for ProjectData {
    type V = Seq<ProjectModel>;

    closed spec fn view(&self) -> Seq<ProjectModel> {
        self.projects@.map_values(|p: Project| p@)
    }
}

// ---------------------------------------------------------------------
// Lookup and well-formedness

pub open spec fn has_tid(ts: Seq<TaskModel>, id: Seq<char>) -> bool {
    exists|i: int| 0 <= i < ts.len() && ts[i].id == id
}

pub open spec fn tid_index(ts: Seq<TaskModel>, id: Seq<char>) -> int {
    choose|i: int| 0 <= i < ts.len() && ts[i].id == id
}

pub open spec fn unique_tids(ts: Seq<TaskModel>) -> bool {
    forall|i: int, j: int| 0 <= i < j < ts.len() ==> ts[i].id != ts[j].id
}

pub open spec fn has_pid(s: Seq<ProjectModel>, id: Seq<char>) -> bool {
    exists|i: int| 0 <= i < s.len() && s[i].id == id
}

pub open spec fn pid_index(s: Seq<ProjectModel>, id: Seq<char>) -> int {
    choose|i: int| 0 <= i < s.len() && s[i].id == id
}

pub open spec fn unique_pids(s: Seq<ProjectModel>) -> bool {
    forall|i: int, j: int| 0 <= i < j < s.len() ==> s[i].id != s[j].id
}

pub open spec fn task_wf(t: TaskModel) -> bool {
    canonical_id(t.id)
}

pub open spec fn project_wf(p: ProjectModel) -> bool {
    canonical_id(p.id) && unique_tids(p.tasks)
        && (forall|i: int| 0 <= i < p.tasks.len() ==> task_wf(#[trigger] p.tasks[i]))
}

pub open spec fn data_wf(s: Seq<ProjectModel>) -> bool {
    unique_pids(s) && (forall|i: int| 0 <= i < s.len() ==> project_wf(#[trigger] s[i]))
}

/// In a sequence of pairwise-distinct task identifiers, the index found
/// for an identifier is the only one carrying it.
pub proof fn lemma_tid_index(ts: Seq<TaskModel>, id: Seq<char>, i: int)
    requires
        unique_tids(ts),
        0 <= i < ts.len(),
        ts[i].id == id,
    ensures
        has_tid(ts, id),
        tid_index(ts, id) == i,
{
    assert(has_tid(ts, id));
    let j = tid_index(ts, id);
    if j < i {
        assert(ts[j].id != ts[i].id);
    } else if i < j {
        assert(ts[i].id != ts[j].id);
    }
}

/// In a sequence of pairwise-distinct project identifiers, the index
/// found for an identifier is the only one carrying it.
pub proof fn lemma_pid_index(s: Seq<ProjectModel>, id: Seq<char>, i: int)
    requires
        unique_pids(s),
        0 <= i < s.len(),
        s[i].id == id,
    ensures
        has_pid(s, id),
        pid_index(s, id) == i,
{
    assert(has_pid(s, id));
    let j = pid_index(s, id);
    if j < i {
        assert(s[j].id != s[i].id);
    } else if i < j {
        assert(s[i].id != s[j].id);
    }
}

/// Law: once a project is destroyed, its identifier resolves to nothing;
/// every reference through it (a task lookup, update or listing) is owed
/// a `ProjectNotFound` by the operations' contracts.
pub proof fn lemma_destroyed_project_unresolvable(s: Seq<ProjectModel>, id: Seq<char>)
    requires
        unique_pids(s),
        has_pid(s, id),
    ensures
        !has_pid(s.remove(pid_index(s, id)), id),
{
    let k = pid_index(s, id);
    let s2 = s.remove(k);
    assert forall|j: int| 0 <= j < s2.len() implies s2[j].id != id by {
        if j < k {
            assert(s2[j] == s[j]);
        } else {
            assert(s2[j] == s[j + 1]);
        }
    }
}

// ---------------------------------------------------------------------
// Spec-level operation results

/// The model of a freshly created task: type and status take their
/// creation-time defaults.
pub open spec fn spec_new_task(id: Seq<char>, name: Seq<char>, description: Seq<char>) -> TaskModel {
    TaskModel {
        id,
        name,
        description,
        type_: ProjectTaskType::Default,
        status: ProjectTaskStatus::Todo,
    }
}

/// Insert a task under its identifier: an existing entry with the same
/// identifier is replaced, otherwise the task is appended.
pub open spec fn upsert_task(ts: Seq<TaskModel>, t: TaskModel) -> Seq<TaskModel> {
    if has_tid(ts, t.id) {
        ts.update(tid_index(ts, t.id), t)
    } else {
        ts.push(t)
    }
}

/// Insert a project under its identifier, replacing or appending.
pub open spec fn upsert_project(s: Seq<ProjectModel>, p: ProjectModel) -> Seq<ProjectModel> {
    if has_pid(s, p.id) {
        s.update(pid_index(s, p.id), p)
    } else {
        s.push(p)
    }
}

/// A field patched by an optional replacement: supplied means replaced,
/// omitted means unchanged.
pub open spec fn patch_text(cur: Seq<char>, upd: Option<String>) -> Seq<char> {
    match upd {
        Some(s) => s@,
        None => cur,
    }
}

/// Law: a partial update replaces exactly the supplied fields; an
/// omitted field, the identifier and the tasks stay as they were.
pub proof fn lemma_project_patch_is_partial(p: ProjectModel, name: Option<String>, description: Option<String>)
    ensures
        name is None ==> patched_project(p, name, description).name == p.name,
        name matches Some(n) ==> patched_project(p, name, description).name == n@,
        description is None ==> patched_project(p, name, description).description == p.description,
        description matches Some(d) ==> patched_project(p, name, description).description == d@,
        patched_project(p, name, description).id == p.id,
        patched_project(p, name, description).tasks == p.tasks,
{
}

/// Law: a partial task update replaces exactly the supplied fields; an
/// omitted field, the identifier, the type and the status stay as they
/// were.
pub proof fn lemma_task_patch_is_partial(t: TaskModel, name: Option<String>, description: Option<String>)
    ensures
        name is None ==> patched_task(t, name, description).name == t.name,
        name matches Some(n) ==> patched_task(t, name, description).name == n@,
        description is None ==> patched_task(t, name, description).description == t.description,
        description matches Some(d) ==> patched_task(t, name, description).description == d@,
        patched_task(t, name, description).id == t.id,
        patched_task(t, name, description).type_ == t.type_,
        patched_task(t, name, description).status == t.status,
{
}

/// A project after a partial update of name and description.
pub open spec fn patched_project(p: ProjectModel, name: Option<String>, description: Option<String>) -> ProjectModel {
    ProjectModel {
        id: p.id,
        name: patch_text(p.name, name),
        description: patch_text(p.description, description),
        tasks: p.tasks,
    }
}

/// A task after a partial update of name and description.
pub open spec fn patched_task(t: TaskModel, name: Option<String>, description: Option<String>) -> TaskModel {
    TaskModel {
        id: t.id,
        name: patch_text(t.name, name),
        description: patch_text(t.description, description),
        type_: t.type_,
        status: t.status,
    }
}

// ---------------------------------------------------------------------
// Task construction

impl ProjectTask {
    /// Build a task from raw text. The type and status strings are read
    /// leniently: unrecognized text falls back to the default variant
    /// rather than failing. A fresh identifier is assigned.
    pub fn new(name: &str, description: &str, type_: &str, status: &str) -> (t: ProjectTask)
        ensures
            canonical_id(t@.id),
            t@.name == name@,
            t@.description == description@,
            t@.type_ == spec_type_from_text(type_@),
            t@.status == spec_status_from_text(status@),
    {
        let task_type = ProjectTaskType::from_text(type_);
        let task_status = ProjectTaskStatus::from_text(status);
        ProjectTask {
            id: new_id(),
            name: name.to_owned(),
            description: description.to_owned(),
            type_: task_type,
            status: task_status,
        }
    }
}

// ---------------------------------------------------------------------
// Project operations

impl Project {
    /// A new project with a fresh identifier and no tasks.
    pub fn new(name: &String, description: &String) -> (p: Project)
        ensures
            canonical_id(p@.id),
            p@.name == name@,
            p@.description == description@,
            p@.tasks == Seq::<TaskModel>::empty(),
            project_wf(p@),
    {
        let p = Project {
            id: new_id(),
            name: name.clone(),
            description: description.clone(),
            tasks: Vec::new(),
        };
        proof {
            assert(p@.tasks =~= Seq::<TaskModel>::empty());
        }
        p
    }

    /// The index of the task carrying `id`, if any.
    fn find_task(&self, id: &Identifier) -> (r: Option<usize>)
        requires
            unique_tids(self@.tasks),
        ensures
            match r {
                Some(k) => 0 <= k < self@.tasks.len() && self@.tasks[k as int].id == id@
                    && has_tid(self@.tasks, id@) && tid_index(self@.tasks, id@) == k as int,
                None => !has_tid(self@.tasks, id@),
            },
    {
        let n = self.tasks.len();
        let mut i: usize = 0;
        while i < n
            invariant
                n == self.tasks.len(),
                self@.tasks.len() == n,
                0 <= i <= n,
                unique_tids(self@.tasks),
                forall|j: int| 0 <= j < i ==> self@.tasks[j].id != id@,
            decreases n - i,
        {
            proof {
                assert(self@.tasks[i as int] == self.tasks@[i as int]@);
            }
            if self.tasks[i].id.same_as(id) {
                proof {
                    lemma_tid_index(self@.tasks, id@, i as int);
                }
                return Some(i);
            }
            i = i + 1;
        }
        None
    }

    /// Create a task under this project: fresh identifier, the given name
    /// and description, type and status at their creation defaults.
    pub fn create_task(&mut self, name: &String, description: &String) -> (id: Identifier)
        requires
            project_wf(old(self)@),
        ensures
            canonical_id(id@),
            final(self)@.tasks == upsert_task(old(self)@.tasks, spec_new_task(id@, name@, description@)),
            final(self)@.id == old(self)@.id,
            final(self)@.name == old(self)@.name,
            final(self)@.description == old(self)@.description,
            has_tid(final(self)@.tasks, id@),
            final(self)@.tasks[tid_index(final(self)@.tasks, id@)]
                == spec_new_task(id@, name@, description@),
            project_wf(final(self)@),
    {
        let task = ProjectTask::new(name.as_str(), description.as_str(), "default", "todo");
        let task_id = task.id.clone();
        let ghost t = task@;
        let ghost ts0 = self@.tasks;
        proof {
            assert(t == spec_new_task(task_id@, name@, description@));
        }
        match self.find_task(&task_id) {
            Some(k) => {
                self.tasks.remove(k);
                self.tasks.insert(k, task);
                proof {
                    assert(final(self)@.tasks =~= ts0.update(tid_index(ts0, t.id), t));
                    lemma_tid_index(final(self)@.tasks, task_id@, tid_index(ts0, t.id));
                }
            },
            None => {
                self.tasks.push(task);
                proof {
                    assert(final(self)@.tasks =~= ts0.push(t));
                    assert forall|i: int, j: int|
                        0 <= i < j < final(self)@.tasks.len()
                        implies final(self)@.tasks[i].id != final(self)@.tasks[j].id by {
                        if j == ts0.len() {
                            assert(final(self)@.tasks[i] == ts0[i]);
                        }
                    }
                    lemma_tid_index(final(self)@.tasks, task_id@, ts0.len() as int);
                }
            },
        }
        task_id
    }

    /// Remove the task carrying `task_id`; `TaskNotFound` if it is absent.
    pub fn destroy_task(&mut self, task_id: &Identifier) -> (r: Result<bool, Error>)
        requires
            project_wf(old(self)@),
        ensures
            has_tid(old(self)@.tasks, task_id@) ==> r == Ok::<bool, Error>(true)
                && final(self)@.tasks == old(self)@.tasks.remove(tid_index(old(self)@.tasks, task_id@))
                && !has_tid(final(self)@.tasks, task_id@),
            !has_tid(old(self)@.tasks, task_id@) ==> r == Err::<bool, Error>(Error::TaskNotFound)
                && final(self)@ == old(self)@,
            final(self)@.id == old(self)@.id,
            final(self)@.name == old(self)@.name,
            final(self)@.description == old(self)@.description,
            project_wf(final(self)@),
    {
        let ghost ts0 = self@.tasks;
        match self.find_task(task_id) {
            Some(k) => {
                self.tasks.remove(k);
                proof {
                    assert(final(self)@.tasks =~= ts0.remove(k as int));
                    assert forall|i: int, j: int|
                        0 <= i < j < final(self)@.tasks.len()
                        implies final(self)@.tasks[i].id != final(self)@.tasks[j].id by {
                        let s2 = ts0.remove(k as int);
                        assert(s2[i] == if i < k as int { ts0[i] } else { ts0[i + 1] });
                        assert(s2[j] == if j < k as int { ts0[j] } else { ts0[j + 1] });
                    }
                    lemma_removed_task_unresolvable(ts0, task_id@);
                }
                Ok(true)
            },
            None => Err(Error::TaskNotFound),
        }
    }

    /// Partially update the task carrying `task_id`: supplied fields are
    /// replaced, omitted fields stay as they were.
    pub fn update_task(&mut self, task_id: &Identifier, name: &Option<String>, description: &Option<String>) -> (r: Result<bool, Error>)
        requires
            project_wf(old(self)@),
        ensures
            has_tid(old(self)@.tasks, task_id@) ==> r == Ok::<bool, Error>(true)
                && final(self)@.tasks == old(self)@.tasks.update(
                    tid_index(old(self)@.tasks, task_id@),
                    patched_task(old(self)@.tasks[tid_index(old(self)@.tasks, task_id@)], *name, *description),
                ),
            !has_tid(old(self)@.tasks, task_id@) ==> r == Err::<bool, Error>(Error::TaskNotFound)
                && final(self)@ == old(self)@,
            final(self)@.id == old(self)@.id,
            final(self)@.name == old(self)@.name,
            final(self)@.description == old(self)@.description,
            project_wf(final(self)@),
    {
        let ghost ts0 = self@.tasks;
        match self.find_task(task_id) {
            Some(k) => {
                let mut task = self.tasks.remove(k);
                match name {
                    Some(n) => { task.name = n.clone(); },
                    None => {},
                }
                match description {
                    Some(d) => { task.description = d.clone(); },
                    None => {},
                }
                proof {
                    assert(task@ == patched_task(ts0[k as int], *name, *description));
                }
                self.tasks.insert(k, task);
                proof {
                    assert(final(self)@.tasks =~= ts0.update(k as int, patched_task(ts0[k as int], *name, *description)));
                }
                Ok(true)
            },
            None => Err(Error::TaskNotFound),
        }
    }
}

// ---------------------------------------------------------------------
// The aggregate root

impl ProjectData {
    /// The empty collection.
    pub fn new() -> (d: ProjectData)
        ensures
            d@ == Seq::<ProjectModel>::empty(),
            data_wf(d@),
    {
        let d = ProjectData { projects: Vec::new() };
        proof {
            assert(d@ =~= Seq::<ProjectModel>::empty());
        }
        d
    }

    /// Wrap an already-built sequence of projects.
    pub(crate) fn from_projects(projects: Vec<Project>) -> (d: ProjectData)
        ensures
            d@ == projects@.map_values(|p: Project| p@),
    {
        ProjectData { projects }
    }

    /// The index of the project carrying `id`, if any.
    fn find_project(&self, id: &Identifier) -> (r: Option<usize>)
        requires
            unique_pids(self@),
        ensures
            match r {
                Some(k) => 0 <= k < self@.len() && self@[k as int].id == id@
                    && has_pid(self@, id@) && pid_index(self@, id@) == k as int,
                None => !has_pid(self@, id@),
            },
    {
        let n = self.projects.len();
        let mut i: usize = 0;
        while i < n
            invariant
                n == self.projects.len(),
                self@.len() == n,
                0 <= i <= n,
                unique_pids(self@),
                forall|j: int| 0 <= j < i ==> self@[j].id != id@,
            decreases n - i,
        {
            proof {
                assert(self@[i as int] == self.projects@[i as int]@);
            }
            if self.projects[i].id.same_as(id) {
                proof {
                    lemma_pid_index(self@, id@, i as int);
                }
                return Some(i);
            }
            i = i + 1;
        }
        None
    }

    /// Create a project with a fresh identifier, the given name and
    /// description, and no tasks. Always succeeds; the project is
    /// afterwards retrievable under the returned identifier.
    pub fn create_project(&mut self, name: &String, description: &String) -> (id: Identifier)
        requires
            data_wf(old(self)@),
        ensures
            canonical_id(id@),
            final(self)@ == upsert_project(old(self)@, (ProjectModel {
                id: id@,
                name: name@,
                description: description@,
                tasks: Seq::<TaskModel>::empty(),
            })),
            has_pid(final(self)@, id@),
            final(self)@[pid_index(final(self)@, id@)] == (ProjectModel {
                id: id@,
                name: name@,
                description: description@,
                tasks: Seq::<TaskModel>::empty(),
            }),
            data_wf(final(self)@),
    {
        let project = Project::new(name, description);
        let project_id = project.id.clone();
        let ghost p = project@;
        let ghost s0 = self@;
        match self.find_project(&project_id) {
            Some(k) => {
                self.projects.remove(k);
                self.projects.insert(k, project);
                proof {
                    assert(final(self)@ =~= s0.update(pid_index(s0, p.id), p));
                    lemma_pid_index(final(self)@, project_id@, pid_index(s0, p.id));
                }
            },
            None => {
                self.projects.push(project);
                proof {
                    assert(final(self)@ =~= s0.push(p));
                    assert forall|i: int, j: int|
                        0 <= i < j < final(self)@.len()
                        implies final(self)@[i].id != final(self)@[j].id by {
                        if j == s0.len() {
                            assert(final(self)@[i] == s0[i]);
                        }
                    }
                    lemma_pid_index(final(self)@, project_id@, s0.len() as int);
                }
            },
        }
        project_id
    }

    /// Remove the project carrying `project_id` and, with it, all its
    /// tasks; `ProjectNotFound` if it is absent.
    pub fn destroy_project(&mut self, project_id: &Identifier) -> (r: Result<bool, Error>)
        requires
            data_wf(old(self)@),
        ensures
            has_pid(old(self)@, project_id@) ==> r == Ok::<bool, Error>(true)
                && final(self)@ == old(self)@.remove(pid_index(old(self)@, project_id@))
                && !has_pid(final(self)@, project_id@),
            !has_pid(old(self)@, project_id@) ==> r == Err::<bool, Error>(Error::ProjectNotFound)
                && final(self)@ == old(self)@,
            data_wf(final(self)@),
    {
        let ghost s0 = self@;
        match self.find_project(project_id) {
            Some(k) => {
                self.projects.remove(k);
                proof {
                    assert(final(self)@ =~= s0.remove(k as int));
                    assert forall|i: int, j: int|
                        0 <= i < j < final(self)@.len()
                        implies final(self)@[i].id != final(self)@[j].id by {
                        let s2 = s0.remove(k as int);
                        assert(s2[i] == if i < k as int { s0[i] } else { s0[i + 1] });
                        assert(s2[j] == if j < k as int { s0[j] } else { s0[j + 1] });
                    }
                    assert forall|i: int| 0 <= i < final(self)@.len()
                        implies project_wf(#[trigger] final(self)@[i]) by {
                        let s2 = s0.remove(k as int);
                        assert(s2[i] == if i < k as int { s0[i] } else { s0[i + 1] });
                    }
                    lemma_destroyed_project_unresolvable(s0, project_id@);
                }
                Ok(true)
            },
            None => Err(Error::ProjectNotFound),
        }
    }

    /// Partially update the project carrying `project_id`: supplied
    /// fields are replaced, omitted fields stay as they were. The tasks
    /// are untouched either way.
    pub fn update_project(&mut self, project_id: &Identifier, name: &Option<String>, description: &Option<String>) -> (r: Result<bool, Error>)
        requires
            data_wf(old(self)@),
        ensures
            has_pid(old(self)@, project_id@) ==> r == Ok::<bool, Error>(true)
                && final(self)@ == old(self)@.update(
                    pid_index(old(self)@, project_id@),
                    patched_project(old(self)@[pid_index(old(self)@, project_id@)], *name, *description),
                ),
            !has_pid(old(self)@, project_id@) ==> r == Err::<bool, Error>(Error::ProjectNotFound)
                && final(self)@ == old(self)@,
            data_wf(final(self)@),
    {
        let ghost s0 = self@;
        match self.find_project(project_id) {
            Some(k) => {
                let mut project = self.projects.remove(k);
                match name {
                    Some(n) => { project.name = n.clone(); },
                    None => {},
                }
                match description {
                    Some(d) => { project.description = d.clone(); },
                    None => {},
                }
                proof {
                    assert(project@ == patched_project(s0[k as int], *name, *description));
                }
                self.projects.insert(k, project);
                proof {
                    assert(final(self)@ =~= s0.update(k as int, patched_project(s0[k as int], *name, *description)));
                }
                Ok(true)
            },
            None => Err(Error::ProjectNotFound),
        }
    }

    /// Every project, in insertion order.
    pub fn list_projects(&self) -> (r: &Vec<Project>)
        ensures
            r@.map_values(|p: Project| p@) == self@,
    {
        &self.projects
    }

    /// Create a task under the project carrying `project_id`;
    /// `ProjectNotFound` if it is absent. The new task carries the
    /// returned fresh identifier, the given name and description, and
    /// the creation defaults of type and status.
    pub fn create_task(&mut self, project_id: &Identifier, name: &String, description: &String) -> (r: Result<Identifier, Error>)
        requires
            data_wf(old(self)@),
        ensures
            !has_pid(old(self)@, project_id@) ==> r == Err::<Identifier, Error>(Error::ProjectNotFound)
                && final(self)@ == old(self)@,
            has_pid(old(self)@, project_id@) ==> r is Ok && canonical_id(r->Ok_0@)
                && (final(self)@ == old(self)@.update(
                    pid_index(old(self)@, project_id@),
                    (ProjectModel {
                        id: old(self)@[pid_index(old(self)@, project_id@)].id,
                        name: old(self)@[pid_index(old(self)@, project_id@)].name,
                        description: old(self)@[pid_index(old(self)@, project_id@)].description,
                        tasks: upsert_task(
                            old(self)@[pid_index(old(self)@, project_id@)].tasks,
                            spec_new_task(r->Ok_0@, name@, description@),
                        ),
                    }),
                )),
            data_wf(final(self)@),
    {
        let ghost s0 = self@;
        match self.find_project(project_id) {
            Some(k) => {
                let mut project = self.projects.remove(k);
                let task_id = project.create_task(name, description);
                proof {
                    assert(project@ == (ProjectModel {
                        id: s0[k as int].id,
                        name: s0[k as int].name,
                        description: s0[k as int].description,
                        tasks: upsert_task(s0[k as int].tasks, spec_new_task(task_id@, name@, description@)),
                    }));
                }
                self.projects.insert(k, project);
                proof {
                    assert(final(self)@ =~= s0.update(k as int, (ProjectModel {
                        id: s0[k as int].id,
                        name: s0[k as int].name,
                        description: s0[k as int].description,
                        tasks: upsert_task(s0[k as int].tasks, spec_new_task(task_id@, name@, description@)),
                    })));
                }
                Ok(task_id)
            },
            None => Err(Error::ProjectNotFound),
        }
    }

    /// Remove the task carrying `task_id` from the project carrying
    /// `project_id`. The error names the entity that was missing.
    pub fn destroy_task(&mut self, project_id: &Identifier, task_id: &Identifier) -> (r: Result<bool, Error>)
        requires
            data_wf(old(self)@),
        ensures
            !has_pid(old(self)@, project_id@) ==> r == Err::<bool, Error>(Error::ProjectNotFound)
                && final(self)@ == old(self)@,
            has_pid(old(self)@, project_id@)
                && !has_tid(old(self)@[pid_index(old(self)@, project_id@)].tasks, task_id@)
                ==> r == Err::<bool, Error>(Error::TaskNotFound) && final(self)@ == old(self)@,
            has_pid(old(self)@, project_id@)
                && has_tid(old(self)@[pid_index(old(self)@, project_id@)].tasks, task_id@)
                ==> r == Ok::<bool, Error>(true)
                && final(self)@ == old(self)@.update(
                    pid_index(old(self)@, project_id@),
                    (ProjectModel {
                        id: old(self)@[pid_index(old(self)@, project_id@)].id,
                        name: old(self)@[pid_index(old(self)@, project_id@)].name,
                        description: old(self)@[pid_index(old(self)@, project_id@)].description,
                        tasks: old(self)@[pid_index(old(self)@, project_id@)].tasks.remove(
                            tid_index(old(self)@[pid_index(old(self)@, project_id@)].tasks, task_id@),
                        ),
                    }),
                ),
            data_wf(final(self)@),
    {
        let ghost s0 = self@;
        match self.find_project(project_id) {
            Some(k) => {
                let mut project = self.projects.remove(k);
                let res = project.destroy_task(task_id);
                self.projects.insert(k, project);
                proof {
                    if has_tid(s0[k as int].tasks, task_id@) {
                        assert(final(self)@ =~= s0.update(k as int, (ProjectModel {
                            id: s0[k as int].id,
                            name: s0[k as int].name,
                            description: s0[k as int].description,
                            tasks: s0[k as int].tasks.remove(tid_index(s0[k as int].tasks, task_id@)),
                        })));
                    } else {
                        assert(final(self)@ =~= s0);
                    }
                }
                res
            },
            None => Err(Error::ProjectNotFound),
        }
    }

    /// Partially update the task carrying `task_id` under the project
    /// carrying `project_id`. The error names the entity that was missing.
    pub fn update_task(&mut self, project_id: &Identifier, task_id: &Identifier, name: &Option<String>, description: &Option<String>) -> (r: Result<bool, Error>)
        requires
            data_wf(old(self)@),
        ensures
            !has_pid(old(self)@, project_id@) ==> r == Err::<bool, Error>(Error::ProjectNotFound)
                && final(self)@ == old(self)@,
            has_pid(old(self)@, project_id@)
                && !has_tid(old(self)@[pid_index(old(self)@, project_id@)].tasks, task_id@)
                ==> r == Err::<bool, Error>(Error::TaskNotFound) && final(self)@ == old(self)@,
            has_pid(old(self)@, project_id@)
                && has_tid(old(self)@[pid_index(old(self)@, project_id@)].tasks, task_id@)
                ==> r == Ok::<bool, Error>(true)
                && final(self)@ == old(self)@.update(
                    pid_index(old(self)@, project_id@),
                    (ProjectModel {
                        id: old(self)@[pid_index(old(self)@, project_id@)].id,
                        name: old(self)@[pid_index(old(self)@, project_id@)].name,
                        description: old(self)@[pid_index(old(self)@, project_id@)].description,
                        tasks: old(self)@[pid_index(old(self)@, project_id@)].tasks.update(
                            tid_index(old(self)@[pid_index(old(self)@, project_id@)].tasks, task_id@),
                            patched_task(
                                old(self)@[pid_index(old(self)@, project_id@)].tasks[
                                    tid_index(old(self)@[pid_index(old(self)@, project_id@)].tasks, task_id@)
                                ],
                                *name,
                                *description,
                            ),
                        ),
                    }),
                ),
            data_wf(final(self)@),
    {
        let ghost s0 = self@;
        match self.find_project(project_id) {
            Some(k) => {
                let mut project = self.projects.remove(k);
                let res = project.update_task(task_id, name, description);
                self.projects.insert(k, project);
                proof {
                    if has_tid(s0[k as int].tasks, task_id@) {
                        assert(final(self)@ =~= s0.update(k as int, (ProjectModel {
                            id: s0[k as int].id,
                            name: s0[k as int].name,
                            description: s0[k as int].description,
                            tasks: s0[k as int].tasks.update(
                                tid_index(s0[k as int].tasks, task_id@),
                                patched_task(
                                    s0[k as int].tasks[tid_index(s0[k as int].tasks, task_id@)],
                                    *name,
                                    *description,
                                ),
                            ),
                        })));
                    } else {
                        assert(final(self)@ =~= s0);
                    }
                }
                res
            },
            None => Err(Error::ProjectNotFound),
        }
    }

    /// The tasks of the project carrying `project_id`, in insertion
    /// order; `ProjectNotFound` if the project is absent.
    pub fn list_tasks(&self, project_id: &Identifier) -> (r: Result<&Vec<ProjectTask>, Error>)
        requires
            data_wf(self@),
        ensures
            has_pid(self@, project_id@) ==> r is Ok
                && r->Ok_0@.map_values(|t: ProjectTask| t@)
                    == self@[pid_index(self@, project_id@)].tasks,
            !has_pid(self@, project_id@) ==> r == Err::<&Vec<ProjectTask>, Error>(Error::ProjectNotFound),
    {
        match self.find_project(project_id) {
            Some(k) => {
                proof {
                    assert(self@[k as int] == self.projects@[k as int]@);
                }
                Ok(&self.projects[k].tasks)
            },
            None => Err(Error::ProjectNotFound),
        }
    }
}

// ---------------------------------------------------------------------
// Command execution

/// The text a command supplies for an optional description: the empty
/// string when it is omitted.
pub open spec fn opt_text(o: Option<String>) -> Seq<char> {
    match o {
        Some(s) => s@,
        None => Seq::empty(),
    }
}

/// Does the command mutate the collection when it succeeds?
pub open spec fn spec_mutating(cmd: Command) -> bool {
    match cmd {
        Command::List => false,
        Command::ListTasks { .. } => false,
        _ => true,
    }
}

/// Does `v` list exactly the projects of `s`, row by row?
pub open spec fn listing_of_projects(v: Seq<ProjectLine>, s: Seq<ProjectModel>) -> bool {
    v.len() == s.len() && (forall|k: int| 0 <= k < s.len() ==> (#[trigger] v[k]).id@ == s[k].id
        && v[k].name@ == s[k].name && v[k].description@ == s[k].description)
}

/// Does `v` list exactly the tasks of `ts`, row by row?
pub open spec fn listing_of_tasks(v: Seq<TaskLine>, ts: Seq<TaskModel>) -> bool {
    v.len() == ts.len() && (forall|k: int| 0 <= k < ts.len() ==> (#[trigger] v[k]).id@ == ts[k].id
        && v[k].name@ == ts[k].name && v[k].description@ == ts[k].description)
}

/// Does the command mutate the collection when it succeeds?
pub fn is_mutating(cmd: &Command) -> (r: bool)
    ensures
        r == spec_mutating(*cmd),
{
    match cmd {
        Command::List => false,
        Command::ListTasks { .. } => false,
        _ => true,
    }
}

fn build_project_lines(projects: &Vec<Project>) -> (r: Vec<ProjectLine>)
    ensures
        listing_of_projects(r@, projects@.map_values(|p: Project| p@)),
{
    let mut out: Vec<ProjectLine> = Vec::new();
    let mut i: usize = 0;
    let n = projects.len();
    while i < n
        invariant
            n == projects.len(),
            0 <= i <= n,
            out@.len() == i,
            forall|k: int| 0 <= k < i ==> (#[trigger] out@[k]).id@ == projects@[k]@.id
                && out@[k].name@ == projects@[k]@.name
                && out@[k].description@ == projects@[k]@.description,
        decreases n - i,
    {
        let p = &projects[i];
        out.push(ProjectLine {
            id: p.id.to_text(),
            name: p.name.clone(),
            description: p.description.clone(),
        });
        i = i + 1;
    }
    out
}

fn build_task_lines(tasks: &Vec<ProjectTask>) -> (r: Vec<TaskLine>)
    ensures
        listing_of_tasks(r@, tasks@.map_values(|t: ProjectTask| t@)),
{
    let mut out: Vec<TaskLine> = Vec::new();
    let mut i: usize = 0;
    let n = tasks.len();
    while i < n
        invariant
            n == tasks.len(),
            0 <= i <= n,
            out@.len() == i,
            forall|k: int| 0 <= k < i ==> (#[trigger] out@[k]).id@ == tasks@[k]@.id
                && out@[k].name@ == tasks@[k]@.name
                && out@[k].description@ == tasks@[k]@.description,
        decreases n - i,
    {
        let t = &tasks[i];
        out.push(TaskLine {
            id: t.id.to_text(),
            name: t.name.clone(),
            description: t.description.clone(),
        });
        i = i + 1;
    }
    out
}

/// Execute one project-namespace command against the collection.
///
/// Identifier arguments are parsed first: a malformed one is
/// `InvalidIdentifier` before anything is looked up. A failed command
/// leaves the collection exactly as it was.
/// The full outcome contract of one project-namespace command: how the
/// collection afterwards relates to the one before, and which result is
/// owed for which input.
pub open spec fn project_command_post(pre: Seq<ProjectModel>, post: Seq<ProjectModel>, cmd: Command, r: Result<Output, Error>) -> bool {
    &&& (r is Err ==> post == pre
    )
    &&& (cmd matches Command::Create { name, description } ==> r is Ok && r->Ok_0 is Done
            && (exists|id: Seq<char>| canonical_id(id)
                && post == upsert_project(pre, (ProjectModel {
                    id: id,
                    name: name@,
                    description: opt_text(description),
                    tasks: Seq::<TaskModel>::empty(),
                })))
    )
    &&& (cmd matches Command::Destroy { project_id } ==> {
            &&& !valid_id_input(project_id@) ==> r == Err::<Output, Error>(Error::InvalidIdentifier)
            &&& valid_id_input(project_id@) && !has_pid(pre, norm_id(project_id@))
                ==> r == Err::<Output, Error>(Error::ProjectNotFound)
            &&& valid_id_input(project_id@) && has_pid(pre, norm_id(project_id@))
                ==> r is Ok && r->Ok_0 is Done
                    && post == pre.remove(pid_index(pre, norm_id(project_id@)))
        }
    )
    &&& (cmd matches Command::Update { project_id, name, description } ==> {
            &&& !valid_id_input(project_id@) ==> r == Err::<Output, Error>(Error::InvalidIdentifier)
            &&& valid_id_input(project_id@) && !has_pid(pre, norm_id(project_id@))
                ==> r == Err::<Output, Error>(Error::ProjectNotFound)
            &&& valid_id_input(project_id@) && has_pid(pre, norm_id(project_id@))
                ==> r is Ok && r->Ok_0 is Done
                    && post == pre.update(
                        pid_index(pre, norm_id(project_id@)),
                        patched_project(pre[pid_index(pre, norm_id(project_id@))], name, description),
                    )
        }
    )
    &&& (cmd matches Command::List ==> r is Ok && post == pre
            && (r->Ok_0 matches Output::Projects(v) && listing_of_projects(v@, pre))
    )
    &&& (cmd matches Command::CreateTask { project_id, name, description } ==> {
            &&& !valid_id_input(project_id@) ==> r == Err::<Output, Error>(Error::InvalidIdentifier)
            &&& valid_id_input(project_id@) && !has_pid(pre, norm_id(project_id@))
                ==> r == Err::<Output, Error>(Error::ProjectNotFound)
            &&& valid_id_input(project_id@) && has_pid(pre, norm_id(project_id@))
                ==> r is Ok && r->Ok_0 is Done
                    && (exists|tid: Seq<char>| canonical_id(tid)
                        && post == pre.update(
                            pid_index(pre, norm_id(project_id@)),
                            (ProjectModel {
                                id: pre[pid_index(pre, norm_id(project_id@))].id,
                                name: pre[pid_index(pre, norm_id(project_id@))].name,
                                description: pre[pid_index(pre, norm_id(project_id@))].description,
                                tasks: upsert_task(
                                    pre[pid_index(pre, norm_id(project_id@))].tasks,
                                    spec_new_task(tid, name@, opt_text(description)),
                                ),
                            }),
                        ))
        }
    )
    &&& (cmd matches Command::DestroyTask { project_id, task_id } ==> {
            &&& !valid_id_input(project_id@) ==> r == Err::<Output, Error>(Error::InvalidIdentifier)
            &&& valid_id_input(project_id@) && !valid_id_input(task_id@)
                ==> r == Err::<Output, Error>(Error::InvalidIdentifier)
            &&& valid_id_input(project_id@) && valid_id_input(task_id@)
                && !has_pid(pre, norm_id(project_id@))
                ==> r == Err::<Output, Error>(Error::ProjectNotFound)
            &&& valid_id_input(project_id@) && valid_id_input(task_id@)
                && has_pid(pre, norm_id(project_id@))
                && !has_tid(pre[pid_index(pre, norm_id(project_id@))].tasks, norm_id(task_id@))
                ==> r == Err::<Output, Error>(Error::TaskNotFound)
            &&& valid_id_input(project_id@) && valid_id_input(task_id@)
                && has_pid(pre, norm_id(project_id@))
                && has_tid(pre[pid_index(pre, norm_id(project_id@))].tasks, norm_id(task_id@))
                ==> r is Ok && r->Ok_0 is Done
                    && post == pre.update(
                        pid_index(pre, norm_id(project_id@)),
                        (ProjectModel {
                            id: pre[pid_index(pre, norm_id(project_id@))].id,
                            name: pre[pid_index(pre, norm_id(project_id@))].name,
                            description: pre[pid_index(pre, norm_id(project_id@))].description,
                            tasks: pre[pid_index(pre, norm_id(project_id@))].tasks.remove(
                                tid_index(pre[pid_index(pre, norm_id(project_id@))].tasks, norm_id(task_id@)),
                            ),
                        }),
                    )
        }
    )
    &&& (cmd matches Command::UpdateTask { project_id, task_id, name, description } ==> {
            &&& !valid_id_input(project_id@) ==> r == Err::<Output, Error>(Error::InvalidIdentifier)
            &&& valid_id_input(project_id@) && !valid_id_input(task_id@)
                ==> r == Err::<Output, Error>(Error::InvalidIdentifier)
            &&& valid_id_input(project_id@) && valid_id_input(task_id@)
                && !has_pid(pre, norm_id(project_id@))
                ==> r == Err::<Output, Error>(Error::ProjectNotFound)
            &&& valid_id_input(project_id@) && valid_id_input(task_id@)
                && has_pid(pre, norm_id(project_id@))
                && !has_tid(pre[pid_index(pre, norm_id(project_id@))].tasks, norm_id(task_id@))
                ==> r == Err::<Output, Error>(Error::TaskNotFound)
            &&& valid_id_input(project_id@) && valid_id_input(task_id@)
                && has_pid(pre, norm_id(project_id@))
                && has_tid(pre[pid_index(pre, norm_id(project_id@))].tasks, norm_id(task_id@))
                ==> r is Ok && r->Ok_0 is Done
                    && post == pre.update(
                        pid_index(pre, norm_id(project_id@)),
                        (ProjectModel {
                            id: pre[pid_index(pre, norm_id(project_id@))].id,
                            name: pre[pid_index(pre, norm_id(project_id@))].name,
                            description: pre[pid_index(pre, norm_id(project_id@))].description,
                            tasks: pre[pid_index(pre, norm_id(project_id@))].tasks.update(
                                tid_index(pre[pid_index(pre, norm_id(project_id@))].tasks, norm_id(task_id@)),
                                patched_task(
                                    pre[pid_index(pre, norm_id(project_id@))].tasks[
                                        tid_index(pre[pid_index(pre, norm_id(project_id@))].tasks, norm_id(task_id@))
                                    ],
                                    name,
                                    description,
                                ),
                            ),
                        }),
                    )
        }
    )
    &&& (cmd matches Command::ListTasks { project_id } ==> {
            &&& !valid_id_input(project_id@) ==> r == Err::<Output, Error>(Error::InvalidIdentifier)
            &&& valid_id_input(project_id@) && !has_pid(pre, norm_id(project_id@))
                ==> r == Err::<Output, Error>(Error::ProjectNotFound)
            &&& valid_id_input(project_id@) && has_pid(pre, norm_id(project_id@))
                ==> r is Ok && post == pre
                    && (r->Ok_0 matches Output::Tasks(v)
                        && listing_of_tasks(v@, pre[pid_index(pre, norm_id(project_id@))].tasks))
        }
    )
}

pub fn run_command(data: &mut ProjectData, cmd: &Command) -> (r: Result<Output, Error>)
    requires
        data_wf(old(data)@),
    ensures
        data_wf(final(data)@),
        project_command_post(old(data)@, final(data)@, *cmd, r),
{
    match cmd {
        Command::Create { name, description } => {
            let project_description = match description {
                Some(d) => d.clone(),
                None => String::new(),
            };
            let id = data.create_project(name, &project_description);
            proof {
                assert(canonical_id(id@) && final(data)@ == upsert_project(old(data)@, (ProjectModel {
                    id: id@,
                    name: name@,
                    description: opt_text(*description),
                    tasks: Seq::<TaskModel>::empty(),
                })));
            }
            Ok(Output::Done)
        },
        Command::Destroy { project_id } => {
            let pid = parse_id(project_id.as_str())?;
            data.destroy_project(&pid)?;
            Ok(Output::Done)
        },
        Command::Update { project_id, name, description } => {
            let pid = parse_id(project_id.as_str())?;
            data.update_project(&pid, name, description)?;
            Ok(Output::Done)
        },
        Command::List => {
            let lines = build_project_lines(data.list_projects());
            Ok(Output::Projects(lines))
        },
        Command::CreateTask { project_id, name, description } => {
            let task_description = match description {
                Some(d) => d.clone(),
                None => String::new(),
            };
            let pid = parse_id(project_id.as_str())?;
            let tid = data.create_task(&pid, name, &task_description)?;
            proof {
                assert(canonical_id(tid@));
            }
            Ok(Output::Done)
        },
        Command::DestroyTask { project_id, task_id } => {
            let pid = parse_id(project_id.as_str())?;
            let tid = parse_id(task_id.as_str())?;
            data.destroy_task(&pid, &tid)?;
            Ok(Output::Done)
        },
        Command::UpdateTask { project_id, task_id, name, description } => {
            let pid = parse_id(project_id.as_str())?;
            let tid = parse_id(task_id.as_str())?;
            data.update_task(&pid, &tid, name, description)?;
            Ok(Output::Done)
        },
        Command::ListTasks { project_id } => {
            let pid = parse_id(project_id.as_str())?;
            let tasks = match data.list_tasks(&pid) {
                Ok(ts) => ts,
                Err(e) => {
                    return Err(e);
                },
            };
            let lines = build_task_lines(tasks);
            Ok(Output::Tasks(lines))
        },
    }
}

/// Law: removing a task leaves no task carrying its identifier.
pub proof fn lemma_removed_task_unresolvable(ts: Seq<TaskModel>, id: Seq<char>)
    requires
        unique_tids(ts),
        has_tid(ts, id),
    ensures
        !has_tid(ts.remove(tid_index(ts, id)), id),
{
    let k = tid_index(ts, id);
    let s2 = ts.remove(k);
    assert forall|j: int| 0 <= j < s2.len() implies s2[j].id != id by {
        if j < k {
            assert(s2[j] == ts[j]);
        } else {
            assert(s2[j] == ts[j + 1]);
        }
    }
}

} // verus!
