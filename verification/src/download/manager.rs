//! The manager: a registry of tasks, the set of running ones, and the
//! decisions taken at each step of a download. The manager performs no
//! I/O. Each operation changes the registry and tells the caller what to
//! do next: which request to send, which file to touch, which event to
//! publish.

use crate::bridge::{fresh_id, parsed_url_path, unix_millis, url_path};
use crate::download::error::{DownloadError, ErrorView};
use crate::download::event::{DownloadEvent, EventView};
use crate::download::plan::{plan_segments, planned_ranges, SegmentRange};
use crate::download::task::{
    clock_error_prefix, lemma_clock_error_prefix, DownloadProgress, DownloadStatus, DownloadTask,
};
use crate::text::{last_segment, last_segment_of};
use vstd::prelude::*;
use vstd::string::StringExecFns;

verus! {

/// Segments of a download where the caller chooses no number.
pub const DEFAULT_SEGMENTS: usize = 4;

/// Downloads that run at once where the caller chooses no number.
pub const DEFAULT_CONCURRENT_DOWNLOADS: usize = 5;

/// The identifiers of `tasks`, in order.
spec fn task_ids(tasks: Seq<DownloadTask>) -> Seq<Seq<char>> {
    Seq::new(tasks.len(), |i: int| tasks[i].id@)
}

/// The texts of `names`, in order.
spec fn texts(names: Seq<String>) -> Seq<Seq<char>> {
    Seq::new(names.len(), |i: int| names[i]@)
}

/// The tasks by their identifiers.
spec fn registry_of(tasks: Seq<DownloadTask>) -> Map<Seq<char>, DownloadTask> {
    Map::new(
        |id: Seq<char>| task_ids(tasks).contains(id),
        |id: Seq<char>| tasks[task_ids(tasks).index_of(id)],
    )
}

/// Among tasks with distinct identifiers, each is found under its own.
proof fn lemma_registry_at(tasks: Seq<DownloadTask>, i: int)
    requires
        task_ids(tasks).no_duplicates(),
        0 <= i < tasks.len(),
    ensures
        task_ids(tasks).contains(tasks[i].id@),
        registry_of(tasks).dom().contains(tasks[i].id@),
        registry_of(tasks)[tasks[i].id@] == tasks[i],
{
    let ids = task_ids(tasks);
    assert(ids[i] == tasks[i].id@);
    let j = ids.index_of(tasks[i].id@);
    assert(ids[j] == ids[i]);
}

/// Replacing a task by one of the same name changes the registry at that
/// name alone.
proof fn lemma_registry_update(tasks: Seq<DownloadTask>, i: int, task: DownloadTask)
    requires
        task_ids(tasks).no_duplicates(),
        0 <= i < tasks.len(),
        task.id@ == tasks[i].id@,
    ensures
        task_ids(tasks.update(i, task)) == task_ids(tasks),
        registry_of(tasks.update(i, task)) == registry_of(tasks).insert(task.id@, task),
{
    let after = tasks.update(i, task);
    let ids = task_ids(tasks);
    assert(task_ids(after) =~= ids);
    assert(ids[i] == task.id@);
    assert forall|id: Seq<char>| #[trigger] ids.contains(id) implies registry_of(after)[id]
        == registry_of(tasks).insert(task.id@, task)[id] by {
        let j = ids.index_of(id);
        assert(ids[j] == id);
        if j == i {
        } else {
            assert(ids[j] != ids[i]);
        }
    }
    assert(registry_of(after) =~= registry_of(tasks).insert(task.id@, task));
}

/// Adding a task of a new name adds it to the registry under that name.
proof fn lemma_registry_push(tasks: Seq<DownloadTask>, task: DownloadTask)
    requires
        task_ids(tasks).no_duplicates(),
        !task_ids(tasks).contains(task.id@),
    ensures
        task_ids(tasks.push(task)) == task_ids(tasks).push(task.id@),
        task_ids(tasks.push(task)).no_duplicates(),
        registry_of(tasks.push(task)) == registry_of(tasks).insert(task.id@, task),
{
    let after = tasks.push(task);
    let ids = task_ids(tasks);
    let ids_after = task_ids(after);
    assert(ids_after =~= ids.push(task.id@));
    assert forall|a: int, b: int|
        0 <= a < ids_after.len() && 0 <= b < ids_after.len() && a != b implies ids_after[a]
        != ids_after[b] by {
        if a < ids.len() && b < ids.len() {
            assert(ids[a] != ids[b]);
        } else if a < ids.len() {
            assert(ids[a] == ids_after[a]);
        } else {
            assert(ids[b] == ids_after[b]);
        }
    }
    assert forall|id: Seq<char>|
        (#[trigger] ids_after.contains(id)) <==> ids.contains(id) || id == task.id@ by {
        if ids.contains(id) {
            let j = ids.index_of(id);
            assert(ids_after[j] == id);
        }
        if id == task.id@ {
            assert(ids_after[ids.len() as int] == id);
        }
    }
    assert forall|id: Seq<char>| #[trigger] ids_after.contains(id) implies registry_of(after)[id]
        == registry_of(tasks).insert(task.id@, task)[id] by {
        let j = ids_after.index_of(id);
        assert(ids_after[j] == id);
        if id == task.id@ {
            assert(ids_after[ids.len() as int] == id);
            assert(j == ids.len());
        } else {
            assert(j < ids.len());
            let k = ids.index_of(id);
            assert(ids[j] == id);
            assert(ids[k] == id);
            assert(ids_after[k] == ids_after[j]);
        }
    }
    assert(registry_of(after) =~= registry_of(tasks).insert(task.id@, task));
}

/// The text of an optional string.
pub open spec fn option_text(name: Option<String>) -> Option<Seq<char>> {
    match name {
        Some(text) => Some(text@),
        None => None,
    }
}

/// The detail of the error for an address that names no file.
pub open spec fn no_filename_message() -> Seq<char> {
    "无法从URL中提取文件名"@
}

/// The name of the file that a download of `url` is saved under: the
/// given one, else the last segment of the path of the address. An
/// address that does not parse is refused even where a name is given.
pub open spec fn resolved_filename(url: Seq<char>, filename: Option<Seq<char>>) -> Result<
    Seq<char>,
    ErrorView,
> {
    match parsed_url_path(url) {
        Err(message) => Err(ErrorView::InvalidUrl(message)),
        Ok(path) => match filename {
            Some(name) => Ok(name),
            None => if last_segment(path).len() == 0 {
                Err(ErrorView::Other(no_filename_message()))
            } else {
                Ok(last_segment(path))
            },
        },
    }
}

/// Checks the address and settles the name of the file.
pub fn resolve_filename(url: &str, filename: Option<String>) -> (r: Result<String, DownloadError>)
    ensures
        match r {
            Ok(name) => resolved_filename(url@, option_text(filename)) == Ok::<
                Seq<char>,
                ErrorView,
            >(name@),
            Err(e) => resolved_filename(url@, option_text(filename)) == Err::<
                Seq<char>,
                ErrorView,
            >(e@),
        },
{
    let path = match url_path(url) {
        Ok(path) => path,
        Err(message) => {
            return Err(DownloadError::InvalidUrl(message));
        },
    };
    match filename {
        Some(name) => Ok(name),
        None => {
            let segment = last_segment_of(path.as_str());
            if segment.as_str().is_empty() {
                Err(DownloadError::Other(String::from_str("无法从URL中提取文件名")))
            } else {
                Ok(segment)
            }
        },
    }
}

/// What `start_task` asks of the caller.
#[derive(Debug)]
pub enum StartStep {
    /// Too many downloads are running: the task waits as `Pending`.
    Queued,
    /// Ask the server at this address for the size of the resource, then
    /// call `begin_download`.
    Probe(String),
}

/// A start step with its text as a character sequence.
pub enum StartStepView {
    Queued,
    Probe(Seq<char>),
}

impl View for StartStep {
    type V = StartStepView;

    open spec fn view(&self) -> StartStepView {
        match self {
            StartStep::Queued => StartStepView::Queued,
            StartStep::Probe(url) => StartStepView::Probe(url@),
        }
    }
}

/// What the caller has to set up for a download that begins.
#[derive(Debug)]
pub struct DownloadPlan {
    /// Address of the resource.
    pub url: String,
    /// The partial file, to be created with `total` bytes.
    pub temp_path: String,
    /// Size of the resource.
    pub total: u64,
    /// One range for each worker.
    pub ranges: Vec<SegmentRange>,
    /// The event to publish.
    pub event: DownloadEvent,
}

/// What `resume_task` asks of the caller.
#[derive(Debug)]
pub struct Resumption {
    /// The event to publish.
    pub event: DownloadEvent,
    /// How the restart goes on.
    pub step: StartStep,
}

/// What `finalize` asks of the caller once every worker has ended.
#[derive(Debug)]
pub enum Finalization {
    /// Move the partial file into place, then report with `complete`.
    Rename { from: String, to: String },
    /// Delete the partial file, and publish the event if there is one.
    Discard { path: String, event: Option<DownloadEvent> },
    /// Nothing is left to do.
    Nothing,
}

/// The detail of the error for a resume of a task that is not paused.
pub open spec fn not_paused_message(status: DownloadStatus) -> Seq<char> {
    "任务状态不是已暂停: "@ + status.spec_name()
}

/// The reason given where the partial file cannot be moved into place.
pub open spec fn rename_failure(reason: Seq<char>) -> Seq<char> {
    "重命名文件失败: "@ + reason
}

/// The reason given for a task that failed: one that was marked as
/// failed, or one with a segment that was given up.
pub open spec fn failure_reason() -> Seq<char> {
    "下载失败"@
}

/// The state of a task after the attempt to move its partial file into
/// place: only a task that is still `Downloading` changes.
pub open spec fn status_after_rename(status: DownloadStatus, renamed: bool) -> DownloadStatus {
    if status != DownloadStatus::Downloading {
        status
    } else if renamed {
        DownloadStatus::Completed
    } else {
        DownloadStatus::Failed
    }
}

/// The state of a task after finalization has looked at it: a task that
/// is still `Downloading` fails where a segment was given up; every other
/// task keeps its state.
pub open spec fn status_after_finalize(status: DownloadStatus, all_segments_done: bool)
    -> DownloadStatus {
    if status == DownloadStatus::Downloading && !all_segments_done {
        DownloadStatus::Failed
    } else {
        status
    }
}

/// Whether `verdict` is what finalization decides for `task`, given
/// whether every segment was fetched in full. The partial file is moved
/// into place only for a task that is still `Downloading` and has all its
/// segments. A task with a segment that was given up is treated as a
/// failed one: its partial file is deleted and the failure is announced.
pub open spec fn verdict_matches(
    verdict: Finalization,
    task: DownloadTask,
    all_segments_done: bool,
) -> bool {
    match status_after_finalize(task.progress.status, all_segments_done) {
        DownloadStatus::Downloading => {
            &&& verdict is Rename
            &&& verdict->from@ == task.spec_temp_path()
            &&& verdict->to@ == task.spec_full_path()
        },
        DownloadStatus::Cancelled => {
            &&& verdict is Discard
            &&& verdict->path@ == task.spec_temp_path()
            &&& verdict->event is None
        },
        DownloadStatus::Failed => {
            &&& verdict is Discard
            &&& verdict->path@ == task.spec_temp_path()
            &&& verdict->event is Some
            &&& verdict->event.unwrap()@ == EventView::Failed(task.id@, failure_reason())
        },
        _ => verdict is Nothing,
    }
}

/// Only a task that is still `Downloading` when its file has been moved
/// into place becomes `Completed`. A cancelled task stays cancelled, and
/// finalization asks for nothing but the deletion of its partial file.
pub proof fn lemma_cancelled_never_completes(
    status: DownloadStatus,
    renamed: bool,
    verdict: Finalization,
    task: DownloadTask,
    all_segments_done: bool,
)
    ensures
        status_after_rename(status, renamed) == DownloadStatus::Completed <==> status
            == DownloadStatus::Completed || (status == DownloadStatus::Downloading && renamed),
        status_after_rename(DownloadStatus::Cancelled, renamed) == DownloadStatus::Cancelled,
        status_after_finalize(DownloadStatus::Cancelled, all_segments_done)
            == DownloadStatus::Cancelled,
        task.progress.status == DownloadStatus::Cancelled && verdict_matches(
            verdict,
            task,
            all_segments_done,
        ) ==> {
            &&& verdict is Discard
            &&& verdict->path@ == task.spec_temp_path()
            &&& verdict->event is None
        },
{
}

/// A download with a segment that was given up never completes:
/// finalization marks the task `Failed` if it was still `Downloading`,
/// never asks for its partial file to be moved into place, and the report
/// of a rename leaves it short of `Completed`. The file is moved into
/// place only for a task that is `Downloading` with every segment done.
pub proof fn lemma_incomplete_never_completes(
    verdict: Finalization,
    task: DownloadTask,
    all_segments_done: bool,
    renamed: bool,
)
    requires
        verdict_matches(verdict, task, all_segments_done),
    ensures
        verdict is Rename <==> task.progress.status == DownloadStatus::Downloading
            && all_segments_done,
        !all_segments_done && task.progress.status == DownloadStatus::Downloading ==> {
            &&& status_after_finalize(task.progress.status, all_segments_done)
                == DownloadStatus::Failed
            &&& verdict is Discard
            &&& verdict->path@ == task.spec_temp_path()
            &&& verdict->event is Some
            &&& verdict->event.unwrap()@ == EventView::Failed(task.id@, failure_reason())
        },
        !all_segments_done && task.progress.status != DownloadStatus::Completed
            ==> status_after_rename(
            status_after_finalize(task.progress.status, all_segments_done),
            renamed,
        ) != DownloadStatus::Completed,
{
}

/// What pausing or cancelling asks of the caller.
#[derive(Debug)]
pub struct Halt {
    /// Whether work was in flight and has to be aborted.
    pub abort: bool,
    /// The partial file to delete if it exists.
    pub remove: Option<String>,
    /// The event to publish.
    pub event: DownloadEvent,
}

/// The download manager.
#[derive(Debug)]
pub struct DownloadManager {
    /// Every task ever added, oldest first.
    tasks: Vec<DownloadTask>,
    /// Identifiers of the tasks with work in flight.
    active_tasks: Vec<String>,
    /// How many tasks may run at once.
    max_concurrent_downloads: usize,
}

impl DownloadManager {
    /// The registry: every task ever added, by its identifier. Tasks stay
    /// registered after they have ended.
    pub closed spec fn registry(&self) -> Map<Seq<char>, DownloadTask> {
        registry_of(self.tasks@)
    }

    /// The identifiers of the registered tasks, oldest first.
    pub closed spec fn order(&self) -> Seq<Seq<char>> {
        task_ids(self.tasks@)
    }

    /// The identifiers of the tasks with work in flight, oldest first.
    pub closed spec fn active(&self) -> Seq<Seq<char>> {
        texts(self.active_tasks@)
    }

    /// How many tasks may run at once.
    pub closed spec fn limit(&self) -> nat {
        self.max_concurrent_downloads as nat
    }

    /// Whether a task named `id` is registered.
    pub open spec fn has_task(&self, id: Seq<char>) -> bool {
        self.registry().dom().contains(id)
    }

    /// The task named `id`.
    pub open spec fn task(&self, id: Seq<char>) -> DownloadTask
        recommends
            self.has_task(id),
    {
        self.registry()[id]
    }

    /// The registry holds exactly the tasks that `order` names, each once
    /// and under its own identifier; every task is well formed; and the
    /// running tasks are registered ones, each counted once.
    pub open spec fn wf(&self) -> bool {
        &&& self.order().no_duplicates()
        &&& forall|id: Seq<char>| self.has_task(id) <==> #[trigger] self.order().contains(id)
        &&& forall|id: Seq<char>|
            self.has_task(id) ==> (#[trigger] self.task(id)).id@ == id && self.task(id).wf()
        &&& self.active().no_duplicates()
        &&& forall|k: int|
            0 <= k < self.active().len() ==> self.has_task(#[trigger] self.active()[k])
    }

    /// What `wf` says of the tasks as they are stored.
    proof fn lemma_stored(&self)
        requires
            self.wf(),
        ensures
            task_ids(self.tasks@).no_duplicates(),
            forall|i: int| 0 <= i < self.tasks@.len() ==> (#[trigger] self.tasks@[i]).wf(),
    {
        assert forall|i: int| 0 <= i < self.tasks@.len() implies (#[trigger] self.tasks@[i]).wf() by {
            lemma_registry_at(self.tasks@, i);
            assert(self.has_task(self.tasks@[i].id@));
            assert(self.task(self.tasks@[i].id@).wf());
        }
    }

    /// Tasks stored with distinct identifiers and well formed, with the
    /// running ones registered and counted once, make a well-formed manager.
    proof fn lemma_wf(&self)
        requires
            task_ids(self.tasks@).no_duplicates(),
            forall|i: int| 0 <= i < self.tasks@.len() ==> (#[trigger] self.tasks@[i]).wf(),
            self.active().no_duplicates(),
            forall|k: int|
                0 <= k < self.active().len() ==> self.has_task(#[trigger] self.active()[k]),
        ensures
            self.wf(),
    {
        let ids = task_ids(self.tasks@);
        assert forall|id: Seq<char>| self.has_task(id) implies (#[trigger] self.task(id)).id@ == id
            && self.task(id).wf() by {
            let j = ids.index_of(id);
            assert(ids[j] == id);
            assert(self.tasks@[j].wf());
        }
    }

    /// A manager without tasks that lets `max_concurrent_downloads` run at once.
    pub fn new(max_concurrent_downloads: usize) -> (m: Self)
        ensures
            m.wf(),
            m.registry() == Map::<Seq<char>, DownloadTask>::empty(),
            m.order() == Seq::<Seq<char>>::empty(),
            m.active() == Seq::<Seq<char>>::empty(),
            m.limit() == max_concurrent_downloads,
    {
        let m = DownloadManager {
            tasks: Vec::new(),
            active_tasks: Vec::new(),
            max_concurrent_downloads,
        };
        proof {
            assert(m.active() =~= Seq::<Seq<char>>::empty());
            assert(m.order() =~= Seq::<Seq<char>>::empty());
            assert(m.registry() =~= Map::<Seq<char>, DownloadTask>::empty());
            m.lemma_wf();
        }
        m
    }

    /// Finds the task named `id`.
    fn find(&self, id: &str) -> (r: Option<usize>)
        requires
            self.wf(),
        ensures
            match r {
                Some(i) => {
                    &&& i < self.tasks@.len()
                    &&& self.tasks@[i as int].id@ == id@
                    &&& self.has_task(id@)
                    &&& self.task(id@) == self.tasks@[i as int]
                },
                None => !self.has_task(id@),
            },
    {
        let wanted = String::from_str(id);
        let mut i: usize = 0;
        while i < self.tasks.len()
            invariant
                self.wf(),
                i <= self.tasks.len(),
                wanted@ == id@,
                forall|k: int| 0 <= k < i ==> self.tasks@[k].id@ != id@,
            decreases self.tasks.len() - i,
        {
            if self.tasks[i].id == wanted {
                proof {
                    self.lemma_stored();
                    lemma_registry_at(self.tasks@, i as int);
                }
                return Some(i);
            }
            i = i + 1;
        }
        None
    }

    /// Takes `id` out of the set of running tasks.
    fn deactivate(&mut self, id: &str) -> (was_active: bool)
        requires
            old(self).wf(),
        ensures
            final(self).wf(),
            final(self).registry() == old(self).registry(),
            final(self).order() == old(self).order(),
            final(self).limit() == old(self).limit(),
            final(self).active() == old(self).active().remove_value(id@),
            was_active == old(self).active().contains(id@),
    {
        let wanted = String::from_str(id);
        let mut i: usize = 0;
        while i < self.active_tasks.len()
            invariant
                *self == *old(self),
                old(self).wf(),
                i <= self.active_tasks.len(),
                wanted@ == id@,
                forall|k: int| 0 <= k < i ==> self.active()[k] != id@,
            decreases self.active_tasks.len() - i,
        {
            if self.active_tasks[i] == wanted {
                proof {
                    old(self).active().index_of_first_ensures(id@);
                    assert(old(self).active()[i as int] == id@);
                }
                self.active_tasks.remove(i);
                proof {
                    let before = old(self).active();
                    let after = self.active();
                    assert(after =~= before.remove(i as int));
                    assert forall|a: int, b: int|
                        0 <= a < after.len() && 0 <= b < after.len() && a != b implies after[a]
                        != after[b] by {
                        let a0 = if a < i { a } else { a + 1 };
                        let b0 = if b < i { b } else { b + 1 };
                        assert(after[a] == before[a0] && after[b] == before[b0]);
                    }
                    assert forall|k: int| 0 <= k < after.len() implies self.has_task(
                        #[trigger] after[k],
                    ) by {
                        let k0 = if k < i { k } else { k + 1 };
                        assert(after[k] == before[k0]);
                        assert(old(self).has_task(before[k0]));
                    }
                    old(self).lemma_stored();
                    self.lemma_wf();
                }
                return true;
            }
            i = i + 1;
        }
        proof {
            old(self).active().index_of_first_ensures(id@);
        }
        false
    }

    /// After a change to the stored task at `i` alone that keeps its
    /// identifier, the registry differs at that identifier alone and the
    /// manager is well formed as before.
    proof fn lemma_changed(&self, before: &Self, i: int)
        requires
            before.wf(),
            0 <= i < before.tasks@.len(),
            self.tasks@.len() == before.tasks@.len(),
            forall|k: int|
                0 <= k < self.tasks@.len() && k != i ==> self.tasks@[k] == before.tasks@[k],
            self.tasks@[i].id@ == before.tasks@[i].id@,
            self.tasks@[i].wf(),
            self.active_tasks == before.active_tasks,
            self.max_concurrent_downloads == before.max_concurrent_downloads,
        ensures
            self.wf(),
            self.order() == before.order(),
            self.active() == before.active(),
            self.limit() == before.limit(),
            self.registry() == before.registry().insert(self.tasks@[i].id@, self.tasks@[i]),
    {
        before.lemma_stored();
        assert(self.tasks@ =~= before.tasks@.update(i, self.tasks@[i]));
        lemma_registry_update(before.tasks@, i, self.tasks@[i]);
        assert forall|k: int| 0 <= k < self.active().len() implies self.has_task(
            #[trigger] self.active()[k],
        ) by {
            assert(before.has_task(before.active()[k]));
        }
        self.lemma_wf();
    }

    /// Registers a task under `id`, unless a task of that name exists.
    pub fn register(
        &mut self,
        id: String,
        url: String,
        save_path: String,
        filename: String,
        segments: usize,
    ) -> (r: Result<String, DownloadError>)
        requires
            old(self).wf(),
            segments >= 1,
        ensures
            final(self).wf(),
            final(self).limit() == old(self).limit(),
            final(self).active() == old(self).active(),
            match r {
                Ok(name) => {
                    &&& !old(self).has_task(id@)
                    &&& name@ == id@
                    &&& final(self).order() == old(self).order().push(id@)
                    &&& final(self).registry() == old(self).registry().insert(
                        id@,
                        final(self).task(id@),
                    )
                    &&& final(self).task(id@).is_new(id@, url@, save_path@, filename@, segments)
                },
                Err(e) => {
                    &&& old(self).has_task(id@)
                    &&& e@ == ErrorView::TaskAlreadyExists(id@)
                    &&& final(self).order() == old(self).order()
                    &&& final(self).registry() == old(self).registry()
                },
            },
    {
        if self.find(id.as_str()).is_some() {
            return Err(DownloadError::TaskAlreadyExists(id));
        }
        let name = id.clone();
        let task = DownloadTask::new(id, url, save_path, filename, segments);
        proof {
            old(self).lemma_stored();
            lemma_registry_push(old(self).tasks@, task);
        }
        self.tasks.push(task);
        proof {
            assert(self.active() =~= old(self).active());
            assert forall|k: int| 0 <= k < self.active().len() implies self.has_task(
                #[trigger] self.active()[k],
            ) by {
                assert(old(self).has_task(old(self).active()[k]));
            }
            self.lemma_wf();
        }
        Ok(name)
    }

    /// Adds a download of `url` into the directory `save_path`, under a
    /// fresh identifier. The file is named `filename`, or after the last
    /// segment of the path of the address where none is given.
    pub fn add_task(
        &mut self,
        url: &str,
        save_path: String,
        filename: Option<String>,
        segments: usize,
    ) -> (r: Result<String, DownloadError>)
        requires
            old(self).wf(),
            segments >= 1,
        ensures
            final(self).wf(),
            final(self).limit() == old(self).limit(),
            final(self).active() == old(self).active(),
            match resolved_filename(url@, option_text(filename)) {
                Err(refusal) => {
                    &&& r is Err
                    &&& r.unwrap_err()@ == refusal
                    &&& final(self).order() == old(self).order()
                    &&& final(self).registry() == old(self).registry()
                },
                Ok(name) => match r {
                    Ok(id) => {
                        &&& id@.len() == 36
                        &&& !old(self).has_task(id@)
                        &&& final(self).order() == old(self).order().push(id@)
                        &&& final(self).registry() == old(self).registry().insert(
                            id@,
                            final(self).task(id@),
                        )
                        &&& final(self).task(id@).is_new(id@, url@, save_path@, name, segments)
                    },
                    Err(e) => {
                        &&& e@ is TaskAlreadyExists
                        &&& old(self).has_task(e@->TaskAlreadyExists_0)
                        &&& final(self).order() == old(self).order()
                        &&& final(self).registry() == old(self).registry()
                    },
                },
            },
    {
        let name = match resolve_filename(url, filename) {
            Ok(name) => name,
            Err(e) => {
                return Err(e);
            },
        };
        let id = fresh_id();
        self.register(id, String::from_str(url), save_path, name, segments)
    }

    /// Decides whether the task may start. With as many tasks running as
    /// are allowed, the task is marked `Pending` and nothing is started.
    /// Otherwise nothing changes yet: the caller asks for the size of the
    /// resource and goes on with `begin_download`.
    pub fn start_task(&mut self, task_id: &str) -> (r: Result<StartStep, DownloadError>)
        requires
            old(self).wf(),
        ensures
            final(self).wf(),
            final(self).limit() == old(self).limit(),
            final(self).order() == old(self).order(),
            final(self).active() == old(self).active(),
            match r {
                Ok(step) => {
                    &&& old(self).has_task(task_id@)
                    &&& if old(self).active().len() >= old(self).limit() {
                        &&& step@ == StartStepView::Queued
                        &&& final(self).registry() == old(self).registry().insert(
                            task_id@,
                            old(self).task(task_id@).with_status(DownloadStatus::Pending),
                        )
                    } else {
                        &&& step@ == StartStepView::Probe(old(self).task(task_id@).url@)
                        &&& final(self).registry() == old(self).registry()
                    }
                },
                Err(e) => {
                    &&& !old(self).has_task(task_id@)
                    &&& e@ == ErrorView::TaskNotFound(task_id@)
                    &&& final(self).registry() == old(self).registry()
                },
            },
    {
        let i = match self.find(task_id) {
            Some(i) => i,
            None => {
                return Err(DownloadError::TaskNotFound(String::from_str(task_id)));
            },
        };
        if self.active_tasks.len() >= self.max_concurrent_downloads {
            proof {
                old(self).lemma_stored();
            }
            self.tasks[i].set_status(DownloadStatus::Pending);
            proof {
                self.lemma_changed(old(self), i as int);
            }
            return Ok(StartStep::Queued);
        }
        Ok(StartStep::Probe(self.tasks[i].url.clone()))
    }

    /// Begins the download of a task whose resource has `file_size` bytes,
    /// with a clock reading for the start: the milliseconds since the Unix
    /// epoch, or the reason why the clock could not be read. Records the
    /// size, stamps the start, marks the task `Downloading` and plans the
    /// segments: the plan covers the whole resource, whatever an earlier
    /// attempt has fetched. Where the clock could not be read, the size is
    /// recorded and the task goes no further.
    pub fn begin_download_at(
        &mut self,
        task_id: &str,
        file_size: u64,
        clock: Result<u64, String>,
    ) -> (r: Result<DownloadPlan, DownloadError>)
        requires
            old(self).wf(),
        ensures
            final(self).wf(),
            final(self).limit() == old(self).limit(),
            final(self).order() == old(self).order(),
            final(self).active() == old(self).active(),
            !old(self).has_task(task_id@) ==> {
                &&& r is Err
                &&& r.unwrap_err()@ == ErrorView::TaskNotFound(task_id@)
                &&& final(self).registry() == old(self).registry()
            },
            old(self).has_task(task_id@) ==> match clock {
                Ok(now) => {
                    &&& r is Ok
                    &&& final(self).registry() == old(self).registry().insert(
                        task_id@,
                        old(self).task(task_id@).begun(file_size, now),
                    )
                    &&& r.unwrap().url@ == old(self).task(task_id@).url@
                    &&& r.unwrap().temp_path@ == old(self).task(task_id@).spec_temp_path()
                    &&& r.unwrap().total == file_size
                    &&& r.unwrap().ranges@ == planned_ranges(
                        file_size,
                        old(self).task(task_id@).segments,
                    )
                    &&& r.unwrap().event@ == EventView::Started(task_id@)
                },
                Err(reason) => {
                    &&& r is Err
                    &&& r.unwrap_err()@ == ErrorView::Other(clock_error_prefix() + reason@)
                    &&& final(self).registry() == old(self).registry().insert(
                        task_id@,
                        old(self).task(task_id@).sized(file_size),
                    )
                },
            },
    {
        let i = match self.find(task_id) {
            Some(i) => i,
            None => {
                return Err(DownloadError::TaskNotFound(String::from_str(task_id)));
            },
        };
        proof {
            old(self).lemma_stored();
        }
        self.tasks[i].set_total_size(file_size);
        match self.tasks[i].stamp_start(clock) {
            Ok(()) => {},
            Err(e) => {
                proof {
                    self.lemma_changed(old(self), i as int);
                }
                return Err(e);
            },
        }
        self.tasks[i].set_status(DownloadStatus::Downloading);
        proof {
            self.lemma_changed(old(self), i as int);
        }
        Ok(
            DownloadPlan {
                url: self.tasks[i].url.clone(),
                temp_path: self.tasks[i].temp_path(),
                total: file_size,
                ranges: plan_segments(file_size, self.tasks[i].segments),
                event: DownloadEvent::Started(String::from_str(task_id)),
            },
        )
    }

    /// Begins the download of a task whose resource has `file_size` bytes,
    /// stamping the start with the current time.
    pub fn begin_download(&mut self, task_id: &str, file_size: u64) -> (r: Result<
        DownloadPlan,
        DownloadError,
    >)
        requires
            old(self).wf(),
        ensures
            final(self).wf(),
            final(self).limit() == old(self).limit(),
            final(self).order() == old(self).order(),
            final(self).active() == old(self).active(),
            !old(self).has_task(task_id@) ==> {
                &&& r is Err
                &&& r.unwrap_err()@ == ErrorView::TaskNotFound(task_id@)
                &&& final(self).registry() == old(self).registry()
            },
            old(self).has_task(task_id@) ==> match r {
                Ok(plan) => {
                    &&& final(self).registry() == old(self).registry().insert(
                        task_id@,
                        old(self).task(task_id@).begun(
                            file_size,
                            final(self).task(task_id@).start_time,
                        ),
                    )
                    &&& plan.url@ == old(self).task(task_id@).url@
                    &&& plan.temp_path@ == old(self).task(task_id@).spec_temp_path()
                    &&& plan.total == file_size
                    &&& plan.ranges@ == planned_ranges(file_size, old(self).task(task_id@).segments)
                    &&& plan.event@ == EventView::Started(task_id@)
                },
                Err(e) => {
                    &&& e@ is Other
                    &&& clock_error_prefix().is_prefix_of(e@->Other_0)
                    &&& final(self).registry() == old(self).registry().insert(
                        task_id@,
                        old(self).task(task_id@).sized(file_size),
                    )
                },
            },
    {
        let clock = unix_millis();
        proof {
            if clock is Err {
                lemma_clock_error_prefix(clock->Err_0@);
            }
        }
        self.begin_download_at(task_id, file_size, clock)
    }

    /// Counts the task among the running ones, once its workers are set up.
    pub fn activate(&mut self, task_id: &str) -> (r: Result<(), DownloadError>)
        requires
            old(self).wf(),
        ensures
            final(self).wf(),
            final(self).limit() == old(self).limit(),
            final(self).order() == old(self).order(),
            final(self).registry() == old(self).registry(),
            match r {
                Ok(()) => {
                    &&& old(self).has_task(task_id@)
                    &&& final(self).active() == if old(self).active().contains(task_id@) {
                        old(self).active()
                    } else {
                        old(self).active().push(task_id@)
                    }
                },
                Err(e) => {
                    &&& !old(self).has_task(task_id@)
                    &&& e@ == ErrorView::TaskNotFound(task_id@)
                    &&& final(self).active() == old(self).active()
                },
            },
    {
        if self.find(task_id).is_none() {
            return Err(DownloadError::TaskNotFound(String::from_str(task_id)));
        }
        if !self.is_active(task_id) {
            self.active_tasks.push(String::from_str(task_id));
            proof {
                let before = old(self).active();
                let after = self.active();
                assert(after =~= before.push(task_id@));
                assert forall|a: int, b: int|
                    0 <= a < after.len() && 0 <= b < after.len() && a != b implies after[a]
                    != after[b] by {
                    if a < before.len() && b < before.len() {
                    } else if a < before.len() {
                        assert(before[a] == after[a]);
                    } else {
                        assert(before[b] == after[b]);
                    }
                }
                assert forall|k: int| 0 <= k < after.len() implies self.has_task(
                    #[trigger] after[k],
                ) by {
                    if k < before.len() {
                        assert(before[k] == after[k]);
                        assert(old(self).has_task(before[k]));
                    }
                }
                old(self).lemma_stored();
                self.lemma_wf();
            }
        }
        Ok(())
    }

    /// Whether the task counts among the running ones.
    pub fn is_active(&self, task_id: &str) -> (r: bool)
        ensures
            r == self.active().contains(task_id@),
    {
        let wanted = String::from_str(task_id);
        let mut i: usize = 0;
        while i < self.active_tasks.len()
            invariant
                i <= self.active_tasks.len(),
                wanted@ == task_id@,
                forall|k: int| 0 <= k < i ==> self.active()[k] != task_id@,
            decreases self.active_tasks.len() - i,
        {
            if self.active_tasks[i] == wanted {
                assert(self.active()[i as int] == task_id@);
                return true;
            }
            i = i + 1;
        }
        false
    }

    /// How many tasks count among the running ones.
    pub fn active_count(&self) -> (n: usize)
        ensures
            n == self.active().len(),
    {
        self.active_tasks.len()
    }

    /// How many tasks may run at once.
    pub fn max_concurrent(&self) -> (n: usize)
        ensures
            n == self.limit(),
    {
        self.max_concurrent_downloads
    }

    /// Pauses the task: marks it `Paused` and takes it out of the running
    /// set. The partial file stays on disk.
    pub fn pause_task(&mut self, task_id: &str) -> (r: Result<Halt, DownloadError>)
        requires
            old(self).wf(),
        ensures
            final(self).wf(),
            final(self).limit() == old(self).limit(),
            final(self).order() == old(self).order(),
            match r {
                Ok(halt) => {
                    &&& old(self).has_task(task_id@)
                    &&& final(self).registry() == old(self).registry().insert(
                        task_id@,
                        old(self).task(task_id@).with_status(DownloadStatus::Paused),
                    )
                    &&& final(self).active() == old(self).active().remove_value(task_id@)
                    &&& halt.abort == old(self).active().contains(task_id@)
                    &&& halt.remove is None
                    &&& halt.event@ == EventView::Paused(task_id@)
                },
                Err(e) => {
                    &&& !old(self).has_task(task_id@)
                    &&& e@ == ErrorView::TaskNotFound(task_id@)
                    &&& final(self).registry() == old(self).registry()
                    &&& final(self).active() == old(self).active()
                },
            },
    {
        let i = match self.find(task_id) {
            Some(i) => i,
            None => {
                return Err(DownloadError::TaskNotFound(String::from_str(task_id)));
            },
        };
        proof {
            old(self).lemma_stored();
        }
        self.tasks[i].set_status(DownloadStatus::Paused);
        proof {
            self.lemma_changed(old(self), i as int);
        }
        let abort = self.deactivate(task_id);
        Ok(Halt { abort, remove: None, event: DownloadEvent::Paused(String::from_str(task_id)) })
    }

    /// Restarts a paused task. Only a task that is exactly `Paused` can be
    /// resumed. The restart begins the whole download again: it goes on as
    /// `start_task` does, and nothing of the earlier attempt is kept.
    pub fn resume_task(&mut self, task_id: &str) -> (r: Result<Resumption, DownloadError>)
        requires
            old(self).wf(),
        ensures
            final(self).wf(),
            final(self).limit() == old(self).limit(),
            final(self).order() == old(self).order(),
            final(self).active() == old(self).active(),
            !old(self).has_task(task_id@) ==> {
                &&& r is Err
                &&& r.unwrap_err()@ == ErrorView::TaskNotFound(task_id@)
                &&& final(self).registry() == old(self).registry()
            },
            old(self).has_task(task_id@) && old(self).task(task_id@).progress.status
                != DownloadStatus::Paused ==> {
                &&& r is Err
                &&& r.unwrap_err()@ == ErrorView::Other(
                    not_paused_message(old(self).task(task_id@).progress.status),
                )
                &&& final(self).registry() == old(self).registry()
            },
            old(self).has_task(task_id@) && old(self).task(task_id@).progress.status
                == DownloadStatus::Paused ==> {
                &&& r is Ok
                &&& r.unwrap().event@ == EventView::Resumed(task_id@)
                &&& if old(self).active().len() >= old(self).limit() {
                    &&& r.unwrap().step@ == StartStepView::Queued
                    &&& final(self).registry() == old(self).registry().insert(
                        task_id@,
                        old(self).task(task_id@).with_status(DownloadStatus::Pending),
                    )
                } else {
                    &&& r.unwrap().step@ == StartStepView::Probe(old(self).task(task_id@).url@)
                    &&& final(self).registry() == old(self).registry()
                }
            },
    {
        let i = match self.find(task_id) {
            Some(i) => i,
            None => {
                return Err(DownloadError::TaskNotFound(String::from_str(task_id)));
            },
        };
        let status = self.tasks[i].get_progress().status;
        if status != DownloadStatus::Paused {
            return Err(
                DownloadError::Other(
                    String::from_str("任务状态不是已暂停: ").concat(status.name()),
                ),
            );
        }
        let event = DownloadEvent::Resumed(String::from_str(task_id));
        match self.start_task(task_id) {
            Ok(step) => Ok(Resumption { event, step }),
            Err(e) => Err(e),
        }
    }

    /// Cancels the task: marks it `Cancelled` and takes it out of the
    /// running set. The partial file is to be deleted.
    pub fn cancel_task(&mut self, task_id: &str) -> (r: Result<Halt, DownloadError>)
        requires
            old(self).wf(),
        ensures
            final(self).wf(),
            final(self).limit() == old(self).limit(),
            final(self).order() == old(self).order(),
            match r {
                Ok(halt) => {
                    &&& old(self).has_task(task_id@)
                    &&& final(self).registry() == old(self).registry().insert(
                        task_id@,
                        old(self).task(task_id@).with_status(DownloadStatus::Cancelled),
                    )
                    &&& final(self).active() == old(self).active().remove_value(task_id@)
                    &&& halt.abort == old(self).active().contains(task_id@)
                    &&& option_text(halt.remove) == Some(old(self).task(task_id@).spec_temp_path())
                    &&& halt.event@ == EventView::Cancelled(task_id@)
                },
                Err(e) => {
                    &&& !old(self).has_task(task_id@)
                    &&& e@ == ErrorView::TaskNotFound(task_id@)
                    &&& final(self).registry() == old(self).registry()
                    &&& final(self).active() == old(self).active()
                },
            },
    {
        let i = match self.find(task_id) {
            Some(i) => i,
            None => {
                return Err(DownloadError::TaskNotFound(String::from_str(task_id)));
            },
        };
        proof {
            old(self).lemma_stored();
        }
        self.tasks[i].set_status(DownloadStatus::Cancelled);
        proof {
            self.lemma_changed(old(self), i as int);
        }
        let temp = self.tasks[i].temp_path();
        let abort = self.deactivate(task_id);
        Ok(
            Halt {
                abort,
                remove: Some(temp),
                event: DownloadEvent::Cancelled(String::from_str(task_id)),
            },
        )
    }

    /// Records that `downloaded` bytes of the task have arrived by `now`,
    /// given in milliseconds since the Unix epoch, and hands back the
    /// event that carries the new progress.
    pub fn report_progress_at(&mut self, task_id: &str, downloaded: u64, now: u64) -> (r: Result<
        DownloadEvent,
        DownloadError,
    >)
        requires
            old(self).wf(),
        ensures
            final(self).wf(),
            final(self).limit() == old(self).limit(),
            final(self).order() == old(self).order(),
            final(self).active() == old(self).active(),
            match r {
                Ok(event) => {
                    &&& old(self).has_task(task_id@)
                    &&& final(self).registry() == old(self).registry().insert(
                        task_id@,
                        old(self).task(task_id@).advanced(downloaded, now),
                    )
                    &&& event@ == EventView::ProgressUpdated(
                        task_id@,
                        old(self).task(task_id@).advanced(downloaded, now).progress,
                    )
                },
                Err(e) => {
                    &&& !old(self).has_task(task_id@)
                    &&& e@ == ErrorView::TaskNotFound(task_id@)
                    &&& final(self).registry() == old(self).registry()
                },
            },
    {
        let i = match self.find(task_id) {
            Some(i) => i,
            None => {
                return Err(DownloadError::TaskNotFound(String::from_str(task_id)));
            },
        };
        proof {
            old(self).lemma_stored();
        }
        self.tasks[i].update_progress_at(downloaded, now);
        proof {
            self.lemma_changed(old(self), i as int);
        }
        Ok(DownloadEvent::ProgressUpdated(String::from_str(task_id), self.tasks[i].get_progress()))
    }

    /// Records that `downloaded` bytes of the task have arrived by now. A
    /// clock that cannot be read counts as no time passed.
    pub fn report_progress(&mut self, task_id: &str, downloaded: u64) -> (r: Result<
        DownloadEvent,
        DownloadError,
    >)
        requires
            old(self).wf(),
        ensures
            final(self).wf(),
            final(self).limit() == old(self).limit(),
            final(self).order() == old(self).order(),
            final(self).active() == old(self).active(),
            match r {
                Ok(event) => {
                    &&& old(self).has_task(task_id@)
                    &&& exists|now: u64|
                        {
                            &&& final(self).registry() == old(self).registry().insert(
                                task_id@,
                                #[trigger] old(self).task(task_id@).advanced(downloaded, now),
                            )
                            &&& event@ == EventView::ProgressUpdated(
                                task_id@,
                                old(self).task(task_id@).advanced(downloaded, now).progress,
                            )
                        }
                },
                Err(e) => {
                    &&& !old(self).has_task(task_id@)
                    &&& e@ == ErrorView::TaskNotFound(task_id@)
                    &&& final(self).registry() == old(self).registry()
                },
            },
    {
        let now: u64 = match unix_millis() {
            Ok(ms) => ms,
            Err(_) => 0,
        };
        self.report_progress_at(task_id, downloaded, now)
    }

    /// Decides what becomes of a task once all its workers have ended,
    /// given whether every one of them fetched its segment in full. A task
    /// that is still `Downloading` and has all its segments counts as
    /// fetched: its partial file is to be moved into place, and the task
    /// stays among the running ones until `complete` reports how that
    /// went. A task that is still `Downloading` but lacks a segment is
    /// marked `Failed`. Every task but the fetched one leaves the running
    /// set: the partial file of a cancelled or failed one is to be deleted,
    /// and a failed one is announced.
    pub fn finalize(&mut self, task_id: &str, all_segments_done: bool) -> (r: Result<
        Finalization,
        DownloadError,
    >)
        requires
            old(self).wf(),
        ensures
            final(self).wf(),
            final(self).limit() == old(self).limit(),
            final(self).order() == old(self).order(),
            match r {
                Ok(verdict) => {
                    &&& old(self).has_task(task_id@)
                    &&& verdict_matches(verdict, old(self).task(task_id@), all_segments_done)
                    &&& final(self).registry() == old(self).registry().insert(
                        task_id@,
                        old(self).task(task_id@).with_status(
                            status_after_finalize(
                                old(self).task(task_id@).progress.status,
                                all_segments_done,
                            ),
                        ),
                    )
                    &&& final(self).active() == if verdict is Rename {
                        old(self).active()
                    } else {
                        old(self).active().remove_value(task_id@)
                    }
                },
                Err(e) => {
                    &&& !old(self).has_task(task_id@)
                    &&& e@ == ErrorView::TaskNotFound(task_id@)
                    &&& final(self).registry() == old(self).registry()
                    &&& final(self).active() == old(self).active()
                },
            },
    {
        let i = match self.find(task_id) {
            Some(i) => i,
            None => {
                return Err(DownloadError::TaskNotFound(String::from_str(task_id)));
            },
        };
        proof {
            old(self).lemma_stored();
        }
        let status = self.tasks[i].get_progress().status;
        if status == DownloadStatus::Downloading && !all_segments_done {
            self.tasks[i].set_status(DownloadStatus::Failed);
        }
        proof {
            self.lemma_changed(old(self), i as int);
        }
        let verdict = match self.tasks[i].get_progress().status {
            DownloadStatus::Downloading => {
                return Ok(
                    Finalization::Rename {
                        from: self.tasks[i].temp_path(),
                        to: self.tasks[i].full_path(),
                    },
                );
            },
            DownloadStatus::Cancelled => Finalization::Discard {
                path: self.tasks[i].temp_path(),
                event: None,
            },
            DownloadStatus::Failed => Finalization::Discard {
                path: self.tasks[i].temp_path(),
                event: Some(
                    DownloadEvent::Failed(String::from_str(task_id), String::from_str("下载失败")),
                ),
            },
            _ => Finalization::Nothing,
        };
        self.deactivate(task_id);
        Ok(verdict)
    }

    /// Closes a download whose partial file was to be moved into place.
    /// A task that is still `Downloading` becomes `Completed` where the
    /// move succeeded and `Failed` where it did not; a task in any other
    /// state keeps it. Either way the task leaves the running set.
    pub fn complete(&mut self, task_id: &str, renamed: Result<(), String>) -> (r: Result<
        Option<DownloadEvent>,
        DownloadError,
    >)
        requires
            old(self).wf(),
        ensures
            final(self).wf(),
            final(self).limit() == old(self).limit(),
            final(self).order() == old(self).order(),
            match r {
                Ok(event) => {
                    &&& old(self).has_task(task_id@)
                    &&& final(self).active() == old(self).active().remove_value(task_id@)
                    &&& final(self).registry() == old(self).registry().insert(
                        task_id@,
                        old(self).task(task_id@).with_status(
                            status_after_rename(
                                old(self).task(task_id@).progress.status,
                                renamed is Ok,
                            ),
                        ),
                    )
                    &&& if old(self).task(task_id@).progress.status != DownloadStatus::Downloading {
                        event is None
                    } else {
                        match renamed {
                            Ok(()) => event is Some && event.unwrap()@ == EventView::Completed(
                                task_id@,
                            ),
                            Err(reason) => event is Some && event.unwrap()@ == EventView::Failed(
                                task_id@,
                                rename_failure(reason@),
                            ),
                        }
                    }
                },
                Err(e) => {
                    &&& !old(self).has_task(task_id@)
                    &&& e@ == ErrorView::TaskNotFound(task_id@)
                    &&& final(self).registry() == old(self).registry()
                    &&& final(self).active() == old(self).active()
                },
            },
    {
        let i = match self.find(task_id) {
            Some(i) => i,
            None => {
                return Err(DownloadError::TaskNotFound(String::from_str(task_id)));
            },
        };
        proof {
            old(self).lemma_stored();
        }
        let event = match self.tasks[i].get_progress().status {
            DownloadStatus::Downloading => match renamed {
                Ok(()) => {
                    self.tasks[i].set_status(DownloadStatus::Completed);
                    Some(DownloadEvent::Completed(String::from_str(task_id)))
                },
                Err(reason) => {
                    self.tasks[i].set_status(DownloadStatus::Failed);
                    Some(
                        DownloadEvent::Failed(
                            String::from_str(task_id),
                            String::from_str("重命名文件失败: ").concat(reason.as_str()),
                        ),
                    )
                },
            },
            _ => None,
        };
        proof {
            self.lemma_changed(old(self), i as int);
        }
        self.deactivate(task_id);
        Ok(event)
    }

    /// The progress of the task named `task_id`.
    pub fn get_task_progress(&self, task_id: &str) -> (r: Result<DownloadProgress, DownloadError>)
        requires
            self.wf(),
        ensures
            match r {
                Ok(p) => self.has_task(task_id@) && p == self.task(task_id@).progress,
                Err(e) => !self.has_task(task_id@) && e@ == ErrorView::TaskNotFound(task_id@),
            },
    {
        match self.find(task_id) {
            Some(i) => Ok(self.tasks[i].get_progress()),
            None => Err(DownloadError::TaskNotFound(String::from_str(task_id))),
        }
    }

    /// The identifier and the progress of every task, oldest first.
    pub fn get_tasks(&self) -> (list: Vec<(String, DownloadProgress)>)
        requires
            self.wf(),
        ensures
            list@.len() == self.order().len(),
            forall|i: int|
                0 <= i < list@.len() ==> (#[trigger] list@[i]).0@ == self.order()[i] && list@[i].1
                    == self.task(self.order()[i]).progress,
    {
        let mut list: Vec<(String, DownloadProgress)> = Vec::new();
        let mut i: usize = 0;
        while i < self.tasks.len()
            invariant
                self.wf(),
                i <= self.tasks.len(),
                list@.len() == i,
                forall|k: int|
                    0 <= k < i ==> (#[trigger] list@[k]).0@ == self.order()[k] && list@[k].1
                        == self.task(self.order()[k]).progress,
            decreases self.tasks.len() - i,
        {
            proof {
                self.lemma_stored();
                lemma_registry_at(self.tasks@, i as int);
            }
            list.push((self.tasks[i].id.clone(), self.tasks[i].get_progress()));
            i = i + 1;
        }
        list
    }
}

} // verus!
