//! The installer's decisions: which packages of a plan are installed, in
//! which steps one package is installed, and what a run of package tasks
//! amounts to.
//!
//! Downloading, touching the disk and running tasks side by side are left
//! to the caller. For each package it asks the registry whether the package
//! is installed, gets an [`InstallRun`] from [`Installer::install_parallel`],
//! drives each [`InstallTask`] by reporting what happened and doing what the
//! task asks for next, hands the outcomes to [`Installer::finish`], and
//! what came of publishing the install root to [`Installer::conclude`].

use crate::error::{CobraError, ErrorView};
use crate::package::{package_views, Package, PackageView};
use crate::constants::MAX_CONCURRENT_INSTALLS;
use crate::package_manager::{is_installed, registered, RegistryView};
use crate::requirement::satisfies;
use crate::text::{concat, starts_with};
use crate::vectors::reversed;
use vstd::prelude::*;

verus! {

/// The key of an artifact in the cache.
pub open spec fn artifact_key(name: Seq<char>, version: Seq<char>) -> Seq<char> {
    "artifact:"@ + name + ":"@ + version
}

/// The key of a metadata document in the cache.
pub open spec fn metadata_key(name: Seq<char>, version_spec: Seq<char>) -> Seq<char> {
    "metadata:"@ + name + ":"@ + version_spec
}

/// The name of the temporary file that holds the artifact of `name`.
pub open spec fn temp_name(name: Seq<char>) -> Seq<char> {
    name + ".whl"@
}

/// The key of the artifact of `name` at `version` in the cache.
pub fn artifact_cache_key(name: &str, version: &str) -> (key: String)
    ensures
        key@ == artifact_key(name@, version@),
{
    let mut key = concat("artifact:", name);
    key.append(":");
    key.append(version);
    key
}

/// The key of the metadata of `name` under `version_spec` in the cache.
pub fn metadata_cache_key(name: &str, version_spec: &str) -> (key: String)
    ensures
        key@ == metadata_key(name@, version_spec@),
{
    let mut key = concat("metadata:", name);
    key.append(":");
    key.append(version_spec);
    key
}

/// The name of the temporary file that holds the artifact of `name`.
pub fn temp_file_name(name: &str) -> (file: String)
    ensures
        file@ == temp_name(name@),
{
    concat(name, ".whl")
}

/// The packages among the first `upto` of `plan` that are not installed,
/// in the order of the plan.
pub open spec fn pending(plan: Seq<PackageView>, installed: Seq<bool>, upto: int) -> Seq<
    PackageView,
>
    decreases upto,
{
    if upto <= 0 {
        Seq::empty()
    } else if installed[upto - 1] {
        pending(plan, installed, upto - 1)
    } else {
        pending(plan, installed, upto - 1).push(plan[upto - 1])
    }
}

/// The number of installed packages among the first `upto`.
pub open spec fn skipped(installed: Seq<bool>, upto: int) -> int
    decreases upto,
{
    if upto <= 0 {
        0
    } else if installed[upto - 1] {
        skipped(installed, upto - 1) + 1
    } else {
        skipped(installed, upto - 1)
    }
}

/// Where every package is installed, none is pending.
pub proof fn lemma_all_installed(plan: Seq<PackageView>, installed: Seq<bool>, upto: int)
    requires
        0 <= upto <= installed.len(),
        forall|i: int| 0 <= i < upto ==> installed[i],
    ensures
        pending(plan, installed, upto).len() == 0,
        skipped(installed, upto) == upto,
    decreases upto,
{
    if upto > 0 {
        lemma_all_installed(plan, installed, upto - 1);
    }
}

/// What a run says before it starts.
#[derive(Clone, Copy, Debug, PartialEq, Eq, Structural)]
pub enum InstallSummary {
    /// The plan is empty: there is nothing to say and nothing to do.
    Nothing,
    /// Every package of the plan is installed.
    AllInstalled { skipped: usize },
    /// Some packages are installed, the others will be.
    Partly { pending: usize, skipped: usize },
    /// No package is installed yet.
    All { pending: usize },
}

/// What a run says of `pending` packages to install and `skipped` ones.
pub open spec fn summary_of(pending: int, skipped: int) -> InstallSummary {
    if pending == 0 && skipped == 0 {
        InstallSummary::Nothing
    } else if pending == 0 {
        InstallSummary::AllInstalled { skipped: skipped as usize }
    } else if skipped > 0 {
        InstallSummary::Partly { pending: pending as usize, skipped: skipped as usize }
    } else {
        InstallSummary::All { pending: pending as usize }
    }
}

/// The step that a package task is in.
#[derive(Clone, Copy, Debug, PartialEq, Eq, Structural)]
pub enum TaskPhase {
    /// Nothing has been asked for yet.
    Created,
    /// The cache was asked for the artifact.
    LookingUp,
    /// The artifact is being downloaded.
    Downloading,
    /// The downloaded artifact is being put into the cache.
    Storing,
    /// The artifact is being written to its temporary file.
    Writing,
    /// The archive is being extracted into the install root.
    Extracting,
    /// The temporary file is being deleted.
    Cleaning,
    /// The package is being registered.
    Registering,
    /// The package is installed.
    Done,
    /// The task has failed.
    Failed,
}

/// What a caller reports to a package task.
#[derive(Debug)]
pub enum TaskEvent {
    /// The task is to begin.
    Start,
    /// The cache holds the artifact.
    Cached(Vec<u8>),
    /// The cache does not hold the artifact.
    NotCached,
    /// The artifact was downloaded.
    Downloaded(Vec<u8>),
    /// What the task asked for last was done.
    Completed,
    /// What the task asked for last has failed. A cache that could not
    /// store the artifact is no reason to fail: the task goes on.
    Failed(CobraError),
}

/// The mathematical value of a [`TaskEvent`].
pub enum TaskEventView {
    Start,
    Cached(Seq<u8>),
    NotCached,
    Downloaded(Seq<u8>),
    Completed,
    Failed(ErrorView),
}

impl View for TaskEvent {
    type V = TaskEventView;

    open spec fn view(&self) -> TaskEventView {
        match self {
            TaskEvent::Start => TaskEventView::Start,
            TaskEvent::Cached(data) => TaskEventView::Cached(data@),
            TaskEvent::NotCached => TaskEventView::NotCached,
            TaskEvent::Downloaded(data) => TaskEventView::Downloaded(data@),
            TaskEvent::Completed => TaskEventView::Completed,
            TaskEvent::Failed(e) => TaskEventView::Failed(e@),
        }
    }
}

/// What a package task asks its caller to do next.
#[derive(Debug)]
pub enum TaskAction {
    /// Look the key up in the cache; report `Cached` or `NotCached`.
    LookUp { key: String },
    /// Download from the address; report `Downloaded` or `Failed`. The
    /// progress display counts up to `expected_size`.
    Download { url: String, expected_size: u64 },
    /// Put the task's artifact into the cache under the key; report
    /// `Completed`.
    Store { key: String },
    /// Write the task's artifact to a temporary file of this name below the
    /// system's directory for temporary files; report `Completed` or
    /// `Failed`.
    WriteTemp { file_name: String },
    /// Extract the temporary file into the install root; report
    /// `Completed` or `Failed`.
    Extract,
    /// Delete the temporary file; report `Completed` or `Failed`.
    RemoveTemp,
    /// Register the package; report `Completed` or `Failed`.
    Register,
    /// The task is over, with this result.
    Finish(Result<(), CobraError>),
}

/// The mathematical value of a [`TaskAction`].
pub enum TaskActionView {
    LookUp { key: Seq<char> },
    Download { url: Seq<char>, expected_size: u64 },
    Store { key: Seq<char> },
    WriteTemp { file_name: Seq<char> },
    Extract,
    RemoveTemp,
    Register,
    Finish(Result<(), ErrorView>),
}

impl View for TaskAction {
    type V = TaskActionView;

    open spec fn view(&self) -> TaskActionView {
        match self {
            TaskAction::LookUp { key } => TaskActionView::LookUp { key: key@ },
            TaskAction::Download { url, expected_size } => TaskActionView::Download {
                url: url@,
                expected_size: *expected_size,
            },
            TaskAction::Store { key } => TaskActionView::Store { key: key@ },
            TaskAction::WriteTemp { file_name } => TaskActionView::WriteTemp {
                file_name: file_name@,
            },
            TaskAction::Extract => TaskActionView::Extract,
            TaskAction::RemoveTemp => TaskActionView::RemoveTemp,
            TaskAction::Register => TaskActionView::Register,
            TaskAction::Finish(Ok(_)) => TaskActionView::Finish(Ok(())),
            TaskAction::Finish(Err(e)) => TaskActionView::Finish(Err(e@)),
        }
    }
}

/// The mathematical value of an [`InstallTask`].
pub struct TaskView {
    pub package: PackageView,
    pub use_cache: bool,
    pub phase: TaskPhase,
    /// The artifact, once the cache or the download has delivered it.
    pub artifact: Seq<u8>,
}

impl TaskView {
    /// The task in another step.
    pub open spec fn at(self, phase: TaskPhase) -> TaskView {
        TaskView {
            package: self.package,
            use_cache: self.use_cache,
            phase,
            artifact: self.artifact,
        }
    }

    /// The task in another step, holding an artifact.
    pub open spec fn holding(self, phase: TaskPhase, artifact: Seq<u8>) -> TaskView {
        TaskView { package: self.package, use_cache: self.use_cache, phase, artifact }
    }

    /// The key of the task's artifact in the cache.
    pub open spec fn key(self) -> Seq<char> {
        artifact_key(self.package.name, self.package.version)
    }

    /// The request to download the task's artifact.
    pub open spec fn download(self) -> TaskActionView {
        TaskActionView::Download {
            url: self.package.download_url,
            expected_size: match self.package.size {
                Some(size) => size,
                None => 0,
            },
        }
    }

    /// The request to write the task's artifact to its temporary file.
    pub open spec fn write_temp(self) -> TaskActionView {
        TaskActionView::WriteTemp { file_name: temp_name(self.package.name) }
    }

    /// The failure of a task to which something was reported that its step
    /// does not wait for.
    pub open spec fn out_of_step() -> ErrorView {
        ErrorView::InstallationFailed("package task received a report out of step"@)
    }

    /// The step that a report takes the task to, and what the task asks for
    /// then.
    ///
    /// A task first looks into the cache, if there is one. An artifact that
    /// the cache lacks is downloaded and put into the cache. The artifact is
    /// written to a temporary file, extracted, the file deleted and the
    /// package registered, in this order. A failure that is reported ends
    /// the task with that failure, unless it is the cache that failed to
    /// store the artifact; a report that the step does not wait for ends
    /// the task too, and a task that is over stays over.
    pub open spec fn step(self, event: TaskEventView) -> (TaskView, TaskActionView) {
        let derailed = (
            self.at(TaskPhase::Failed),
            TaskActionView::Finish(Err(Self::out_of_step())),
        );
        match self.phase {
            TaskPhase::Done => (self, TaskActionView::Finish(Ok(()))),
            TaskPhase::Failed => (self, TaskActionView::Finish(Err(Self::out_of_step()))),
            _ => match event {
                TaskEventView::Failed(e) => if self.phase == TaskPhase::Storing {
                    (self.at(TaskPhase::Writing), self.write_temp())
                } else {
                    (self.at(TaskPhase::Failed), TaskActionView::Finish(Err(e)))
                },
                TaskEventView::Start => if self.phase != TaskPhase::Created {
                    derailed
                } else if self.use_cache {
                    (self.at(TaskPhase::LookingUp), TaskActionView::LookUp { key: self.key() })
                } else {
                    (self.at(TaskPhase::Downloading), self.download())
                },
                TaskEventView::Cached(data) => if self.phase != TaskPhase::LookingUp {
                    derailed
                } else {
                    (self.holding(TaskPhase::Writing, data), self.write_temp())
                },
                TaskEventView::NotCached => if self.phase != TaskPhase::LookingUp {
                    derailed
                } else {
                    (self.at(TaskPhase::Downloading), self.download())
                },
                TaskEventView::Downloaded(data) => if self.phase != TaskPhase::Downloading {
                    derailed
                } else if self.use_cache {
                    (
                        self.holding(TaskPhase::Storing, data),
                        TaskActionView::Store { key: self.key() },
                    )
                } else {
                    (self.holding(TaskPhase::Writing, data), self.write_temp())
                },
                TaskEventView::Completed => match self.phase {
                    TaskPhase::Storing => (self.at(TaskPhase::Writing), self.write_temp()),
                    TaskPhase::Writing => (self.at(TaskPhase::Extracting), TaskActionView::Extract),
                    TaskPhase::Extracting => (
                        self.at(TaskPhase::Cleaning),
                        TaskActionView::RemoveTemp,
                    ),
                    TaskPhase::Cleaning => (
                        self.at(TaskPhase::Registering),
                        TaskActionView::Register,
                    ),
                    TaskPhase::Registering => (
                        self.at(TaskPhase::Done),
                        TaskActionView::Finish(Ok(())),
                    ),
                    _ => derailed,
                },
            },
        }
    }
}

/// A task asks for the registration of its package only when the
/// temporary file was deleted, for that only when the archive was
/// extracted, for that only when the file was written, and it finishes well
/// only when the package was registered.
pub proof fn lemma_task_order(task: TaskView, event: TaskEventView)
    ensures
        task.step(event).1 == TaskActionView::Register ==> task.phase == TaskPhase::Cleaning,
        task.step(event).1 == TaskActionView::RemoveTemp ==> task.phase == TaskPhase::Extracting,
        task.step(event).1 == TaskActionView::Extract ==> task.phase == TaskPhase::Writing,
        task.step(event).1 == TaskActionView::Finish(Ok(())) ==> task.phase
            == TaskPhase::Registering || task.phase == TaskPhase::Done,
        task.step(event).1 is Store ==> task.phase == TaskPhase::Downloading && task.use_cache,
        task.step(event).1 is Download ==> task.phase == TaskPhase::Created || task.phase
            == TaskPhase::LookingUp,
        task.step(event).1 is Download && task.phase == TaskPhase::LookingUp ==> event
            == TaskEventView::NotCached,
{
}

/// The installation of one package, step by step.
pub struct InstallTask {
    package: Package,
    use_cache: bool,
    phase: TaskPhase,
    artifact: Vec<u8>,
}

impl View for InstallTask {
    type V = TaskView;

    closed spec fn view(&self) -> TaskView {
        TaskView {
            package: self.package@,
            use_cache: self.use_cache,
            phase: self.phase,
            artifact: self.artifact@,
        }
    }
}

/// The failure of a task to which something was reported that its step does
/// not wait for.
fn out_of_step() -> (e: CobraError)
    ensures
        e@ == TaskView::out_of_step(),
{
    CobraError::InstallationFailed(String::from_str("package task received a report out of step"))
}

impl InstallTask {
    /// A task for `package` that has not begun.
    pub fn new(package: Package, use_cache: bool) -> (task: Self)
        ensures
            task@ == (TaskView {
                package: package@,
                use_cache,
                phase: TaskPhase::Created,
                artifact: Seq::empty(),
            }),
    {
        InstallTask { package, use_cache, phase: TaskPhase::Created, artifact: Vec::new() }
    }

    /// The package of the task.
    pub fn package(&self) -> (package: &Package)
        ensures
            package@ == self@.package,
    {
        &self.package
    }

    /// The step that the task is in.
    pub fn phase(&self) -> (phase: TaskPhase)
        ensures
            phase == self@.phase,
    {
        self.phase
    }

    /// The artifact of the task; empty until the cache or the download has
    /// delivered it.
    pub fn artifact(&self) -> (data: &Vec<u8>)
        ensures
            data@ == self@.artifact,
    {
        &self.artifact
    }

    fn ask_download(&self) -> (action: TaskAction)
        ensures
            action@ == self@.download(),
    {
        let expected_size = match self.package.size {
            Some(size) => size,
            None => 0,
        };
        TaskAction::Download { url: self.package.download_url.clone(), expected_size }
    }

    fn ask_write(&self) -> (action: TaskAction)
        ensures
            action@ == self@.write_temp(),
    {
        TaskAction::WriteTemp { file_name: temp_file_name(self.package.name.as_str()) }
    }

    fn ask_key(&self) -> (key: String)
        ensures
            key@ == self@.key(),
    {
        artifact_cache_key(self.package.name.as_str(), self.package.version.as_str())
    }

    fn derail(&mut self) -> (action: TaskAction)
        ensures
            final(self)@ == old(self)@.at(TaskPhase::Failed),
            action@ == TaskActionView::Finish(Err(TaskView::out_of_step())),
    {
        self.phase = TaskPhase::Failed;
        TaskAction::Finish(Err(out_of_step()))
    }

    fn proceed(&mut self, phase: TaskPhase, action: TaskAction) -> (asked: TaskAction)
        ensures
            final(self)@ == old(self)@.at(phase),
            asked == action,
    {
        self.phase = phase;
        action
    }

    /// Takes a report and says what is to be done next.
    pub fn step(&mut self, event: TaskEvent) -> (action: TaskAction)
        ensures
            final(self)@ == old(self)@.step(event@).0,
            action@ == old(self)@.step(event@).1,
    {
        let phase = self.phase;
        match phase {
            TaskPhase::Done => {
                return TaskAction::Finish(Ok(()));
            },
            TaskPhase::Failed => {
                return TaskAction::Finish(Err(out_of_step()));
            },
            _ => {},
        }
        match event {
            TaskEvent::Failed(e) => {
                if phase == TaskPhase::Storing {
                    let action = self.ask_write();
                    self.proceed(TaskPhase::Writing, action)
                } else {
                    self.phase = TaskPhase::Failed;
                    TaskAction::Finish(Err(e))
                }
            },
            TaskEvent::Start => {
                if phase != TaskPhase::Created {
                    self.derail()
                } else if self.use_cache {
                    let key = self.ask_key();
                    self.proceed(TaskPhase::LookingUp, TaskAction::LookUp { key })
                } else {
                    let action = self.ask_download();
                    self.proceed(TaskPhase::Downloading, action)
                }
            },
            TaskEvent::Cached(data) => {
                if phase != TaskPhase::LookingUp {
                    self.derail()
                } else {
                    self.artifact = data;
                    let action = self.ask_write();
                    self.proceed(TaskPhase::Writing, action)
                }
            },
            TaskEvent::NotCached => {
                if phase != TaskPhase::LookingUp {
                    self.derail()
                } else {
                    let action = self.ask_download();
                    self.proceed(TaskPhase::Downloading, action)
                }
            },
            TaskEvent::Downloaded(data) => {
                if phase != TaskPhase::Downloading {
                    self.derail()
                } else if self.use_cache {
                    self.artifact = data;
                    let key = self.ask_key();
                    self.proceed(TaskPhase::Storing, TaskAction::Store { key })
                } else {
                    self.artifact = data;
                    let action = self.ask_write();
                    self.proceed(TaskPhase::Writing, action)
                }
            },
            TaskEvent::Completed => {
                match phase {
                    TaskPhase::Storing => {
                        let action = self.ask_write();
                        self.proceed(TaskPhase::Writing, action)
                    },
                    TaskPhase::Writing => self.proceed(TaskPhase::Extracting, TaskAction::Extract),
                    TaskPhase::Extracting => self.proceed(
                        TaskPhase::Cleaning,
                        TaskAction::RemoveTemp,
                    ),
                    TaskPhase::Cleaning => self.proceed(
                        TaskPhase::Registering,
                        TaskAction::Register,
                    ),
                    TaskPhase::Registering => self.proceed(
                        TaskPhase::Done,
                        TaskAction::Finish(Ok(())),
                    ),
                    _ => self.derail(),
                }
            },
        }
    }
}

/// The values of a sequence of tasks, in order.
pub open spec fn task_views(tasks: Seq<InstallTask>) -> Seq<TaskView> {
    Seq::new(tasks.len(), |i: int| tasks[i]@)
}

/// The tasks for `packages`: one for each, none of them begun.
pub open spec fn fresh_tasks(packages: Seq<PackageView>, use_cache: bool) -> Seq<TaskView> {
    Seq::new(
        packages.len(),
        |i: int|
            TaskView {
                package: packages[i],
                use_cache,
                phase: TaskPhase::Created,
                artifact: Seq::empty(),
            },
    )
}

/// The flags of a plan, as long as the plan: a package without a flag
/// counts as not installed.
pub open spec fn flags_for(installed: Seq<bool>, len: nat) -> Seq<bool> {
    Seq::new(len, |i: int| i < installed.len() && installed[i])
}

/// What a run of an install plan consists of.
pub struct InstallRun {
    /// One task for each package that is not installed, in the order of
    /// the plan.
    pub tasks: Vec<InstallTask>,
    /// What to say before the tasks start.
    pub summary: InstallSummary,
    /// How many tasks may run at the same time.
    pub width: usize,
}

/// How one package task ended.
#[derive(Debug)]
pub enum TaskOutcome {
    /// The task ran to its end, with this result.
    Finished(Result<(), CobraError>),
    /// The task was torn down before its end; the text says why.
    Crashed(String),
}

/// The failure that an outcome stands for.
pub open spec fn failure_of(outcome: TaskOutcome) -> Option<ErrorView> {
    match outcome {
        TaskOutcome::Finished(Ok(_)) => None,
        TaskOutcome::Finished(Err(e)) => Some(e@),
        TaskOutcome::Crashed(text) => Some(ErrorView::InstallationFailed(text@)),
    }
}

/// The first failure among the outcomes from `from` on.
pub open spec fn first_failure(outcomes: Seq<TaskOutcome>, from: int) -> Option<ErrorView>
    decreases outcomes.len() - from,
{
    if from < 0 || from >= outcomes.len() {
        None
    } else if failure_of(outcomes[from]) is Some {
        failure_of(outcomes[from])
    } else {
        first_failure(outcomes, from + 1)
    }
}

/// The installer of a project.
pub struct Installer {
    use_cache: bool,
}

impl Installer {
    /// Whether the tasks of this installer go through the cache.
    pub closed spec fn caching(&self) -> bool {
        self.use_cache
    }

    /// An installer whose tasks go through the cache or past it.
    pub fn new(use_cache: bool) -> (installer: Self)
        ensures
            installer.caching() == use_cache,
    {
        Installer { use_cache }
    }

    /// Plans the installation of `packages`, of which `installed` says
    /// which are installed already. Those are skipped; each other package
    /// gets a task. At most `MAX_CONCURRENT_INSTALLS` tasks are to run at
    /// the same time.
    pub fn install_parallel(&self, packages: Vec<Package>, installed: &Vec<bool>) -> (run:
        InstallRun)
        ensures
            task_views(run.tasks@) == fresh_tasks(
                pending(
                    package_views(packages@),
                    flags_for(installed@, packages@.len()),
                    packages@.len() as int,
                ),
                self.caching(),
            ),
            run.summary == summary_of(
                run.tasks@.len() as int,
                skipped(flags_for(installed@, packages@.len()), packages@.len() as int),
            ),
            run.width == if run.tasks@.len() < MAX_CONCURRENT_INSTALLS {
                run.tasks@.len() as usize
            } else {
                MAX_CONCURRENT_INSTALLS
            },
            run.width <= MAX_CONCURRENT_INSTALLS,
            run.tasks@.len() + skipped(
                flags_for(installed@, packages@.len()),
                packages@.len() as int,
            ) == packages@.len(),
    {
        let ghost plan = package_views(packages@);
        let ghost flags = flags_for(installed@, packages@.len());
        let n = packages.len();
        let mut waiting = reversed(packages);
        assert forall|i: int| 0 <= i < waiting@.len() implies (#[trigger] waiting@[i])@
            == plan[n - 1 - i] by {
            assert(waiting@[i] == packages@[n - 1 - i]);
        }
        let mut tasks: Vec<InstallTask> = Vec::new();
        let mut skips: usize = 0;
        let mut k: usize = 0;
        assert(task_views(tasks@) =~= fresh_tasks(pending(plan, flags, 0), self.caching()));
        while waiting.len() > 0
            invariant
                k + waiting@.len() == n,
                plan.len() == n,
                flags == flags_for(installed@, n as nat),
                forall|i: int|
                    0 <= i < waiting@.len() ==> (#[trigger] waiting@[i])@ == plan[n - 1 - i],
                task_views(tasks@) == fresh_tasks(pending(plan, flags, k as int), self.caching()),
                skips == skipped(flags, k as int),
                tasks@.len() + skips == k,
            decreases waiting@.len(),
        {
            let ghost before = task_views(tasks@);
            match waiting.pop() {
                Some(p) => {
                    assert(p@ == plan[k as int]);
                    let is_installed = k < installed.len() && installed[k];
                    assert(is_installed == flags[k as int]);
                    if is_installed {
                        skips += 1;
                    } else {
                        let task = InstallTask::new(p, self.use_cache);
                        let ghost made = task@;
                        tasks.push(task);
                        proof {
                            let earlier = pending(plan, flags, k as int);
                            assert(pending(plan, flags, k + 1) == earlier.push(plan[k as int]));
                            assert(task_views(tasks@) =~= before.push(made));
                            assert(fresh_tasks(earlier.push(plan[k as int]), self.caching())
                                =~= fresh_tasks(earlier, self.caching()).push(made));
                        }
                    }
                    k += 1;
                },
                None => {},
            }
        }
        let pending_count = tasks.len();
        let summary = if pending_count == 0 && skips == 0 {
            InstallSummary::Nothing
        } else if pending_count == 0 {
            InstallSummary::AllInstalled { skipped: skips }
        } else if skips > 0 {
            InstallSummary::Partly { pending: pending_count, skipped: skips }
        } else {
            InstallSummary::All { pending: pending_count }
        };
        let width = if pending_count < MAX_CONCURRENT_INSTALLS {
            pending_count
        } else {
            MAX_CONCURRENT_INSTALLS
        };
        InstallRun { tasks, summary, width }
    }

    /// What a run amounts to once all its tasks are over: the first
    /// failure in the order of the tasks, if a task failed (a task that was
    /// torn down counts as a failed installation), and whether the install
    /// root is to be published to the host interpreter, which is so when
    /// there were tasks and none of them failed.
    pub fn finish(&self, outcomes: Vec<TaskOutcome>) -> (end: RunEnd)
        ensures
            match end.result {
                Ok(_) => first_failure(outcomes@, 0) is None,
                Err(e) => first_failure(outcomes@, 0) == Some(e@),
            },
            end.publish == (outcomes@.len() > 0 && first_failure(outcomes@, 0) is None),
    {
        let n = outcomes.len();
        let ghost all = outcomes@;
        let mut waiting = reversed(outcomes);
        let mut k: usize = 0;
        while waiting.len() > 0
            invariant
                k + waiting@.len() == n,
                all.len() == n,
                all == outcomes@,
                forall|i: int|
                    0 <= i < waiting@.len() ==> #[trigger] waiting@[i] == all[n - 1 - i],
                first_failure(all, 0) == first_failure(all, k as int),
            decreases waiting@.len(),
        {
            match waiting.pop() {
                Some(outcome) => {
                    assert(outcome == all[k as int]);
                    let ghost failure = failure_of(outcome);
                    assert(first_failure(all, k as int) == if failure is Some {
                        failure
                    } else {
                        first_failure(all, k + 1)
                    });
                    match outcome {
                        TaskOutcome::Finished(Ok(_)) => {},
                        TaskOutcome::Finished(Err(e)) => {
                            assert(failure == Some(e@));
                            return RunEnd { result: Err(e), publish: false };
                        },
                        TaskOutcome::Crashed(text) => {
                            assert(failure == Some(ErrorView::InstallationFailed(text@)));
                            return RunEnd {
                                result: Err(CobraError::InstallationFailed(text)),
                                publish: false,
                            };
                        },
                    }
                    k += 1;
                },
                None => {},
            }
        }
        RunEnd { result: Ok(()), publish: n > 0 }
    }

    /// The result of a run whose install root was published, or was to be:
    /// the result of its tasks, whatever came of the publishing. A failure
    /// to publish is a warning.
    pub fn conclude(&self, end: RunEnd, bridge: Result<(), CobraError>) -> (report: RunReport)
        ensures
            result_view(report.result) == result_view(end.result),
            match report.warning {
                Some(text) => bridge matches Err(e) && text@ == e@.message(),
                None => bridge is Ok,
            },
    {
        let warning = match bridge {
            Ok(_) => None,
            Err(e) => Some(e.message()),
        };
        RunReport { result: end.result, warning }
    }
}

/// The value of the result of a run.
pub open spec fn result_view(result: Result<(), CobraError>) -> Result<(), ErrorView> {
    match result {
        Ok(_) => Ok(()),
        Err(e) => Err(e@),
    }
}

/// How the tasks of a run ended.
#[derive(Debug)]
pub struct RunEnd {
    /// The first failure of a task, if there was one.
    pub result: Result<(), CobraError>,
    /// Whether the install root is to be published to the host
    /// interpreter.
    pub publish: bool,
}

/// What a run has to report at its end.
#[derive(Debug)]
pub struct RunReport {
    /// The result of the run.
    pub result: Result<(), CobraError>,
    /// Why the install root could not be published, if it could not.
    pub warning: Option<String>,
}

/// The bytes of a download as they arrive.
pub struct DownloadBuffer {
    bytes: Vec<u8>,
}

impl View for DownloadBuffer {
    type V = Seq<u8>;

    closed spec fn view(&self) -> Seq<u8> {
        self.bytes@
    }
}

impl DownloadBuffer {
    /// A buffer without bytes.
    pub fn new() -> (buffer: Self)
        ensures
            buffer@ == Seq::<u8>::empty(),
    {
        DownloadBuffer { bytes: Vec::new() }
    }

    /// Appends a chunk and says by how much the progress display advances:
    /// the length of the chunk.
    pub fn push_chunk(&mut self, chunk: &[u8]) -> (advance: u64)
        ensures
            final(self)@ == old(self)@ + chunk@,
            advance == chunk@.len(),
    {
        let n = chunk.len();
        let mut i: usize = 0;
        while i < n
            invariant
                i <= n,
                n == chunk@.len(),
                self.bytes@ == old(self).bytes@ + chunk@.take(i as int),
            decreases n - i,
        {
            self.bytes.push(chunk[i]);
            assert(chunk@.take(i + 1) =~= chunk@.take(i as int).push(chunk@[i as int]));
            i += 1;
        }
        assert(chunk@.take(n as int) =~= chunk@);
        n as u64
    }

    /// The number of bytes received.
    pub fn len(&self) -> (n: usize)
        ensures
            n == self@.len(),
    {
        self.bytes.len()
    }

    /// The bytes received, in the order of their arrival.
    pub fn into_bytes(self) -> (bytes: Vec<u8>)
        ensures
            bytes@ == self@,
    {
        self.bytes
    }
}

/// The registry after the first `upto` packages of `plan` were registered
/// in order, the package `i` at the time `times[i]`.
pub open spec fn registered_all(
    registry: RegistryView,
    plan: Seq<PackageView>,
    dir: Seq<char>,
    times: Seq<int>,
    upto: int,
) -> RegistryView
    decreases upto,
{
    if upto <= 0 {
        registry
    } else {
        registered(
            registered_all(registry, plan, dir, times, upto - 1),
            plan[upto - 1],
            dir,
            times[upto - 1],
        )
    }
}

/// Whether a plan can be installed in full: no version is spelled like a
/// pin, and no name stands in it at two versions.
pub open spec fn installable(plan: Seq<PackageView>) -> bool {
    &&& forall|i: int| 0 <= i < plan.len() ==> !starts_with((#[trigger] plan[i]).version, "=="@)
    &&& forall|i: int, j: int|
        0 <= i < plan.len() && 0 <= j < plan.len() && (#[trigger] plan[i]).name == (
        #[trigger] plan[j]).name ==> plan[i].version == plan[j].version
}

/// After the packages of a plan were registered, the registry holds each
/// of them at its version.
pub proof fn lemma_registered_all(
    registry: RegistryView,
    plan: Seq<PackageView>,
    dir: Seq<char>,
    times: Seq<int>,
    upto: int,
)
    requires
        installable(plan),
        0 <= upto <= plan.len(),
    ensures
        forall|i: int|
            0 <= i < upto ==> registered_all(registry, plan, dir, times, upto).contains_key(
                (#[trigger] plan[i]).name,
            ) && registered_all(registry, plan, dir, times, upto)[plan[i].name].version
                == plan[i].version,
    decreases upto,
{
    if upto > 0 {
        lemma_registered_all(registry, plan, dir, times, upto - 1);
        let before = registered_all(registry, plan, dir, times, upto - 1);
        let after = registered_all(registry, plan, dir, times, upto);
        assert forall|i: int| 0 <= i < upto implies after.contains_key((#[trigger] plan[i]).name)
            && after[plan[i].name].version == plan[i].version by {
            if plan[i].name == plan[upto - 1].name {
                assert(plan[i].version == plan[upto - 1].version);
            } else {
                assert(before.contains_key(plan[i].name));
            }
        }
    }
}

/// A second run of a plan installs nothing: once every package of an
/// installable plan is registered and its directory exists, every package
/// counts as installed, the checks leave the registry as it is, and no
/// package is pending.
pub proof fn lemma_second_run_installs_nothing(
    registry: RegistryView,
    plan: Seq<PackageView>,
    dir: Seq<char>,
    times: Seq<int>,
    installed: Seq<bool>,
)
    requires
        installable(plan),
        installed.len() == plan.len(),
        forall|i: int|
            0 <= i < plan.len() ==> #[trigger] installed[i] == is_installed(
                registered_all(registry, plan, dir, times, plan.len() as int),
                plan[i].name,
                plan[i].version,
                true,
            ),
    ensures
        forall|i: int| 0 <= i < plan.len() ==> #[trigger] installed[i],
        forall|i: int|
            0 <= i < plan.len() ==> crate::package_manager::healed(
                registered_all(registry, plan, dir, times, plan.len() as int),
                (#[trigger] plan[i]).name,
                plan[i].version,
                true,
            ) == registered_all(registry, plan, dir, times, plan.len() as int),
        pending(plan, installed, plan.len() as int).len() == 0,
        summary_of(
            pending(plan, installed, plan.len() as int).len() as int,
            skipped(installed, plan.len() as int),
        ) == if plan.len() == 0 {
            InstallSummary::Nothing
        } else {
            InstallSummary::AllInstalled { skipped: plan.len() as usize }
        },
{
    let after = registered_all(registry, plan, dir, times, plan.len() as int);
    lemma_registered_all(registry, plan, dir, times, plan.len() as int);
    assert forall|i: int| 0 <= i < plan.len() implies #[trigger] installed[i] by {
        let v = plan[i].version;
        assert(after.contains_key(plan[i].name));
        assert(after[plan[i].name].version == v);
        assert(satisfies(v, v));
    }
    lemma_all_installed(plan, installed, plan.len() as int);
}

} // verus!
