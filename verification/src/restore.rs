//! Bringing a saved session back.
//!
//! Files and Niri are dealt with outside: [`SessionRestore::task`] says what is to be done next,
//! and [`SessionRestore::handle`] takes how it went.

use crate::command::{LaunchCommand, LaunchCommandView};
use crate::config::ConfigView;
use crate::launch::{
    spawn_and_move_window, Event, EventView, LaunchError, LaunchErrorView, LaunchJob,
    LaunchJobView, PhaseView, Task, TaskView, WindowLaunch,
};
use crate::logger::{Level, Notice, NoticeView};
use crate::niri::{WindowView, WorkspaceView};
use crate::order::sort_for_restore;
use crate::save::{SaveError, SaveErrorView, SaveOutcome};
use crate::session::{SessionWindow, SessionWindowView};
use crate::text::{holds, joined};
use vstd::prelude::*;

verus! {

/// Whether the configuration says not to bring a program back: by its application id, by the
/// whole command, or by the name of the program.
pub open spec fn skipped(
    command: LaunchCommandView,
    app_id: Option<Seq<char>>,
    skip_apps: Seq<Seq<char>>,
) -> bool {
    ||| app_id matches Some(id) && skip_apps.contains(id)
    ||| skip_apps.contains(command.display())
    ||| command.first() matches Some(program) && skip_apps.contains(program)
}

/// Checks if the launch command should be skipped based on the configuration.
pub fn should_skip(
    launch_command: &LaunchCommand,
    app_id: Option<&str>,
    skip_apps: &[String],
) -> (res: bool)
    ensures
        res == skipped(launch_command@, app_id.deep_view(), skip_apps.deep_view()),
{
    if skip_apps.len() == 0 {
        return false;
    }
    // Check if the application id is in the list
    if let Some(id) = app_id {
        if holds(skip_apps, id) {
            return true;
        }
    }
    // Check the display string (e.g., "ghostty -e tmux")
    let display: String = launch_command.display();
    if holds(skip_apps, display.as_str()) {
        return true;
    }
    // Check the first argument (program name)
    if let Some(first) = launch_command.first() {
        if holds(skip_apps, first) {
            return true;
        }
    }
    false
}

/// What is done for one saved window.
#[derive(Debug, PartialEq, Eq)]
pub enum RestoreStep {
    /// The command, shown like this, is skipped.
    Skip(String),
    /// The program is started.
    Launch(LaunchJob),
}

/// What a [`RestoreStep`] says.
pub enum RestoreStepView {
    Skip(Seq<char>),
    Launch(LaunchJobView),
}

impl View for RestoreStep {
    type V = RestoreStepView;

    open spec fn view(&self) -> RestoreStepView {
        match self {
            RestoreStep::Skip(display) => RestoreStepView::Skip(display@),
            RestoreStep::Launch(job) => RestoreStepView::Launch(job@),
        }
    }
}

impl DeepView for RestoreStep {
    type V = RestoreStepView;

    open spec fn deep_view(&self) -> RestoreStepView {
        self@
    }
}

/// How the program of a saved window is started: with its command, and for its place and size.
pub open spec fn job_of(
    window: SessionWindowView,
    command: LaunchCommandView,
    app_id: Seq<char>,
) -> LaunchJobView {
    LaunchJobView {
        launch_command: command,
        app_id,
        workspace_idx: window.workspace_idx,
        workspace_name: window.workspace_name,
        workspace_output: window.workspace_output,
        window_size: window.window_size,
    }
}

/// What is done for a saved window, if anything: a window without a launch command is passed
/// over, and so is one without an application id that is not skipped.
pub open spec fn step_of(window: SessionWindowView, skip_apps: Seq<Seq<char>>) -> Option<
    RestoreStepView,
> {
    match window.launch_command {
        None => None,
        Some(command) => if skipped(command, window.app_id, skip_apps) {
            Some(RestoreStepView::Skip(command.display()))
        } else {
            match window.app_id {
                Some(app_id) => Some(RestoreStepView::Launch(job_of(window, command, app_id))),
                None => None,
            }
        },
    }
}

/// What is done for a saved session, in this order.
pub open spec fn restore_steps(
    session: Seq<SessionWindowView>,
    skip_apps: Seq<Seq<char>>,
) -> Seq<RestoreStepView> {
    crate::order::restore_sequence(session).filter_map(
        |window: SessionWindowView| step_of(window, skip_apps),
    )
}

/// A string of its own for the slice that an option holds.
fn to_text(s: Option<&str>) -> (res: Option<String>)
    ensures
        res.deep_view() == s.deep_view(),
{
    match s {
        Some(text) => Some(text.to_owned()),
        None => None,
    }
}

/// What is done for one saved window, if anything.
pub fn plan_window(window: &SessionWindow, skip_apps: &[String]) -> (res: Option<RestoreStep>)
    ensures
        res.deep_view() == step_of(window@, skip_apps.deep_view()),
{
    // Check if the launch command should be skipped
    if let Some(launch_command) = &window.launch_command {
        let app_id: Option<&str> = match &window.app_id {
            Some(id) => Some(id.as_str()),
            None => None,
        };
        if should_skip(launch_command, app_id, skip_apps) {
            return Some(RestoreStep::Skip(launch_command.display()));
        }
        if let Some(app_id) = &window.app_id {
            return Some(
                RestoreStep::Launch(
                    LaunchJob {
                        launch_command: launch_command.clone(),
                        app_id: app_id.clone(),
                        workspace_idx: window.workspace_idx,
                        workspace_name: to_text(window.workspace_name),
                        workspace_output: to_text(window.workspace_output),
                        window_size: window.window_size,
                    },
                ),
            );
        }
    }
    None
}

/// What is done for a saved session: its windows sorted by output and workspace index, so that
/// lower-indexed workspaces get created first, and those to be skipped told apart.
pub fn plan_restore(session: Vec<SessionWindow>, skip_apps: &[String]) -> (res: Vec<RestoreStep>)
    ensures
        res.deep_view() == restore_steps(session.deep_view(), skip_apps.deep_view()),
{
    let ghost apps = skip_apps.deep_view();
    let ghost f = |window: SessionWindowView| step_of(window, apps);
    let sorted: Vec<SessionWindow> = sort_for_restore(session);
    let ghost all = sorted.deep_view();
    let mut res: Vec<RestoreStep> = Vec::new();
    let mut i: usize = 0;
    assert(res.deep_view() == all.take(0).filter_map(f));
    while i < sorted.len()
        invariant
            i <= sorted.len(),
            all == sorted.deep_view(),
            apps == skip_apps.deep_view(),
            f == (|window: SessionWindowView| step_of(window, apps)),
            res.deep_view() == all.take(i as int).filter_map(f),
        decreases sorted.len() - i,
    {
        let ghost before = res.deep_view();
        let step: Option<RestoreStep> = plan_window(&sorted[i], skip_apps);
        proof {
            all.lemma_filter_map_take_succ(f, i as int);
            assert(all[i as int] == sorted@[i as int]@);
            assert(f(all[i as int]) == step.deep_view());
        }
        if let Some(step) = step {
            let ghost shown = step@;
            res.push(step);
            assert(res.deep_view() == before + seq![shown]);
        } else {
            assert(res.deep_view() == before + Seq::<RestoreStepView>::empty());
        }
        i = i + 1;
    }
    assert(all.take(i as int) == all);
    res
}

/// Why a session was not brought back.
#[derive(Debug, PartialEq, Eq)]
pub enum RestoreError {
    /// There was no session file, and the open windows could not be saved.
    Save(SaveError),
    /// The session file could not be read; the text is that of the I/O error.
    Read(String),
    /// The session file holds no session; the text is that of the parser's error.
    Load(String),
    /// A program could not be started or its window not put in place.
    Launch(LaunchError),
}

/// What a [`RestoreError`] says.
pub enum RestoreErrorView {
    Save(SaveErrorView),
    Read(Seq<char>),
    Load(Seq<char>),
    Launch(LaunchErrorView),
}

impl RestoreErrorView {
    /// What went wrong, from the outermost description down to the cause.
    pub open spec fn chain(self) -> Seq<Seq<char>> {
        match self {
            RestoreErrorView::Save(err) => err.chain(),
            RestoreErrorView::Read(text) => seq!["Failed to read session file"@, text],
            RestoreErrorView::Load(text) => seq!["Failed to load session data"@, text],
            RestoreErrorView::Launch(err) => err.chain(),
        }
    }
}

impl View for RestoreError {
    type V = RestoreErrorView;

    open spec fn view(&self) -> RestoreErrorView {
        match self {
            RestoreError::Save(err) => RestoreErrorView::Save(err@),
            RestoreError::Read(text) => RestoreErrorView::Read(text@),
            RestoreError::Load(text) => RestoreErrorView::Load(text@),
            RestoreError::Launch(err) => RestoreErrorView::Launch(err@),
        }
    }
}

impl RestoreError {
    /// What went wrong, from the outermost description down to the cause.
    pub fn chain(&self) -> (res: Vec<String>)
        ensures
            res.deep_view() == self@.chain(),
    {
        let mut res: Vec<String> = Vec::new();
        match self {
            RestoreError::Save(err) => {
                return err.chain();
            },
            RestoreError::Read(text) => {
                res.push("Failed to read session file".to_owned());
                res.push(text.clone());
            },
            RestoreError::Load(text) => {
                res.push("Failed to load session data".to_owned());
                res.push(text.clone());
            },
            RestoreError::Launch(err) => {
                return err.chain();
            },
        }
        assert(res.deep_view() == self@.chain());
        res
    }
}

impl Clone for RestoreError {
    fn clone(&self) -> (res: Self)
        ensures
            res@ == self@,
    {
        match self {
            RestoreError::Save(err) => RestoreError::Save(err.clone()),
            RestoreError::Read(text) => RestoreError::Read(text.clone()),
            RestoreError::Load(text) => RestoreError::Load(text.clone()),
            RestoreError::Launch(err) => RestoreError::Launch(err.clone()),
        }
    }
}

/// What bringing a session back ended with.
pub open spec fn restored_view(outcome: Result<(), RestoreError>) -> Result<
    (),
    RestoreErrorView,
> {
    match outcome {
        Ok(()) => Ok(()),
        Err(err) => Err(err@),
    }
}

/// How far bringing a session back has come.
enum RestorePhase {
    /// It is to be found out whether there is a session file.
    Checking,
    /// There is none: the open windows are to be saved.
    Saving,
    /// The session file is to be read.
    Reading,
    /// The session is to be made out of what was read.
    Loading,
    /// A program is being started; the rest is still to be done.
    Running { launch: WindowLaunch, rest: Vec<RestoreStep> },
    /// Nothing is left to do.
    Finished(Result<(), RestoreError>),
}

/// How far bringing a session back has come.
pub enum RestorePhaseView {
    Checking,
    Saving,
    Reading,
    Loading,
    Running { job: LaunchJobView, phase: PhaseView, rest: Seq<RestoreStepView> },
    Finished(Result<(), RestoreErrorView>),
}

impl RestorePhase {
    spec fn shown(self) -> RestorePhaseView {
        match self {
            RestorePhase::Checking => RestorePhaseView::Checking,
            RestorePhase::Saving => RestorePhaseView::Saving,
            RestorePhase::Reading => RestorePhaseView::Reading,
            RestorePhase::Loading => RestorePhaseView::Loading,
            RestorePhase::Running { launch, rest } => RestorePhaseView::Running {
                job: launch.job(),
                phase: launch.phase(),
                rest: rest.deep_view(),
            },
            RestorePhase::Finished(outcome) => RestorePhaseView::Finished(restored_view(outcome)),
        }
    }
}

/// What is to be done next to bring a session back.
#[derive(Debug, PartialEq, Eq)]
pub enum RestoreTask {
    /// Find out whether there is a session file.
    Check,
    /// Save the open windows; `skip_empty` is the option of that name.
    Save { skip_empty: bool },
    /// Read the session file.
    Read,
    /// Make the session out of what was read.
    Load,
    /// Do this for the program that is being started.
    Launch(Task),
    /// Nothing; it has ended like this.
    Finish(Result<(), RestoreError>),
}

/// What a [`RestoreTask`] says.
pub enum RestoreTaskView {
    Check,
    Save { skip_empty: bool },
    Read,
    Load,
    Launch(TaskView),
    Finish(Result<(), RestoreErrorView>),
}

impl View for RestoreTask {
    type V = RestoreTaskView;

    open spec fn view(&self) -> RestoreTaskView {
        match self {
            RestoreTask::Check => RestoreTaskView::Check,
            RestoreTask::Save { skip_empty } => RestoreTaskView::Save { skip_empty: *skip_empty },
            RestoreTask::Read => RestoreTaskView::Read,
            RestoreTask::Load => RestoreTaskView::Load,
            RestoreTask::Launch(task) => RestoreTaskView::Launch(task@),
            RestoreTask::Finish(outcome) => RestoreTaskView::Finish(restored_view(*outcome)),
        }
    }
}

/// How a task went.
#[derive(Debug, PartialEq, Eq)]
pub enum RestoreEvent<'a> {
    /// Whether there is a session file.
    Checked(bool),
    /// The open windows are saved, or could not be.
    Saved(Result<(), SaveError>),
    /// What the session file holds, or why it could not be read.
    Read(Result<&'a str, String>),
    /// The saved session, or why there is none in the file.
    Loaded(Result<Vec<SessionWindow<'a>>, String>),
    /// How a task of the program that is being started went.
    Launch(Event),
}

/// What a [`RestoreEvent`] says.
pub enum RestoreEventView {
    Checked(bool),
    Saved(Result<(), SaveErrorView>),
    Read(Result<Seq<char>, Seq<char>>),
    Loaded(Result<Seq<SessionWindowView>, Seq<char>>),
    Launch(EventView),
}

impl<'a> View for RestoreEvent<'a> {
    type V = RestoreEventView;

    open spec fn view(&self) -> RestoreEventView {
        match self {
            RestoreEvent::Checked(exists) => RestoreEventView::Checked(*exists),
            RestoreEvent::Saved(Ok(())) => RestoreEventView::Saved(Ok(())),
            RestoreEvent::Saved(Err(err)) => RestoreEventView::Saved(Err(err@)),
            RestoreEvent::Read(Ok(data)) => RestoreEventView::Read(Ok(data@)),
            RestoreEvent::Read(Err(e)) => RestoreEventView::Read(Err(e@)),
            RestoreEvent::Loaded(Ok(session)) => RestoreEventView::Loaded(Ok(session.deep_view())),
            RestoreEvent::Loaded(Err(e)) => RestoreEventView::Loaded(Err(e@)),
            RestoreEvent::Launch(event) => RestoreEventView::Launch(event@),
        }
    }
}

/// Whether a program that is being started has not come to its end, and its job has what its
/// phase needs.
pub open spec fn restore_fits(phase: RestorePhaseView) -> bool {
    phase matches RestorePhaseView::Running { job, phase, .. } ==> {
        &&& !(phase is Finished)
        &&& crate::launch::phase_fits(job, phase)
    }
}

/// What is to be done in a phase.
pub open spec fn restore_task_of(phase: RestorePhaseView) -> RestoreTaskView {
    match phase {
        RestorePhaseView::Checking => RestoreTaskView::Check,
        RestorePhaseView::Saving => RestoreTaskView::Save { skip_empty: false },
        RestorePhaseView::Reading => RestoreTaskView::Read,
        RestorePhaseView::Loading => RestoreTaskView::Load,
        RestorePhaseView::Running { job, phase, .. } => RestoreTaskView::Launch(
            crate::launch::task_of(job, phase),
        ),
        RestorePhaseView::Finished(outcome) => RestoreTaskView::Finish(outcome),
    }
}

/// The phase that the steps which are left begin with: that of the first program to start, or
/// the end.
pub open spec fn begin(steps: Seq<RestoreStepView>) -> RestorePhaseView
    decreases steps.len(),
{
    if steps.len() == 0 {
        RestorePhaseView::Finished(Ok(()))
    } else {
        match steps[0] {
            RestoreStepView::Skip(_) => begin(steps.drop_first()),
            RestoreStepView::Launch(job) => RestorePhaseView::Running {
                job,
                phase: PhaseView::Connecting,
                rest: steps.drop_first(),
            },
        }
    }
}

/// What the user is told up to the first program to start, or at the end.
pub open spec fn begin_notices(steps: Seq<RestoreStepView>) -> Seq<NoticeView>
    decreases steps.len(),
{
    if steps.len() == 0 {
        seq![NoticeView { level: Level::Info, text: "restored session"@ }]
    } else {
        match steps[0] {
            RestoreStepView::Skip(display) => seq![
                NoticeView { level: Level::Info, text: "skipping command: "@ + display },
            ] + begin_notices(steps.drop_first()),
            RestoreStepView::Launch(_) => Seq::empty(),
        }
    }
}

/// The phase after an event. The first program that cannot be started ends it.
pub open spec fn restore_after(
    phase: RestorePhaseView,
    skip_apps: Seq<Seq<char>>,
    event: RestoreEventView,
) -> RestorePhaseView {
    match (phase, event) {
        (RestorePhaseView::Checking, RestoreEventView::Checked(exists)) => if exists {
            RestorePhaseView::Reading
        } else {
            RestorePhaseView::Saving
        },
        (RestorePhaseView::Saving, RestoreEventView::Saved(Ok(()))) => RestorePhaseView::Finished(
            Ok(()),
        ),
        (RestorePhaseView::Saving, RestoreEventView::Saved(Err(err))) => {
            RestorePhaseView::Finished(Err(RestoreErrorView::Save(err)))
        },
        (RestorePhaseView::Reading, RestoreEventView::Read(Ok(data))) => if data.len() == 0 {
            RestorePhaseView::Finished(Ok(()))
        } else {
            RestorePhaseView::Loading
        },
        (RestorePhaseView::Reading, RestoreEventView::Read(Err(e))) => RestorePhaseView::Finished(
            Err(RestoreErrorView::Read(e)),
        ),
        (RestorePhaseView::Loading, RestoreEventView::Loaded(Ok(session))) => begin(
            restore_steps(session, skip_apps),
        ),
        (RestorePhaseView::Loading, RestoreEventView::Loaded(Err(e))) => {
            RestorePhaseView::Finished(Err(RestoreErrorView::Load(e)))
        },
        (RestorePhaseView::Running { job, phase, rest }, RestoreEventView::Launch(event)) => {
            let next = crate::launch::phase_after(job, phase, event);
            match next {
                PhaseView::Finished(Ok(())) => begin(rest),
                PhaseView::Finished(Err(err)) => RestorePhaseView::Finished(
                    Err(RestoreErrorView::Launch(err)),
                ),
                _ => RestorePhaseView::Running { job, phase: next, rest },
            }
        },
        _ => phase,
    }
}

/// What an optional notice comes to in a list.
pub open spec fn listed(notice: Option<NoticeView>) -> Seq<NoticeView> {
    match notice {
        Some(notice) => seq![notice],
        None => Seq::empty(),
    }
}

/// What the user is told about an event.
pub open spec fn restore_notices(
    phase: RestorePhaseView,
    path: Seq<char>,
    skip_apps: Seq<Seq<char>>,
    event: RestoreEventView,
) -> Seq<NoticeView> {
    match (phase, event) {
        (RestorePhaseView::Checking, RestoreEventView::Checked(true)) => seq![
            NoticeView { level: Level::Info, text: "restoring previous session"@ },
        ],
        (RestorePhaseView::Reading, RestoreEventView::Read(Ok(data))) => if data.len() == 0 {
            seq![
                NoticeView {
                    level: Level::Info,
                    text: "session file at "@ + path + " is empty"@,
                },
            ]
        } else {
            Seq::empty()
        },
        (RestorePhaseView::Loading, RestoreEventView::Loaded(Ok(session))) => begin_notices(
            restore_steps(session, skip_apps),
        ),
        (RestorePhaseView::Running { job, phase, rest }, RestoreEventView::Launch(event)) => {
            let told = listed(crate::launch::notice_after(job, phase, event));
            if crate::launch::phase_after(job, phase, event) == PhaseView::Finished(Ok(())) {
                told + begin_notices(rest)
            } else {
                told
            }
        },
        _ => Seq::empty(),
    }
}

/// A session that is being brought back.
pub struct SessionRestore<'c> {
    path: &'c str,
    skip_apps: &'c [String],
    phase: RestorePhase,
}

/// Brings back the session in the file at `path`, which is how the file is called in messages,
/// but for `skip_apps`.
pub fn restore_session<'c>(path: &'c str, skip_apps: &'c [String]) -> (res: SessionRestore<'c>)
    ensures
        res.path() == path@,
        res.skip_apps() == skip_apps.deep_view(),
        res.phase() == RestorePhaseView::Checking,
{
    SessionRestore { path, skip_apps, phase: RestorePhase::Checking }
}

/// Adds a message for the user.
fn tell(notices: &mut Vec<Notice>, level: Level, text: String)
    ensures
        final(notices).deep_view() == old(notices).deep_view().push(
            NoticeView { level, text: text@ },
        ),
{
    notices.push(Notice { level, text });
    assert(notices.deep_view() =~= old(notices).deep_view().push(NoticeView { level, text: text@ }));
}

/// Begins the first program that is left to start, and tells which are skipped before it.
fn begin_steps(steps: Vec<RestoreStep>, notices: &mut Vec<Notice>) -> (res: RestorePhase)
    ensures
        res.shown() == begin(steps.deep_view()),
        final(notices).deep_view() == old(notices).deep_view() + begin_notices(steps.deep_view()),
{
    let ghost all = steps.deep_view();
    let ghost told = notices.deep_view();
    let mut rest: Vec<RestoreStep> = steps;
    while rest.len() > 0
        invariant
            all == steps.deep_view(),
            told == old(notices).deep_view(),
            begin(all) == begin(rest.deep_view()),
            told + begin_notices(all) == notices.deep_view() + begin_notices(rest.deep_view()),
        decreases rest.len(),
    {
        let ghost before = rest.deep_view();
        let ghost so_far = notices.deep_view();
        let step: RestoreStep = rest.remove(0);
        assert(before[0] == step@);
        assert(rest.deep_view() == before.drop_first());
        match step {
            RestoreStep::Skip(display) => {
                let text: String = joined("skipping command: ", display.as_str());
                tell(notices, Level::Info, text);
                proof {
                    let notice = NoticeView { level: Level::Info, text: text@ };
                    assert(so_far + (seq![notice] + begin_notices(rest.deep_view())) == so_far.push(
                        notice,
                    ) + begin_notices(rest.deep_view()));
                }
            },
            RestoreStep::Launch(job) => {
                assert(so_far + begin_notices(before) == so_far);
                let launch: WindowLaunch = spawn_and_move_window(
                    job.launch_command,
                    job.app_id,
                    job.workspace_idx,
                    job.workspace_name,
                    job.workspace_output,
                    job.window_size,
                );
                return RestorePhase::Running { launch, rest };
            },
        }
    }
    let ghost so_far = notices.deep_view();
    tell(notices, Level::Info, "restored session".to_owned());
    proof {
        let notice = NoticeView { level: Level::Info, text: "restored session"@ };
        assert(so_far + seq![notice] == so_far.push(notice));
        assert(rest.deep_view().len() == 0);
        assert(begin_notices(rest.deep_view()) == seq![notice]);
    }
    RestorePhase::Finished(Ok(()))
}

impl<'c> SessionRestore<'c> {
    /// How the session file is called in messages.
    pub closed spec fn path(self) -> Seq<char> {
        self.path@
    }

    /// What is not brought back.
    pub closed spec fn skip_apps(self) -> Seq<Seq<char>> {
        self.skip_apps.deep_view()
    }

    /// How far bringing the session back has come.
    pub closed spec fn phase(self) -> RestorePhaseView {
        self.phase.shown()
    }

    #[verifier::type_invariant]
    spec fn fits(self) -> bool {
        restore_fits(self.phase.shown())
    }

    /// What is to be done next. A program that is being started has something left to do.
    pub fn task(&self) -> (res: RestoreTask)
        ensures
            res@ == restore_task_of(self.phase()),
            restore_fits(self.phase()),
            res@ matches RestoreTaskView::Launch(task) ==> !(task is Finish),
    {
        proof {
            use_type_invariant(self);
        }
        match &self.phase {
            RestorePhase::Checking => RestoreTask::Check,
            RestorePhase::Saving => RestoreTask::Save { skip_empty: false },
            RestorePhase::Reading => RestoreTask::Read,
            RestorePhase::Loading => RestoreTask::Load,
            RestorePhase::Running { launch, .. } => RestoreTask::Launch(launch.task()),
            RestorePhase::Finished(outcome) => match outcome {
                Ok(()) => RestoreTask::Finish(Ok(())),
                Err(err) => RestoreTask::Finish(Err(err.clone())),
            },
        }
    }

    /// Takes how the task went, and returns what the user is told about it. An event that does
    /// not belong to the task changes nothing.
    pub fn handle(self, event: RestoreEvent) -> (res: (Self, Vec<Notice>))
        ensures
            res.0.path() == self.path(),
            res.0.skip_apps() == self.skip_apps(),
            res.0.phase() == restore_after(self.phase(), self.skip_apps(), event@),
            res.1.deep_view() == restore_notices(
                self.phase(),
                self.path(),
                self.skip_apps(),
                event@,
            ),
    {
        proof {
            use_type_invariant(&self);
            law_restore_phases_fit(self.phase(), self.skip_apps(), event@);
        }
        let mut notices: Vec<Notice> = Vec::new();
        let ghost none = notices.deep_view();
        assert(none == Seq::<NoticeView>::empty());
        let SessionRestore { path, skip_apps, phase } = self;
        let phase: RestorePhase = match (phase, event) {
            (RestorePhase::Checking, RestoreEvent::Checked(exists)) => {
                if exists {
                    tell(&mut notices, Level::Info, "restoring previous session".to_owned());
                    RestorePhase::Reading
                } else {
                    RestorePhase::Saving
                }
            },
            (RestorePhase::Saving, RestoreEvent::Saved(saved)) => match saved {
                Ok(()) => RestorePhase::Finished(Ok(())),
                Err(err) => RestorePhase::Finished(Err(RestoreError::Save(err))),
            },
            (RestorePhase::Reading, RestoreEvent::Read(read)) => match read {
                Ok(data) => {
                    if data.is_empty() {
                        let text: String = joined(
                            joined("session file at ", path).as_str(),
                            " is empty",
                        );
                        tell(&mut notices, Level::Info, text);
                        RestorePhase::Finished(Ok(()))
                    } else {
                        RestorePhase::Loading
                    }
                },
                Err(e) => RestorePhase::Finished(Err(RestoreError::Read(e))),
            },
            (RestorePhase::Loading, RestoreEvent::Loaded(loaded)) => match loaded {
                Ok(session) => {
                    let steps: Vec<RestoreStep> = plan_restore(session, skip_apps);
                    let phase: RestorePhase = begin_steps(steps, &mut notices);
                    assert(none + begin_notices(steps.deep_view()) == begin_notices(
                        steps.deep_view(),
                    ));
                    phase
                },
                Err(e) => RestorePhase::Finished(Err(RestoreError::Load(e))),
            },
            (RestorePhase::Running { launch, rest }, RestoreEvent::Launch(event)) => {
                let mut launch: WindowLaunch = launch;
                let notice: Option<Notice> = launch.handle(event);
                let ghost told = listed(notice.deep_view());
                if let Some(notice) = notice {
                    tell(&mut notices, notice.level, notice.text);
                }
                assert(notices.deep_view() == told);
                match launch.outcome() {
                    None => RestorePhase::Running { launch, rest },
                    Some(Ok(())) => begin_steps(rest, &mut notices),
                    Some(Err(err)) => RestorePhase::Finished(Err(RestoreError::Launch(err))),
                }
            },
            (phase, _) => phase,
        };
        (SessionRestore { path, skip_apps, phase }, notices)
    }
}

/// Without a list nothing is skipped.
pub proof fn law_empty_list_skips_nothing(command: LaunchCommandView, app_id: Option<Seq<char>>)
    ensures
        !skipped(command, app_id, Seq::empty()),
{
}

/// What is skipped stays skipped when the list grows.
pub proof fn law_longer_list_skips_more(
    command: LaunchCommandView,
    app_id: Option<Seq<char>>,
    skip_apps: Seq<Seq<char>>,
    more: Seq<Seq<char>>,
)
    requires
        skipped(command, app_id, skip_apps),
        forall|app: Seq<char>| #[trigger] skip_apps.contains(app) ==> more.contains(app),
    ensures
        skipped(command, app_id, more),
{
}

/// What an element is mapped to is among what all are mapped to.
proof fn lemma_filter_map_has<A, B>(s: Seq<A>, f: spec_fn(A) -> Option<B>, i: int)
    requires
        0 <= i < s.len(),
        f(s[i]) is Some,
    ensures
        s.filter_map(f).contains(f(s[i])->0),
    decreases s.len(),
{
    let rest = s.drop_last();
    let res = s.filter_map(f);
    if i == s.len() - 1 {
        assert(res[res.len() - 1] == f(s[i])->0);
    } else {
        lemma_filter_map_has(rest, f, i);
        assert(rest[i] == s[i]);
        let k = choose|k: int|
            0 <= k < rest.filter_map(f).len() && rest.filter_map(f)[k] == f(s[i])->0;
        assert(res[k] == f(s[i])->0);
    }
}

/// What comes first of two mapped elements comes from an earlier element.
proof fn lemma_filter_map_order<A, B>(s: Seq<A>, f: spec_fn(A) -> Option<B>, a: int, b: int) -> (res:
    (int, int))
    requires
        0 <= a < b < s.filter_map(f).len(),
    ensures
        0 <= res.0 < res.1 < s.len(),
        f(s[res.0]) == Some(s.filter_map(f)[a]),
        f(s[res.1]) == Some(s.filter_map(f)[b]),
    decreases s.len(),
{
    let rest = s.drop_last();
    if f(s.last()) is Some && b == s.filter_map(f).len() - 1 {
        let before = rest.filter_map(f);
        assert(before.contains(before[a]));
        rest.lemma_filter_map_contains(f, before[a]);
        let w = choose|w: A| #[trigger] rest.contains(w) && f(w) == Some(before[a]);
        let i = choose|i: int| 0 <= i < rest.len() && rest[i] == w;
        assert(s[i] == rest[i]);
        (i, s.len() - 1)
    } else {
        let res = lemma_filter_map_order(rest, f, a, b);
        assert(rest[res.0] == s[res.0] && rest[res.1] == s[res.1]);
        res
    }
}

/// A window that was saved comes back: its program is started with the command for it, and its
/// window goes to the workspace, output and size that it had, unless it is to be skipped.
pub proof fn law_saved_windows_come_back(
    windows: Seq<WindowView>,
    workspaces: Seq<WorkspaceView>,
    config: ConfigView,
    i: int,
    app_id: Seq<char>,
)
    requires
        0 <= i < windows.len(),
        windows[i].app_id == Some(app_id),
        !skipped(config.command_for(app_id), Some(app_id), config.skip_apps),
    ensures
        ({
            let session = crate::session::saved_session(windows, workspaces, config);
            let workspace = crate::session::workspace_of(windows[i].workspace_id, workspaces);
            restore_steps(session, config.skip_apps).contains(
                RestoreStepView::Launch(
                    LaunchJobView {
                        launch_command: config.command_for(app_id),
                        app_id,
                        workspace_idx: match workspace {
                            Some(w) => Some(w.idx),
                            None => None,
                        },
                        workspace_name: match workspace {
                            Some(w) => w.name,
                            None => None,
                        },
                        workspace_output: match workspace {
                            Some(w) => w.output,
                            None => None,
                        },
                        window_size: Some(windows[i].window_size),
                    },
                ),
            )
        }),
{
    broadcast use vstd::seq_lib::group_to_multiset_ensures;

    let session = crate::session::saved_session(windows, workspaces, config);
    let ordered = crate::order::restore_sequence(session);
    let f = |window: SessionWindowView| step_of(window, config.skip_apps);
    crate::order::law_restore_sequence_is_in_order(session);
    crate::order::law_restore_order_keeps_windows(session, ordered);
    assert(session.contains(session[i]));
    assert(ordered.to_multiset().count(session[i]) > 0);
    assert(ordered.contains(session[i]));
    let k = choose|k: int| 0 <= k < ordered.len() && ordered[k] == session[i];
    lemma_filter_map_has(ordered, f, k);
}

/// What one element adds to what all are mapped to, wherever it stands.
proof fn lemma_filter_map_remove<A, B>(s: Seq<A>, f: spec_fn(A) -> Option<B>, k: int)
    requires
        0 <= k < s.len(),
    ensures
        s.filter_map(f).to_multiset() == match f(s[k]) {
            Some(b) => s.remove(k).filter_map(f).to_multiset().insert(b),
            None => s.remove(k).filter_map(f).to_multiset(),
        },
    decreases s.len(),
{
    broadcast use vstd::seq_lib::group_to_multiset_ensures;

    let rest = s.drop_last();
    let less = s.remove(k);
    if k == s.len() - 1 {
        assert(less == rest);
        if let Some(b) = f(s[k]) {
            assert(s.filter_map(f) == rest.filter_map(f).push(b));
        }
    } else {
        lemma_filter_map_remove(rest, f, k);
        assert(rest[k] == s[k]);
        assert(less.drop_last() == rest.remove(k));
        assert(less.last() == s.last());
        if let Some(b) = f(s.last()) {
            assert(s.filter_map(f) == rest.filter_map(f).push(b));
            assert(less.filter_map(f) == rest.remove(k).filter_map(f).push(b));
            if let Some(a) = f(s[k]) {
                let m = rest.remove(k).filter_map(f).to_multiset();
                assert(m.insert(a).insert(b) =~= m.insert(b).insert(a));
            }
        }
    }
}

/// The order of the elements does not matter for what they are mapped to, each as often as it
/// occurs.
proof fn lemma_filter_map_multiset<A, B>(s: Seq<A>, t: Seq<A>, f: spec_fn(A) -> Option<B>)
    requires
        s.to_multiset() == t.to_multiset(),
    ensures
        s.filter_map(f).to_multiset() == t.filter_map(f).to_multiset(),
    decreases s.len(),
{
    broadcast use vstd::seq_lib::group_to_multiset_ensures;

    assert(s.len() == s.to_multiset().len());
    assert(t.len() == t.to_multiset().len());
    if s.len() == 0 {
        assert(s == t);
    } else {
        let n = s.len() - 1;
        assert(s.contains(s[n]));
        assert(s.to_multiset().count(s[n]) > 0);
        assert(t.contains(s[n]));
        let k = choose|k: int| 0 <= k < t.len() && t[k] == s[n];
        assert(s.remove(n).to_multiset() == t.remove(k).to_multiset());
        lemma_filter_map_multiset(s.remove(n), t.remove(k), f);
        lemma_filter_map_remove(s, f, n);
        lemma_filter_map_remove(t, f, k);
    }
}

/// What is mapped twice can be mapped at once.
proof fn lemma_filter_map_of_map<A, B, C>(
    s: Seq<A>,
    g: spec_fn(A) -> B,
    f: spec_fn(B) -> Option<C>,
    h: spec_fn(A) -> Option<C>,
)
    requires
        forall|a: A| #[trigger] h(a) == f(g(a)),
    ensures
        s.map_values(g).filter_map(f) == s.filter_map(h),
    decreases s.len(),
{
    if s.len() > 0 {
        lemma_filter_map_of_map(s.drop_last(), g, f, h);
        assert(s.map_values(g).drop_last() == s.drop_last().map_values(g));
        assert(h(s.last()) == f(g(s.last())));
    }
}

/// What is kept can be mapped on as it is kept.
proof fn lemma_map_of_filter_map<A, B, C>(
    s: Seq<A>,
    f: spec_fn(A) -> Option<B>,
    g: spec_fn(B) -> C,
    h: spec_fn(A) -> Option<C>,
)
    requires
        forall|a: A| #[trigger]
            h(a) == match f(a) {
                Some(b) => Some(g(b)),
                None => None,
            },
    ensures
        s.filter_map(f).map_values(g) == s.filter_map(h),
    decreases s.len(),
{
    if s.len() > 0 {
        let rest = s.drop_last();
        lemma_map_of_filter_map(rest, f, g, h);
        assert(h(s.last()) == match f(s.last()) {
            Some(b) => Some(g(b)),
            None => None,
        });
        if let Some(b) = f(s.last()) {
            assert((rest.filter_map(f) + seq![b]).map_values(g) == rest.filter_map(f).map_values(g)
                + seq![g(b)]);
        }
    }
}

/// The program that a step starts, if any.
pub open spec fn launched(step: RestoreStepView) -> Option<LaunchJobView> {
    match step {
        RestoreStepView::Skip(_) => None,
        RestoreStepView::Launch(job) => Some(job),
    }
}

proof fn lemma_launches_push(steps: Seq<RestoreStepView>, step: RestoreStepView)
    ensures
        launches(steps.push(step)) == launches(steps) + match launched(step) {
            Some(job) => seq![job],
            None => Seq::empty(),
        },
    decreases steps.len(),
{
    let all = steps.push(step);
    if steps.len() == 0 {
        assert(all.drop_first() == steps);
    } else {
        lemma_launches_push(steps.drop_first(), step);
        assert(all.drop_first() == steps.drop_first().push(step));
        assert(all[0] == steps[0]);
    }
}

/// The program that is started for a saved window, if any.
pub open spec fn launch_for(
    window: SessionWindowView,
    skip_apps: Seq<Seq<char>>,
) -> Option<LaunchJobView> {
    match step_of(window, skip_apps) {
        Some(step) => launched(step),
        None => None,
    }
}

proof fn lemma_launches_of_windows(windows: Seq<SessionWindowView>, skip_apps: Seq<Seq<char>>)
    ensures
        launches(windows.filter_map(|w: SessionWindowView| step_of(w, skip_apps)))
            == windows.filter_map(|w: SessionWindowView| launch_for(w, skip_apps)),
    decreases windows.len(),
{
    let f = |w: SessionWindowView| step_of(w, skip_apps);
    if windows.len() > 0 {
        let rest = windows.drop_last();
        lemma_launches_of_windows(rest, skip_apps);
        if let Some(step) = f(windows.last()) {
            lemma_launches_push(rest.filter_map(f), step);
            assert(windows.filter_map(f) == rest.filter_map(f).push(step));
        }
    }
}

/// Each saved window is brought back as often as it was saved: the programs that are started
/// are those of the saved windows, one for each window that has one.
pub proof fn law_each_saved_window_is_started_once(
    session: Seq<SessionWindowView>,
    skip_apps: Seq<Seq<char>>,
)
    ensures
        launches(restore_steps(session, skip_apps)).to_multiset() == session.filter_map(
            |w: SessionWindowView| launch_for(w, skip_apps),
        ).to_multiset(),
{
    let ordered = crate::order::restore_sequence(session);
    crate::order::law_restore_sequence_is_in_order(session);
    crate::order::law_restore_order_keeps_windows(session, ordered);
    lemma_launches_of_windows(ordered, skip_apps);
    lemma_filter_map_multiset(
        ordered,
        session,
        |w: SessionWindowView| launch_for(w, skip_apps),
    );
}

/// How the program of an open window is started after it was saved, if it is: with the command
/// for its application, and for the workspace, output and size that the window has.
pub open spec fn launch_after_save(
    window: WindowView,
    workspaces: Seq<WorkspaceView>,
    config: ConfigView,
) -> Option<LaunchJobView> {
    let workspace = crate::session::workspace_of(window.workspace_id, workspaces);
    match window.app_id {
        None => None,
        Some(app_id) => if skipped(config.command_for(app_id), Some(app_id), config.skip_apps) {
            None
        } else {
            Some(
                LaunchJobView {
                    launch_command: config.command_for(app_id),
                    app_id,
                    workspace_idx: match workspace {
                        Some(w) => Some(w.idx),
                        None => None,
                    },
                    workspace_name: match workspace {
                        Some(w) => w.name,
                        None => None,
                    },
                    workspace_output: match workspace {
                        Some(w) => w.output,
                        None => None,
                    },
                    window_size: Some(window.window_size),
                },
            )
        },
    }
}

/// What was saved comes back, no more and no less: the programs that are started are, each as
/// often as it occurs, those of the windows that have an application id and are not to be
/// skipped.
pub proof fn law_saved_windows_come_back_once(
    windows: Seq<WindowView>,
    workspaces: Seq<WorkspaceView>,
    config: ConfigView,
)
    ensures
        launches(
            restore_steps(
                crate::session::saved_session(windows, workspaces, config),
                config.skip_apps,
            ),
        ).to_multiset() == windows.filter_map(
            |w: WindowView| launch_after_save(w, workspaces, config),
        ).to_multiset(),
{
    let session = crate::session::saved_session(windows, workspaces, config);
    law_each_saved_window_is_started_once(session, config.skip_apps);
    lemma_filter_map_of_map(
        windows,
        |w: WindowView| crate::session::saved_window(w, workspaces, config),
        |w: SessionWindowView| launch_for(w, config.skip_apps),
        |w: WindowView| launch_after_save(w, workspaces, config),
    );
}

/// With nothing to skip, the commands that are run are, each as often as it occurs, those for
/// the application ids of the saved windows: one for each window that has an id.
pub proof fn law_one_command_for_each_window(
    windows: Seq<WindowView>,
    workspaces: Seq<WorkspaceView>,
    config: ConfigView,
)
    requires
        config.skip_apps.len() == 0,
    ensures
        launches(
            restore_steps(
                crate::session::saved_session(windows, workspaces, config),
                config.skip_apps,
            ),
        ).map_values(|job: LaunchJobView| job.launch_command).to_multiset() == windows.filter_map(
            |w: WindowView|
                match w.app_id {
                    Some(app_id) => Some(config.command_for(app_id)),
                    None => None,
                },
        ).to_multiset(),
{
    let session = crate::session::saved_session(windows, workspaces, config);
    let jobs = launches(restore_steps(session, config.skip_apps));
    let f = |w: WindowView| launch_after_save(w, workspaces, config);
    let command = |job: LaunchJobView| job.launch_command;
    let some_command = |job: LaunchJobView| Some(job.launch_command);
    let h = |w: WindowView|
        match w.app_id {
            Some(app_id) => Some(config.command_for(app_id)),
            None => None,
        };
    law_saved_windows_come_back_once(windows, workspaces, config);
    lemma_filter_map_multiset(jobs, windows.filter_map(f), some_command);
    lemma_map_is_filter_map(jobs, command, some_command);
    lemma_map_is_filter_map(windows.filter_map(f), command, some_command);
    lemma_map_of_filter_map(windows, f, command, h);
}

/// Mapping every element is keeping them all.
proof fn lemma_map_is_filter_map<A, B>(s: Seq<A>, g: spec_fn(A) -> B, h: spec_fn(A) -> Option<B>)
    requires
        forall|a: A| #[trigger] h(a) == Some(g(a)),
    ensures
        s.filter_map(h) == s.map_values(g),
    decreases s.len(),
{
    if s.len() > 0 {
        lemma_map_is_filter_map(s.drop_last(), g, h);
        assert(h(s.last()) == Some(g(s.last())));
        assert(s.map_values(g) == s.drop_last().map_values(g) + seq![g(s.last())]);
    }
}

/// Only what was saved is started: each program that is started belongs to a saved window that
/// names its command and its application and is not to be skipped.
pub proof fn law_only_saved_windows_come_back(
    session: Seq<SessionWindowView>,
    skip_apps: Seq<Seq<char>>,
    job: LaunchJobView,
)
    requires
        restore_steps(session, skip_apps).contains(RestoreStepView::Launch(job)),
    ensures
        !skipped(job.launch_command, Some(job.app_id), skip_apps),
        exists|w: SessionWindowView|
            {
                &&& #[trigger] session.contains(w)
                &&& w.launch_command == Some(job.launch_command)
                &&& w.app_id == Some(job.app_id)
                &&& job == job_of(w, job.launch_command, job.app_id)
            },
{
    broadcast use vstd::seq_lib::group_to_multiset_ensures;

    let ordered = crate::order::restore_sequence(session);
    let f = |window: SessionWindowView| step_of(window, skip_apps);
    crate::order::law_restore_sequence_is_in_order(session);
    crate::order::law_restore_order_keeps_windows(session, ordered);
    ordered.lemma_filter_map_contains(f, RestoreStepView::Launch(job));
    let w = choose|w: SessionWindowView| #[trigger]
        ordered.contains(w) && f(w) == Some(RestoreStepView::Launch(job));
    assert(session.to_multiset().count(w) > 0);
    assert(session.contains(w));
}

/// Programs are started output by output, and on each output from the lowest workspace index
/// up.
pub proof fn law_lower_workspaces_first(
    session: Seq<SessionWindowView>,
    skip_apps: Seq<Seq<char>>,
    a: int,
    b: int,
    first: LaunchJobView,
    second: LaunchJobView,
)
    requires
        0 <= a < b < restore_steps(session, skip_apps).len(),
        restore_steps(session, skip_apps)[a] == RestoreStepView::Launch(first),
        restore_steps(session, skip_apps)[b] == RestoreStepView::Launch(second),
    ensures
        first.workspace_output == second.workspace_output ==> crate::order::idx_le(
            first.workspace_idx,
            second.workspace_idx,
        ),
        crate::order::output_le(first.workspace_output, second.workspace_output),
{
    let ordered = crate::order::restore_sequence(session);
    let f = |window: SessionWindowView| step_of(window, skip_apps);
    crate::order::law_restore_sequence_is_in_order(session);
    let (i, j) = lemma_filter_map_order(ordered, f, a, b);
    assert(crate::order::place_le(ordered[i], ordered[j]));
    if first.workspace_output == second.workspace_output && first.workspace_output is Some {
        crate::text::lemma_text_le_total(first.workspace_output->0, first.workspace_output->0);
    }
}

/// The programs that steps start.
pub open spec fn launches(steps: Seq<RestoreStepView>) -> Seq<LaunchJobView>
    decreases steps.len(),
{
    if steps.len() == 0 {
        Seq::empty()
    } else {
        match steps[0] {
            RestoreStepView::Skip(_) => launches(steps.drop_first()),
            RestoreStepView::Launch(job) => seq![job] + launches(steps.drop_first()),
        }
    }
}

/// No program is left out: steps begin with their first program and go on with the others, and
/// where there is none bringing the session back has succeeded.
pub proof fn law_launches_in_order(steps: Seq<RestoreStepView>)
    ensures
        match begin(steps) {
            RestorePhaseView::Running { job, phase, rest } => {
                &&& phase == PhaseView::Connecting
                &&& launches(steps) == seq![job] + launches(rest)
            },
            RestorePhaseView::Finished(outcome) => outcome == Ok::<(), RestoreErrorView>(())
                && launches(steps).len() == 0,
            _ => false,
        },
    decreases steps.len(),
{
    if steps.len() > 0 && steps[0] is Skip {
        law_launches_in_order(steps.drop_first());
    }
}

/// Whatever happens, a program that is being started is never left at its end, and its job has
/// what its phase needs.
pub proof fn law_restore_phases_fit(
    phase: RestorePhaseView,
    skip_apps: Seq<Seq<char>>,
    event: RestoreEventView,
)
    requires
        restore_fits(phase),
    ensures
        restore_fits(restore_after(phase, skip_apps, event)),
{
    match (phase, event) {
        (RestorePhaseView::Loading, RestoreEventView::Loaded(Ok(session))) => {
            law_launches_in_order(restore_steps(session, skip_apps));
        },
        (RestorePhaseView::Running { job, phase, rest }, RestoreEventView::Launch(event)) => {
            crate::launch::law_phases_fit(job, phase, event);
            law_launches_in_order(rest);
        },
        _ => {},
    }
}

/// How many tasks are left to start the programs.
pub open spec fn restore_tasks_left(phase: RestorePhaseView) -> int {
    match phase {
        RestorePhaseView::Running { phase, rest, .. } => crate::launch::tasks_left(phase)
            + launches(rest).len() * crate::launch::tasks_left(PhaseView::Connecting),
        _ => 0,
    }
}

/// Bringing a session back ends: every task that is done leaves fewer to do.
pub proof fn law_restore_ends(
    job: LaunchJobView,
    phase: PhaseView,
    rest: Seq<RestoreStepView>,
    skip_apps: Seq<Seq<char>>,
    event: EventView,
)
    requires
        crate::launch::phase_fits(job, phase),
        crate::launch::answers(phase, event),
    ensures
        ({
            let before = RestorePhaseView::Running { job, phase, rest };
            let after = restore_after(before, skip_apps, RestoreEventView::Launch(event));
            0 <= restore_tasks_left(after) < restore_tasks_left(before)
        }),
{
    reveal_with_fuel(crate::launch::all_answer, 2);
    crate::launch::law_launch_ends(job, phase, seq![event]);
    let next = crate::launch::phase_after(job, phase, event);
    reveal_with_fuel(crate::launch::phase_after_all, 2);
    assert(crate::launch::phase_after_all(job, phase, seq![event]) == next);
    crate::launch::law_phases_fit(job, phase, event);
    crate::launch::law_launch_ends(job, next, Seq::empty());
    law_launches_in_order(rest);
    let whole = crate::launch::tasks_left(PhaseView::Connecting);
    if let RestorePhaseView::Running { rest: others, .. } = begin(rest) {
        assert(launches(rest).len() == 1 + launches(others).len());
        assert(launches(rest).len() * whole == whole + launches(others).len() * whole)
            by (nonlinear_arith)
            requires
                launches(rest).len() == 1 + launches(others).len(),
        ;
        assert(launches(others).len() * whole >= 0) by (nonlinear_arith)
            requires
                whole >= 0,
        ;
    }
    assert(launches(rest).len() * whole >= 0) by (nonlinear_arith)
        requires
            whole >= 0,
    ;
}

/// The first program that cannot be started is the last that is tried.
pub proof fn law_first_failure_ends(
    job: LaunchJobView,
    phase: PhaseView,
    rest: Seq<RestoreStepView>,
    skip_apps: Seq<Seq<char>>,
    event: EventView,
    err: LaunchErrorView,
    later: RestoreEventView,
)
    requires
        crate::launch::phase_after(job, phase, event) == PhaseView::Finished(Err(err)),
    ensures
        ({
            let failed = restore_after(
                RestorePhaseView::Running { job, phase, rest },
                skip_apps,
                RestoreEventView::Launch(event),
            );
            &&& failed == RestorePhaseView::Finished(Err(RestoreErrorView::Launch(err)))
            &&& restore_after(failed, skip_apps, later) == failed
        }),
{
}

/// Whether the event tells how the task of the phase went.
pub open spec fn restore_answers(phase: RestorePhaseView, event: RestoreEventView) -> bool {
    match phase {
        RestorePhaseView::Checking => event is Checked,
        RestorePhaseView::Saving => event is Saved,
        RestorePhaseView::Reading => event is Read,
        RestorePhaseView::Loading => event is Loaded,
        RestorePhaseView::Running { phase, .. } => event matches RestoreEventView::Launch(e)
            && crate::launch::answers(phase, e),
        RestorePhaseView::Finished(_) => false,
    }
}

/// Whether each event tells how the task went that was to be done when it came.
pub open spec fn restore_all_answer(
    phase: RestorePhaseView,
    skip_apps: Seq<Seq<char>>,
    events: Seq<RestoreEventView>,
) -> bool
    decreases events.len(),
{
    events.len() > 0 ==> {
        &&& restore_answers(phase, events[0])
        &&& restore_all_answer(
            restore_after(phase, skip_apps, events[0]),
            skip_apps,
            events.drop_first(),
        )
    }
}

/// The phase after several events.
pub open spec fn restore_after_all(
    phase: RestorePhaseView,
    skip_apps: Seq<Seq<char>>,
    events: Seq<RestoreEventView>,
) -> RestorePhaseView
    decreases events.len(),
{
    if events.len() == 0 {
        phase
    } else {
        restore_after_all(
            restore_after(phase, skip_apps, events[0]),
            skip_apps,
            events.drop_first(),
        )
    }
}

/// The programs that are begun on the way through `events`.
pub open spec fn begun(
    phase: RestorePhaseView,
    skip_apps: Seq<Seq<char>>,
    events: Seq<RestoreEventView>,
) -> Seq<LaunchJobView>
    decreases events.len(),
{
    if events.len() == 0 {
        Seq::empty()
    } else {
        let next = restore_after(phase, skip_apps, events[0]);
        let later = begun(next, skip_apps, events.drop_first());
        match next {
            RestorePhaseView::Running { job, phase: PhaseView::Connecting, .. } => seq![job]
                + later,
            _ => later,
        }
    }
}

/// At the end nothing is left to be answered, and no program is begun.
proof fn lemma_end_begins_nothing(
    phase: RestorePhaseView,
    skip_apps: Seq<Seq<char>>,
    events: Seq<RestoreEventView>,
)
    requires
        phase is Finished,
        restore_all_answer(phase, skip_apps, events),
    ensures
        events.len() == 0,
        begun(phase, skip_apps, events) == Seq::<LaunchJobView>::empty(),
{
    if events.len() > 0 {
        assert(restore_answers(phase, events[0]));
    }
}

proof fn lemma_rest_is_begun(
    job: LaunchJobView,
    phase: PhaseView,
    rest: Seq<RestoreStepView>,
    skip_apps: Seq<Seq<char>>,
    events: Seq<RestoreEventView>,
)
    requires
        ({
            let start = RestorePhaseView::Running { job, phase, rest };
            &&& restore_all_answer(start, skip_apps, events)
            &&& restore_after_all(start, skip_apps, events) == RestorePhaseView::Finished(Ok(()))
        }),
    ensures
        begun(RestorePhaseView::Running { job, phase, rest }, skip_apps, events) == launches(rest),
    decreases events.len(),
{
    let start = RestorePhaseView::Running { job, phase, rest };
    let next = restore_after(start, skip_apps, events[0]);
    let later = events.drop_first();
    assert(events.len() > 0);
    assert(restore_answers(start, events[0]));
    assert(restore_all_answer(next, skip_apps, later));
    assert(restore_after_all(next, skip_apps, later) == RestorePhaseView::Finished(Ok(())));
    law_launches_in_order(rest);
    match next {
        RestorePhaseView::Running { job: j, phase: p, rest: r } => {
            lemma_rest_is_begun(j, p, r, skip_apps, later);
            if p == PhaseView::Connecting {
                assert(begun(start, skip_apps, events) == seq![j] + begun(next, skip_apps, later));
            } else {
                assert(begun(start, skip_apps, events) == begun(next, skip_apps, later));
            }
        },
        _ => {
            lemma_end_begins_nothing(next, skip_apps, later);
        },
    }
}

/// However the tasks go, starting the programs of a session takes no more of them than
/// `restore_tasks_left` says.
pub proof fn law_restore_is_bounded(
    phase: RestorePhaseView,
    skip_apps: Seq<Seq<char>>,
    events: Seq<RestoreEventView>,
)
    requires
        phase is Running,
        restore_fits(phase),
        restore_all_answer(phase, skip_apps, events),
    ensures
        events.len() + restore_tasks_left(restore_after_all(phase, skip_apps, events))
            <= restore_tasks_left(phase),
    decreases events.len(),
{
    if events.len() > 0 {
        if let RestorePhaseView::Running { job, phase: p, rest } = phase {
            assert(restore_answers(phase, events[0]));
            let event = events[0]->Launch_0;
            let next = restore_after(phase, skip_apps, events[0]);
            let later = events.drop_first();
            law_restore_ends(job, p, rest, skip_apps, event);
            law_restore_phases_fit(phase, skip_apps, events[0]);
            law_launches_in_order(rest);
            assert(restore_all_answer(next, skip_apps, later));
            assert(restore_after_all(phase, skip_apps, events) == restore_after_all(
                next,
                skip_apps,
                later,
            ));
            if next is Running {
                law_restore_is_bounded(next, skip_apps, later);
            } else {
                lemma_end_begins_nothing(next, skip_apps, later);
                assert(restore_after_all(next, skip_apps, later) == next);
            }
        }
    }
}

/// If bringing a session back succeeds, every program that it has to start was begun, in their
/// order and each once.
pub proof fn law_success_means_all_were_begun(
    session: Seq<SessionWindowView>,
    skip_apps: Seq<Seq<char>>,
    events: Seq<RestoreEventView>,
)
    requires
        events.len() > 0,
        events[0] == RestoreEventView::Loaded(Ok(session)),
        restore_all_answer(RestorePhaseView::Loading, skip_apps, events),
        restore_after_all(RestorePhaseView::Loading, skip_apps, events)
            == RestorePhaseView::Finished(Ok(())),
    ensures
        begun(RestorePhaseView::Loading, skip_apps, events) == launches(
            restore_steps(session, skip_apps),
        ),
{
    let steps = restore_steps(session, skip_apps);
    let later = events.drop_first();
    let next = begin(steps);
    assert(restore_all_answer(next, skip_apps, later));
    assert(restore_after_all(next, skip_apps, later) == RestorePhaseView::Finished(Ok(())));
    law_launches_in_order(steps);
    match next {
        RestorePhaseView::Running { job, phase, rest } => {
            lemma_rest_is_begun(job, phase, rest, skip_apps, later);
            assert(begun(RestorePhaseView::Loading, skip_apps, events) == seq![job] + begun(
                next,
                skip_apps,
                later,
            ));
        },
        _ => {
            lemma_end_begins_nothing(next, skip_apps, later);
        },
    }
}

/// Without a session file the open windows are saved, even if there are none, and that is all:
/// no program is begun, and how the save went is how bringing the session back has ended.
pub proof fn law_without_a_file_the_session_is_saved(
    skip_apps: Seq<Seq<char>>,
    events: Seq<RestoreEventView>,
    windows: Seq<WindowView>,
    workspaces: Seq<WorkspaceView>,
    config: ConfigView,
)
    requires
        events.len() > 0,
        events[0] == RestoreEventView::Checked(false),
        restore_all_answer(RestorePhaseView::Checking, skip_apps, events),
    ensures
        ({
            let task = restore_task_of(
                restore_after(RestorePhaseView::Checking, skip_apps, events[0]),
            );
            task matches RestoreTaskView::Save { skip_empty } && crate::save::save_outcome(
                windows,
                workspaces,
                config,
                skip_empty,
            ) == SaveOutcome::Write(
                crate::session::saved_session(windows, workspaces, config),
            )
        }),
        begun(RestorePhaseView::Checking, skip_apps, events) == Seq::<LaunchJobView>::empty(),
        events.len() <= 2,
        events.len() == 2 ==> (events[1] matches RestoreEventView::Saved(saved)
            && restore_after_all(RestorePhaseView::Checking, skip_apps, events)
            == RestorePhaseView::Finished(
            match saved {
                Ok(()) => Ok(()),
                Err(err) => Err(RestoreErrorView::Save(err)),
            },
        )),
{
    let later = events.drop_first();
    let saving = RestorePhaseView::Saving;
    assert(restore_all_answer(saving, skip_apps, later));
    assert(begun(RestorePhaseView::Checking, skip_apps, events) == begun(
        saving,
        skip_apps,
        later,
    ));
    assert(restore_after_all(RestorePhaseView::Checking, skip_apps, events) == restore_after_all(
        saving,
        skip_apps,
        later,
    ));
    if later.len() > 0 {
        let rest = later.drop_first();
        let end = restore_after(saving, skip_apps, later[0]);
        assert(later[0] == events[1]);
        assert(restore_answers(saving, later[0]));
        assert(restore_all_answer(end, skip_apps, rest));
        lemma_end_begins_nothing(end, skip_apps, rest);
        assert(begun(saving, skip_apps, later) == begun(end, skip_apps, rest));
        assert(restore_after_all(saving, skip_apps, later) == restore_after_all(
            end,
            skip_apps,
            rest,
        ));
        assert(restore_after_all(end, skip_apps, rest) == end);
    }
}

/// An empty session file is left alone: nothing is begun, and bringing the session back has
/// succeeded.
pub proof fn law_empty_file_is_left_alone(skip_apps: Seq<Seq<char>>)
    ensures
        restore_after(
            RestorePhaseView::Reading,
            skip_apps,
            RestoreEventView::Read(Ok(Seq::empty())),
        ) == RestorePhaseView::Finished(Ok(())),
{
}

/// A program is skipped exactly if the list has its application id, the whole command as it is
/// shown, or the first of the arguments that it is started with, whichever way the command is
/// given.
pub proof fn law_skipped_by_id_command_or_program(
    command: LaunchCommandView,
    app_id: Option<Seq<char>>,
    skip_apps: Seq<Seq<char>>,
    id: Seq<char>,
)
    ensures
        skip_apps.contains(id) ==> skipped(command, Some(id), skip_apps),
        skip_apps.contains(command.display()) ==> skipped(command, app_id, skip_apps),
        command.argv().len() > 0 && skip_apps.contains(command.argv()[0]) ==> skipped(
            command,
            app_id,
            skip_apps,
        ),
        skipped(command, app_id, skip_apps) ==> {
            ||| app_id is Some && skip_apps.contains(app_id->0)
            ||| skip_apps.contains(command.display())
            ||| command.argv().len() > 0 && skip_apps.contains(command.argv()[0])
        },
{
}

/// Commands with the same arguments are skipped alike by the name of their program, and commands
/// that are shown alike too are skipped alike altogether.
pub proof fn law_same_commands_are_skipped_alike(
    a: LaunchCommandView,
    b: LaunchCommandView,
    app_id: Option<Seq<char>>,
    program: Seq<char>,
    skip_apps: Seq<Seq<char>>,
)
    requires
        a.argv() == b.argv(),
    ensures
        a.argv().len() > 0 && a.argv()[0] == program ==> skipped(a, app_id, seq![program])
            && skipped(b, app_id, seq![program]),
        a.display() == b.display() ==> skipped(a, app_id, skip_apps) == skipped(
            b,
            app_id,
            skip_apps,
        ),
{
    assert(seq![program][0] == program);
    assert(seq![program].contains(program));
}

/// Only the entries of the list matter, not their order or number: what two lists skip together
/// is what their concatenation skips.
pub proof fn law_lists_skip_together(
    command: LaunchCommandView,
    app_id: Option<Seq<char>>,
    some: Seq<Seq<char>>,
    others: Seq<Seq<char>>,
)
    ensures
        skipped(command, app_id, some + others) == (skipped(command, app_id, some) || skipped(
            command,
            app_id,
            others,
        )),
{
    assert forall|s: Seq<char>| #[trigger] (some + others).contains(s) == (some.contains(s)
        || others.contains(s)) by {
        let all = some + others;
        if some.contains(s) {
            let k = choose|k: int| 0 <= k < some.len() && some[k] == s;
            assert(all[k] == s);
        }
        if others.contains(s) {
            let k = choose|k: int| 0 <= k < others.len() && others[k] == s;
            assert(all[some.len() + k] == s);
        }
        if all.contains(s) {
            let k = choose|k: int| 0 <= k < all.len() && all[k] == s;
            if k < some.len() {
                assert(some[k] == s);
            } else {
                assert(others[k - some.len()] == s);
            }
        }
    }
}

/// What is done for a saved window. Without a command there is nothing to do. A command that the
/// list names by id, as it is shown or by its program is skipped. Any other is started, if the
/// application id is known, with that command and for the place and size that were saved.
pub proof fn law_step_of_a_saved_window(
    window: SessionWindowView,
    command: LaunchCommandView,
    app_id: Seq<char>,
    skip_apps: Seq<Seq<char>>,
)
    ensures
        window.launch_command is None ==> step_of(window, skip_apps) is None,
        window.launch_command == Some(command) ==> {
            let named = {
                ||| window.app_id is Some && skip_apps.contains(window.app_id->0)
                ||| skip_apps.contains(command.display())
                ||| command.argv().len() > 0 && skip_apps.contains(command.argv()[0])
            };
            let step = step_of(window, skip_apps);
            &&& named ==> step == Some(RestoreStepView::Skip(command.display()))
            &&& !named && window.app_id is None ==> step is None
            &&& !named && window.app_id == Some(app_id) ==> {
                &&& step matches Some(RestoreStepView::Launch(job))
                &&& job.launch_command == command
                &&& job.app_id == app_id
                &&& job.workspace_idx == window.workspace_idx
                &&& job.workspace_name == window.workspace_name
                &&& job.workspace_output == window.workspace_output
                &&& job.window_size == window.window_size
            }
        },
{
}

/// Which elements are kept, in their order.
proof fn lemma_filter_map_places<A, B>(s: Seq<A>, f: spec_fn(A) -> Option<B>) -> (places: Seq<int>)
    ensures
        places.len() == s.filter_map(f).len(),
        forall|k: int|
            0 <= k < places.len() ==> 0 <= #[trigger] places[k] < s.len() && f(s[places[k]])
                == Some(s.filter_map(f)[k]),
        forall|k: int, l: int|
            0 <= k < l < places.len() ==> #[trigger] places[k] < #[trigger] places[l],
        forall|n: int|
            0 <= n < s.len() && f(#[trigger] s[n]) is Some ==> places.contains(n),
    decreases s.len(),
{
    if s.len() == 0 {
        Seq::empty()
    } else {
        let rest = s.drop_last();
        let before = lemma_filter_map_places(rest, f);
        let last = s.len() - 1;
        assert forall|n: int| 0 <= n < last && f(#[trigger] s[n]) is Some implies before.contains(
            n,
        ) by {
            assert(rest[n] == s[n]);
        }
        assert forall|k: int| 0 <= k < before.len() implies 0 <= #[trigger] before[k] < last && f(
            s[before[k]],
        ) == Some(rest.filter_map(f)[k]) by {
            assert(rest[before[k]] == s[before[k]]);
        }
        if f(s.last()) is Some {
            let places = before.push(last);
            assert(s.filter_map(f) == rest.filter_map(f) + seq![f(s.last())->0]);
            assert forall|n: int| 0 <= n < s.len() && f(#[trigger] s[n]) is Some implies places.contains(
                n,
            ) by {
                if n < last {
                    let k = choose|k: int| 0 <= k < before.len() && before[k] == n;
                    assert(places[k] == n);
                } else {
                    assert(places[before.len() as int] == n);
                }
            }
            assert forall|k: int| 0 <= k < places.len() implies 0 <= #[trigger] places[k] < s.len()
                && f(s[places[k]]) == Some(s.filter_map(f)[k]) by {
                if k < before.len() {
                    assert(places[k] == before[k]);
                }
            }
            assert forall|k: int, l: int| 0 <= k < l < places.len() implies #[trigger] places[k]
                < #[trigger] places[l] by {
                assert(places[k] == before[k]);
                if l < before.len() {
                    assert(places[l] == before[l]);
                }
            }
            places
        } else {
            assert forall|n: int| 0 <= n < s.len() && f(#[trigger] s[n]) is Some implies before.contains(
                n,
            ) by {
                assert(n < last);
            }
            before
        }
    }
}

/// The steps of a session are those of its windows in the order in which they are brought back:
/// each step belongs to one window, later steps to later windows, and no window that something
/// is to be done for is left out.
pub proof fn law_steps_follow_the_order(
    session: Seq<SessionWindowView>,
    skip_apps: Seq<Seq<char>>,
) -> (places: Seq<int>)
    ensures
        ({
            let ordered = crate::order::restore_sequence(session);
            let steps = restore_steps(session, skip_apps);
            &&& places.len() == steps.len()
            &&& forall|k: int|
                0 <= k < places.len() ==> 0 <= #[trigger] places[k] < ordered.len() && step_of(
                    ordered[places[k]],
                    skip_apps,
                ) == Some(steps[k])
            &&& forall|k: int, l: int|
                0 <= k < l < places.len() ==> #[trigger] places[k] < #[trigger] places[l]
            &&& forall|n: int|
                0 <= n < ordered.len() && step_of(#[trigger] ordered[n], skip_apps) is Some
                    ==> places.contains(n)
        }),
{
    let ordered = crate::order::restore_sequence(session);
    let f = |window: SessionWindowView| step_of(window, skip_apps);
    let places = lemma_filter_map_places(ordered, f);
    assert forall|n: int|
        0 <= n < ordered.len() && step_of(#[trigger] ordered[n], skip_apps) is Some implies places.contains(
        n,
    ) by {
        assert(f(ordered[n]) is Some);
    }
    assert forall|k: int| 0 <= k < places.len() implies 0 <= #[trigger] places[k] < ordered.len()
        && step_of(ordered[places[k]], skip_apps) == Some(restore_steps(session, skip_apps)[k]) by {
        assert(f(ordered[places[k]]) == Some(ordered.filter_map(f)[k]));
    }
    places
}

/// The commands to skip before the next program are told one by one, and then the program is
/// begun with everything after it left to do. Where no program is left, the user is told last
/// that the session is restored, and bringing it back has succeeded.
pub proof fn law_skips_are_told_up_to_the_next_program(steps: Seq<RestoreStepView>, n: int)
    requires
        0 <= n <= steps.len(),
        forall|k: int| 0 <= k < n ==> (#[trigger] steps[k]) is Skip,
        n < steps.len() ==> steps[n] is Launch,
    ensures
        begin(steps) == if n < steps.len() {
            RestorePhaseView::Running {
                job: steps[n]->Launch_0,
                phase: PhaseView::Connecting,
                rest: steps.skip(n + 1),
            }
        } else {
            RestorePhaseView::Finished(Ok(()))
        },
        begin_notices(steps) == Seq::new(
            n as nat,
            |k: int|
                NoticeView {
                    level: Level::Info,
                    text: "skipping command: "@ + steps[k]->Skip_0,
                },
        ) + if n < steps.len() {
            Seq::empty()
        } else {
            seq![NoticeView { level: Level::Info, text: "restored session"@ }]
        },
    decreases n,
{
    let shown = |k: int|
        NoticeView { level: Level::Info, text: "skipping command: "@ + steps[k]->Skip_0 };
    if n == 0 {
        if steps.len() > 0 {
            assert(steps.drop_first() == steps.skip(1));
        }
    } else {
        let rest = steps.drop_first();
        assert(steps[0] is Skip);
        assert forall|k: int| 0 <= k < n - 1 implies (#[trigger] rest[k]) is Skip by {
            assert(rest[k] == steps[k + 1]);
        }
        if n < steps.len() {
            assert(rest[n - 1] == steps[n]);
            assert(rest.skip(n) == steps.skip(n + 1));
        }
        law_skips_are_told_up_to_the_next_program(rest, n - 1);
        let shown_later = |k: int|
            NoticeView { level: Level::Info, text: "skipping command: "@ + rest[k]->Skip_0 };
        assert(Seq::new(n as nat, shown) == seq![shown(0)] + Seq::new(
            (n - 1) as nat,
            shown_later,
        ));
    }
}

/// Bringing a session back begins with looking for the file. If there is one the user is told
/// so and it is read; if not, the open windows are saved, even if there are none, and how that
/// went is how it ends.
pub proof fn law_file_decides_what_is_done(
    path: Seq<char>,
    skip_apps: Seq<Seq<char>>,
    saved: Result<(), SaveErrorView>,
)
    ensures
        ({
            let there = RestoreEventView::Checked(true);
            let missing = RestoreEventView::Checked(false);
            let checking = RestorePhaseView::Checking;
            &&& restore_task_of(checking) == RestoreTaskView::Check
            &&& restore_after(checking, skip_apps, there) == RestorePhaseView::Reading
            &&& restore_task_of(RestorePhaseView::Reading) == RestoreTaskView::Read
            &&& restore_notices(checking, path, skip_apps, there) == seq![
                NoticeView { level: Level::Info, text: "restoring previous session"@ },
            ]
            &&& restore_after(checking, skip_apps, missing) == RestorePhaseView::Saving
            &&& restore_task_of(RestorePhaseView::Saving) == (RestoreTaskView::Save {
                skip_empty: false,
            })
            &&& restore_notices(checking, path, skip_apps, missing).len() == 0
            &&& restore_after(
                RestorePhaseView::Saving,
                skip_apps,
                RestoreEventView::Saved(saved),
            ) == RestorePhaseView::Finished(
                match saved {
                    Ok(()) => Ok(()),
                    Err(err) => Err(RestoreErrorView::Save(err)),
                },
            )
            &&& restore_notices(
                RestorePhaseView::Saving,
                path,
                skip_apps,
                RestoreEventView::Saved(saved),
            ).len() == 0
        }),
{
}

/// A file that holds anything at all is loaded, without a word to the user; one that holds
/// nothing is told to be empty and left at that. One that cannot be read ends it with the reason.
pub proof fn law_file_with_content_is_loaded(
    path: Seq<char>,
    skip_apps: Seq<Seq<char>>,
    data: Seq<char>,
    e: Seq<char>,
)
    ensures
        ({
            let read = RestoreEventView::Read(Ok(data));
            let failed = RestoreEventView::Read(Err(e));
            let next = restore_after(RestorePhaseView::Reading, skip_apps, read);
            let told = restore_notices(RestorePhaseView::Reading, path, skip_apps, read);
            &&& data.len() > 0 ==> {
                &&& next == RestorePhaseView::Loading
                &&& restore_task_of(next) == RestoreTaskView::Load
                &&& told.len() == 0
            }
            &&& data.len() == 0 ==> {
                &&& next == RestorePhaseView::Finished(Ok(()))
                &&& told == seq![
                    NoticeView {
                        level: Level::Info,
                        text: "session file at "@ + path + " is empty"@,
                    },
                ]
            }
            &&& restore_after(RestorePhaseView::Reading, skip_apps, failed)
                == RestorePhaseView::Finished(Err(RestoreErrorView::Read(e)))
            &&& restore_notices(RestorePhaseView::Reading, path, skip_apps, failed).len() == 0
        }),
{
}

/// What is read makes no difference beyond whether there is anything: any two files with content
/// lead on alike.
pub proof fn law_files_with_content_lead_on_alike(
    path: Seq<char>,
    skip_apps: Seq<Seq<char>>,
    a: Seq<char>,
    b: Seq<char>,
)
    requires
        a.len() > 0,
        b.len() > 0,
    ensures
        restore_after(RestorePhaseView::Reading, skip_apps, RestoreEventView::Read(Ok(a)))
            == restore_after(RestorePhaseView::Reading, skip_apps, RestoreEventView::Read(Ok(b))),
        restore_notices(RestorePhaseView::Reading, path, skip_apps, RestoreEventView::Read(Ok(a)))
            == restore_notices(
            RestorePhaseView::Reading,
            path,
            skip_apps,
            RestoreEventView::Read(Ok(b)),
        ),
{
}

/// A session that was loaded is begun with its first step; one that could not be ends it with
/// the reason.
pub proof fn law_loaded_session_is_begun(
    path: Seq<char>,
    skip_apps: Seq<Seq<char>>,
    session: Seq<SessionWindowView>,
    e: Seq<char>,
)
    ensures
        ({
            let loading = RestorePhaseView::Loading;
            let loaded = RestoreEventView::Loaded(Ok(session));
            let failed = RestoreEventView::Loaded(Err(e));
            &&& restore_task_of(loading) == RestoreTaskView::Load
            &&& restore_after(loading, skip_apps, loaded) == begin(
                restore_steps(session, skip_apps),
            )
            &&& restore_notices(loading, path, skip_apps, loaded) == begin_notices(
                restore_steps(session, skip_apps),
            )
            &&& restore_after(loading, skip_apps, failed) == RestorePhaseView::Finished(
                Err(RestoreErrorView::Load(e)),
            )
            &&& restore_notices(loading, path, skip_apps, failed).len() == 0
        }),
{
}

/// While a program is being started its tasks are the ones to do, and nothing else moves. When
/// it has come to its end the next is begun, and when it has failed that is the end. What is told
/// of it comes before what is told of the next.
pub proof fn law_programs_take_turns(
    path: Seq<char>,
    skip_apps: Seq<Seq<char>>,
    job: LaunchJobView,
    phase: PhaseView,
    rest: Seq<RestoreStepView>,
    event: EventView,
    err: LaunchErrorView,
)
    ensures
        ({
            let running = RestorePhaseView::Running { job, phase, rest };
            let next = crate::launch::phase_after(job, phase, event);
            let after = restore_after(running, skip_apps, RestoreEventView::Launch(event));
            let notices = restore_notices(
                running,
                path,
                skip_apps,
                RestoreEventView::Launch(event),
            );
            let told = match crate::launch::notice_after(job, phase, event) {
                Some(notice) => seq![notice],
                None => Seq::empty(),
            };
            &&& restore_task_of(running) == RestoreTaskView::Launch(
                crate::launch::task_of(job, phase),
            )
            &&& !(next is Finished) ==> after == (RestorePhaseView::Running {
                job,
                phase: next,
                rest,
            }) && notices == told
            &&& next == PhaseView::Finished(Ok(())) ==> after == begin(rest) && notices == told
                + begin_notices(rest)
            &&& next == PhaseView::Finished(Err(err)) ==> after == RestorePhaseView::Finished(
                Err(RestoreErrorView::Launch(err)),
            ) && notices == told
        }),
{
}

/// What has ended stays as it ended, and an event that tells of something else than the task
/// changes nothing; the user is told of neither.
pub proof fn law_restore_events_out_of_place_change_nothing(
    path: Seq<char>,
    skip_apps: Seq<Seq<char>>,
    phase: RestorePhaseView,
    event: RestoreEventView,
)
    requires
        match restore_task_of(phase) {
            RestoreTaskView::Check => !(event is Checked),
            RestoreTaskView::Save { .. } => !(event is Saved),
            RestoreTaskView::Read => !(event is Read),
            RestoreTaskView::Load => !(event is Loaded),
            RestoreTaskView::Launch(_) => !(event is Launch),
            RestoreTaskView::Finish(_) => true,
        },
    ensures
        restore_after(phase, skip_apps, event) == phase,
        restore_notices(phase, path, skip_apps, event).len() == 0,
{
}

/// It is shown how bringing the session back ended.
pub proof fn law_restore_end_is_shown(outcome: Result<(), RestoreErrorView>)
    ensures
        restore_task_of(RestorePhaseView::Finished(outcome)) == RestoreTaskView::Finish(outcome),
{
}

/// A failure is described by what was tried and by the reason.
pub proof fn law_restore_errors_name_the_reason(
    text: Seq<char>,
    save: SaveErrorView,
    launch: LaunchErrorView,
)
    ensures
        RestoreErrorView::Read(text).chain() == seq!["Failed to read session file"@, text],
        RestoreErrorView::Load(text).chain() == seq!["Failed to load session data"@, text],
        RestoreErrorView::Save(save).chain() == save.chain(),
        RestoreErrorView::Launch(launch).chain() == launch.chain(),
{
}

/// A whole run from the start: with a session file that holds anything and is made out to be a
/// session, success means that every program of that session was begun, in their order and each
/// once.
pub proof fn law_whole_run_begins_every_program(
    skip_apps: Seq<Seq<char>>,
    data: Seq<char>,
    session: Seq<SessionWindowView>,
    events: Seq<RestoreEventView>,
)
    requires
        events.len() >= 3,
        events[0] == RestoreEventView::Checked(true),
        events[1] == RestoreEventView::Read(Ok(data)),
        data.len() > 0,
        events[2] == RestoreEventView::Loaded(Ok(session)),
        restore_after_all(RestorePhaseView::Checking, skip_apps, events)
            == RestorePhaseView::Finished(Ok(())),
        restore_all_answer(RestorePhaseView::Loading, skip_apps, events.skip(2)),
    ensures
        restore_all_answer(RestorePhaseView::Checking, skip_apps, events),
        begun(RestorePhaseView::Checking, skip_apps, events) == launches(
            restore_steps(session, skip_apps),
        ),
{
    let checking = RestorePhaseView::Checking;
    let reading = RestorePhaseView::Reading;
    let loading = RestorePhaseView::Loading;
    let one = events.drop_first();
    let two = one.drop_first();
    assert(one[0] == events[1]);
    assert(two == events.skip(2));
    assert(two[0] == events[2]);
    assert(restore_after(checking, skip_apps, events[0]) == reading);
    assert(restore_after(reading, skip_apps, one[0]) == loading);
    assert(restore_all_answer(reading, skip_apps, one));
    assert(restore_all_answer(checking, skip_apps, events));
    assert(restore_after_all(checking, skip_apps, events) == restore_after_all(
        reading,
        skip_apps,
        one,
    ));
    assert(restore_after_all(reading, skip_apps, one) == restore_after_all(
        loading,
        skip_apps,
        two,
    ));
    assert(begun(checking, skip_apps, events) == begun(reading, skip_apps, one));
    assert(begun(reading, skip_apps, one) == begun(loading, skip_apps, two));
    law_success_means_all_were_begun(session, skip_apps, two);
}

/// The views of steps, errors, tasks and events hold all that these say.
pub proof fn law_restoring_is_shown_whole(
    step: RestoreStep,
    err: RestoreError,
    task: RestoreTask,
    event: RestoreEvent,
)
    ensures
        step matches RestoreStep::Skip(display) ==> step@ == RestoreStepView::Skip(display@),
        step matches RestoreStep::Launch(job) ==> step@ == RestoreStepView::Launch(job@),
        step.deep_view() == step@,
        err matches RestoreError::Save(inner) ==> err@ == RestoreErrorView::Save(inner@),
        err matches RestoreError::Read(text) ==> err@ == RestoreErrorView::Read(text@),
        err matches RestoreError::Load(text) ==> err@ == RestoreErrorView::Load(text@),
        err matches RestoreError::Launch(inner) ==> err@ == RestoreErrorView::Launch(inner@),
        task is Check ==> task@ is Check,
        task matches RestoreTask::Save { skip_empty } ==> task@ == (RestoreTaskView::Save {
            skip_empty,
        }),
        task is Read ==> task@ is Read,
        task is Load ==> task@ is Load,
        task matches RestoreTask::Launch(inner) ==> task@ == RestoreTaskView::Launch(inner@),
        task matches RestoreTask::Finish(Ok(())) ==> task@ == RestoreTaskView::Finish(Ok(())),
        task matches RestoreTask::Finish(Err(e)) ==> task@ == RestoreTaskView::Finish(Err(e@)),
        event matches RestoreEvent::Checked(there) ==> event@ == RestoreEventView::Checked(there),
        event matches RestoreEvent::Saved(Ok(())) ==> event@ == RestoreEventView::Saved(Ok(())),
        event matches RestoreEvent::Saved(Err(e)) ==> event@ == RestoreEventView::Saved(Err(e@)),
        event matches RestoreEvent::Read(Ok(data)) ==> event@ == RestoreEventView::Read(Ok(data@)),
        event matches RestoreEvent::Read(Err(e)) ==> event@ == RestoreEventView::Read(Err(e@)),
        event matches RestoreEvent::Loaded(Ok(session)) ==> event@ == RestoreEventView::Loaded(
            Ok(session@.map_values(|window: SessionWindow| window@)),
        ),
        event matches RestoreEvent::Loaded(Err(e)) ==> event@ == RestoreEventView::Loaded(Err(e@)),
        event matches RestoreEvent::Launch(inner) ==> event@ == RestoreEventView::Launch(inner@),
{
    if let RestoreEvent::Loaded(Ok(session)) = event {
        assert(session.deep_view() =~= session@.map_values(|window: SessionWindow| window@));
    }
}

} // verus!
