//! Starting one program and putting its window where it was.
//!
//! Connecting, sending, waiting and listing windows are done outside: [`WindowLaunch::task`]
//! says what is to be done next, and [`WindowLaunch::handle`] takes how it went.

use crate::command::{LaunchCommand, LaunchCommandView};
use crate::logger::{Level, Notice, NoticeView};
use crate::niri::{
    Action, ActionView, NiriError, NiriErrorView, NiriResult, Reply, ReplyView, Window, WindowView,
    WorkspaceReference, WorkspaceReferenceView,
};
use crate::text::joined;
use vstd::prelude::*;

verus! {

/// How long to wait before each look for the new window, in milliseconds.
pub const WINDOW_POLL_INTERVAL: u64 = 250;

/// How often to look for the new window.
pub const WINDOW_POLLS: u32 = 20;

/// What to start, and where its window belongs.
#[derive(Debug, PartialEq, Eq)]
pub struct LaunchJob {
    pub launch_command: LaunchCommand,
    pub app_id: String,
    pub workspace_idx: Option<u8>,
    pub workspace_name: Option<String>,
    pub workspace_output: Option<String>,
    pub window_size: Option<(i32, i32)>,
}

/// What a [`LaunchJob`] says.
pub struct LaunchJobView {
    pub launch_command: LaunchCommandView,
    pub app_id: Seq<char>,
    pub workspace_idx: Option<u8>,
    pub workspace_name: Option<Seq<char>>,
    pub workspace_output: Option<Seq<char>>,
    pub window_size: Option<(i32, i32)>,
}

impl LaunchJobView {
    /// The workspace that the window belongs on: by its name if it has one, else by its index.
    pub open spec fn reference(self) -> Option<WorkspaceReferenceView> {
        match self.workspace_name {
            Some(name) => Some(WorkspaceReferenceView::Name(name)),
            None => match self.workspace_idx {
                Some(idx) => Some(WorkspaceReferenceView::Index(idx)),
                None => None,
            },
        }
    }
}

impl View for LaunchJob {
    type V = LaunchJobView;

    open spec fn view(&self) -> LaunchJobView {
        LaunchJobView {
            launch_command: self.launch_command@,
            app_id: self.app_id@,
            workspace_idx: self.workspace_idx,
            workspace_name: self.workspace_name.deep_view(),
            workspace_output: self.workspace_output.deep_view(),
            window_size: self.window_size,
        }
    }
}

/// Why a launch was given up.
#[derive(Debug, PartialEq, Eq)]
pub enum LaunchError {
    /// The IPC socket could not be connected to; the text is that of the I/O error.
    Connect(String),
    /// Niri could not be asked, or refused.
    Niri(NiriError),
}

/// What a [`LaunchError`] says.
pub enum LaunchErrorView {
    Connect(Seq<char>),
    Niri(NiriErrorView),
}

impl View for LaunchError {
    type V = LaunchErrorView;

    open spec fn view(&self) -> LaunchErrorView {
        match self {
            LaunchError::Connect(text) => LaunchErrorView::Connect(text@),
            LaunchError::Niri(err) => LaunchErrorView::Niri(err@),
        }
    }
}

impl LaunchErrorView {
    /// What went wrong, from the outermost description down to the cause.
    pub open spec fn chain(self) -> Seq<Seq<char>> {
        match self {
            LaunchErrorView::Connect(text) => seq!["Failed to connect to Niri IPC socket"@, text],
            LaunchErrorView::Niri(err) => seq![err.message()],
        }
    }
}

impl LaunchError {
    /// What went wrong, from the outermost description down to the cause.
    pub fn chain(&self) -> (res: Vec<String>)
        ensures
            res.deep_view() == self@.chain(),
    {
        let mut res: Vec<String> = Vec::new();
        match self {
            LaunchError::Connect(text) => {
                res.push("Failed to connect to Niri IPC socket".to_owned());
                res.push(text.clone());
            },
            LaunchError::Niri(err) => {
                res.push(err.message());
            },
        }
        assert(res.deep_view() == self@.chain());
        res
    }
}

impl Clone for LaunchError {
    fn clone(&self) -> (res: Self)
        ensures
            res@ == self@,
    {
        match self {
            LaunchError::Connect(text) => LaunchError::Connect(text.clone()),
            LaunchError::Niri(err) => LaunchError::Niri(err.clone()),
        }
    }
}

/// What a launch ended with.
pub open spec fn outcome_view(outcome: Result<(), LaunchError>) -> Result<(), LaunchErrorView> {
    match outcome {
        Ok(()) => Ok(()),
        Err(err) => Err(err@),
    }
}

/// How far a launch has come.
#[derive(Debug, PartialEq, Eq)]
pub enum Phase {
    /// The socket is to be connected.
    Connecting,
    /// The program is to be started.
    Spawning,
    /// The next look at the windows is to be waited for; `polls` have been taken.
    Waiting { polls: u32 },
    /// The windows are to be looked at; `polls` looks have been taken before.
    Listing { polls: u32 },
    /// The window is to be moved to its output.
    ToMonitor { window_id: u64 },
    /// The window is to be moved to its workspace.
    ToWorkspace { window_id: u64 },
    /// The window is to get its width.
    Width { window_id: u64 },
    /// The window is to get its height.
    Height { window_id: u64 },
    /// Nothing is left to do.
    Finished(Result<(), LaunchError>),
}

/// What a [`Phase`] says.
pub enum PhaseView {
    Connecting,
    Spawning,
    Waiting { polls: u32 },
    Listing { polls: u32 },
    ToMonitor { window_id: u64 },
    ToWorkspace { window_id: u64 },
    Width { window_id: u64 },
    Height { window_id: u64 },
    Finished(Result<(), LaunchErrorView>),
}

impl View for Phase {
    type V = PhaseView;

    open spec fn view(&self) -> PhaseView {
        match self {
            Phase::Connecting => PhaseView::Connecting,
            Phase::Spawning => PhaseView::Spawning,
            Phase::Waiting { polls } => PhaseView::Waiting { polls: *polls },
            Phase::Listing { polls } => PhaseView::Listing { polls: *polls },
            Phase::ToMonitor { window_id } => PhaseView::ToMonitor { window_id: *window_id },
            Phase::ToWorkspace { window_id } => PhaseView::ToWorkspace { window_id: *window_id },
            Phase::Width { window_id } => PhaseView::Width { window_id: *window_id },
            Phase::Height { window_id } => PhaseView::Height { window_id: *window_id },
            Phase::Finished(outcome) => PhaseView::Finished(outcome_view(*outcome)),
        }
    }
}

/// What is to be done next for a launch.
#[derive(Debug, PartialEq, Eq)]
pub enum Task {
    /// Connect the socket that the launch talks to Niri over.
    Connect,
    /// Send the action over that socket and read the reply.
    Send(Action),
    /// Wait for so many milliseconds.
    Sleep(u64),
    /// Ask Niri for the open windows.
    ListWindows,
    /// Nothing; the launch has ended like this.
    Finish(Result<(), LaunchError>),
}

/// What a [`Task`] says.
pub enum TaskView {
    Connect,
    Send(ActionView),
    Sleep(u64),
    ListWindows,
    Finish(Result<(), LaunchErrorView>),
}

impl View for Task {
    type V = TaskView;

    open spec fn view(&self) -> TaskView {
        match self {
            Task::Connect => TaskView::Connect,
            Task::Send(action) => TaskView::Send(action@),
            Task::Sleep(millis) => TaskView::Sleep(*millis),
            Task::ListWindows => TaskView::ListWindows,
            Task::Finish(outcome) => TaskView::Finish(outcome_view(*outcome)),
        }
    }
}

/// How a task went.
#[derive(Debug, PartialEq, Eq)]
pub enum Event {
    /// The socket is connected, or could not be for this I/O error.
    Connected(Result<(), String>),
    /// The action was answered, or could not be sent for this I/O error.
    Sent(Result<Reply, String>),
    /// The time is over.
    Slept,
    /// The open windows, or why they could not be had.
    Listed(NiriResult<Vec<Window>>),
}

/// What an [`Event`] says.
pub enum EventView {
    Connected(Result<(), Seq<char>>),
    Sent(Result<ReplyView, Seq<char>>),
    Slept,
    Listed(Result<Seq<WindowView>, NiriErrorView>),
}

impl View for Event {
    type V = EventView;

    open spec fn view(&self) -> EventView {
        match self {
            Event::Connected(Ok(())) => EventView::Connected(Ok(())),
            Event::Connected(Err(e)) => EventView::Connected(Err(e@)),
            Event::Sent(Ok(reply)) => EventView::Sent(Ok(reply@)),
            Event::Sent(Err(e)) => EventView::Sent(Err(e@)),
            Event::Slept => EventView::Slept,
            Event::Listed(Ok(windows)) => EventView::Listed(Ok(windows.deep_view())),
            Event::Listed(Err(err)) => EventView::Listed(Err(err@)),
        }
    }
}

/// The id of the first of `windows` that belongs to the application.
pub open spec fn window_of(windows: Seq<WindowView>, app_id: Seq<char>) -> Option<u64>
    decreases windows.len(),
{
    if windows.len() == 0 {
        None
    } else if windows[0].app_id == Some(app_id) {
        Some(windows[0].id)
    } else {
        window_of(windows.drop_first(), app_id)
    }
}

/// What is to be done in a phase.
pub open spec fn task_of(job: LaunchJobView, phase: PhaseView) -> TaskView {
    match phase {
        PhaseView::Connecting => TaskView::Connect,
        PhaseView::Spawning => TaskView::Send(
            ActionView::Spawn { command: job.launch_command.argv() },
        ),
        PhaseView::Waiting { .. } => TaskView::Sleep(WINDOW_POLL_INTERVAL),
        PhaseView::Listing { .. } => TaskView::ListWindows,
        PhaseView::ToMonitor { window_id } => TaskView::Send(
            ActionView::MoveWindowToMonitor { id: window_id, output: job.workspace_output->0 },
        ),
        PhaseView::ToWorkspace { window_id } => TaskView::Send(
            ActionView::MoveWindowToWorkspace {
                window_id,
                reference: job.reference()->0,
                focus: false,
            },
        ),
        PhaseView::Width { window_id } => TaskView::Send(
            ActionView::SetWindowWidth { id: window_id, width: (job.window_size->0).0 },
        ),
        PhaseView::Height { window_id } => TaskView::Send(
            ActionView::SetWindowHeight { id: window_id, height: (job.window_size->0).1 },
        ),
        PhaseView::Finished(outcome) => TaskView::Finish(outcome),
    }
}

/// Whether the job has what the phase needs, and the looks taken are not too many.
pub open spec fn phase_fits(job: LaunchJobView, phase: PhaseView) -> bool {
    match phase {
        PhaseView::Waiting { polls } => job.reference() is Some && polls < WINDOW_POLLS,
        PhaseView::Listing { polls } => job.reference() is Some && polls < WINDOW_POLLS,
        PhaseView::ToMonitor { .. } => job.reference() is Some && job.workspace_output is Some,
        PhaseView::ToWorkspace { .. } => job.reference() is Some,
        PhaseView::Width { .. } => job.window_size is Some,
        PhaseView::Height { .. } => job.window_size is Some,
        _ => true,
    }
}

/// Whether the event tells how the task of the phase went.
pub open spec fn answers(phase: PhaseView, event: EventView) -> bool {
    match phase {
        PhaseView::Connecting => event is Connected,
        PhaseView::Waiting { .. } => event is Slept,
        PhaseView::Listing { .. } => event is Listed,
        PhaseView::Finished(_) => false,
        _ => event is Sent,
    }
}

/// The phase after an event that tells how the task of the phase went.
pub open spec fn phase_after(job: LaunchJobView, phase: PhaseView, event: EventView) -> PhaseView {
    match (phase, event) {
        (PhaseView::Connecting, EventView::Connected(Ok(()))) => PhaseView::Spawning,
        (PhaseView::Connecting, EventView::Connected(Err(e))) => PhaseView::Finished(
            Err(LaunchErrorView::Connect(e)),
        ),
        (PhaseView::Spawning, EventView::Sent(Err(e))) => PhaseView::Finished(
            Err(LaunchErrorView::Niri(NiriErrorView::Send(e))),
        ),
        (PhaseView::Spawning, EventView::Sent(Ok(reply))) => {
            if reply == ReplyView::Handled && job.reference() is Some {
                PhaseView::Waiting { polls: 0 }
            } else {
                PhaseView::Finished(Ok(()))
            }
        },
        (PhaseView::Waiting { polls }, EventView::Slept) => PhaseView::Listing { polls },
        (PhaseView::Listing { .. }, EventView::Listed(Err(err))) => PhaseView::Finished(
            Err(LaunchErrorView::Niri(err)),
        ),
        (PhaseView::Listing { polls }, EventView::Listed(Ok(windows))) => {
            match window_of(windows, job.app_id) {
                Some(window_id) => if job.workspace_output is Some {
                    PhaseView::ToMonitor { window_id }
                } else {
                    PhaseView::ToWorkspace { window_id }
                },
                None => if polls + 1 < WINDOW_POLLS {
                    PhaseView::Waiting { polls: (polls + 1) as u32 }
                } else {
                    PhaseView::Finished(Ok(()))
                },
            }
        },
        (PhaseView::ToMonitor { window_id }, EventView::Sent(_)) => PhaseView::ToWorkspace {
            window_id,
        },
        (PhaseView::ToWorkspace { .. }, EventView::Sent(Err(e))) => PhaseView::Finished(
            Err(LaunchErrorView::Niri(NiriErrorView::Send(e))),
        ),
        (PhaseView::ToWorkspace { window_id }, EventView::Sent(Ok(reply))) => match reply {
            ReplyView::Refused(e) => PhaseView::Finished(
                Err(LaunchErrorView::Niri(NiriErrorView::Reply(e))),
            ),
            _ => if job.window_size is Some {
                PhaseView::Width { window_id }
            } else {
                PhaseView::Finished(Ok(()))
            },
        },
        (PhaseView::Width { window_id }, EventView::Sent(_)) => PhaseView::Height { window_id },
        (PhaseView::Height { .. }, EventView::Sent(_)) => PhaseView::Finished(Ok(())),
        _ => phase,
    }
}

/// The warning that a window did not come.
pub open spec fn no_window_warning(job: LaunchJobView) -> NoticeView {
    NoticeView {
        level: Level::Warn,
        text: "window for `"@ + job.launch_command.display() + "` did not appear within 5s"@,
    }
}

/// What the user is told about an event.
pub open spec fn notice_after(job: LaunchJobView, phase: PhaseView, event: EventView) -> Option<
    NoticeView,
> {
    match (phase, event) {
        (PhaseView::Spawning, EventView::Sent(Ok(reply))) => if reply == ReplyView::Handled {
            None
        } else {
            Some(
                NoticeView {
                    level: Level::Error,
                    text: "failed to spawn command `"@ + job.launch_command.display() + "`"@,
                },
            )
        },
        (PhaseView::Listing { polls }, EventView::Listed(Ok(windows))) => {
            if window_of(windows, job.app_id) is None && polls + 1 >= WINDOW_POLLS {
                Some(no_window_warning(job))
            } else {
                None
            }
        },
        (PhaseView::ToMonitor { .. }, EventView::Sent(Err(e))) => Some(
            NoticeView {
                level: Level::Warn,
                text: "failed to move window (app_id: "@ + job.app_id + "): "@ + e,
            },
        ),
        (PhaseView::Width { .. }, EventView::Sent(Err(e))) => Some(
            NoticeView {
                level: Level::Warn,
                text: "failed to restore window width for "@ + job.app_id + ": "@ + e,
            },
        ),
        (PhaseView::Height { .. }, EventView::Sent(Err(e))) => Some(
            NoticeView {
                level: Level::Warn,
                text: "failed to restore window height for "@ + job.app_id + ": "@ + e,
            },
        ),
        _ => None,
    }
}

/// `head`, `middle` and `tail` in one string.
fn joined3(head: &str, middle: &str, tail: &str) -> (res: String)
    ensures
        res@ == head@ + middle@ + tail@,
{
    joined(joined(head, middle).as_str(), tail)
}

/// The first of `windows` that belongs to the application.
pub fn find_window(windows: &Vec<Window>, app_id: &String) -> (res: Option<u64>)
    ensures
        res == window_of(windows.deep_view(), app_id@),
{
    let ghost all = windows.deep_view();
    let mut i: usize = 0;
    assert(all.skip(0) == all);
    while i < windows.len()
        invariant
            all == windows.deep_view(),
            i <= windows.len(),
            window_of(all, app_id@) == window_of(all.skip(i as int), app_id@),
        decreases windows.len() - i,
    {
        assert(all.skip(i as int)[0] == windows@[i as int]@);
        if let Some(id) = &windows[i].app_id {
            if *id == *app_id {
                return Some(windows[i].id);
            }
        }
        assert(all.skip(i as int).drop_first() == all.skip(i + 1));
        i = i + 1;
    }
    None
}

/// One program that is being started, until its window is where it belongs.
pub struct WindowLaunch {
    job: LaunchJob,
    phase: Phase,
}

/// A launch of `launch_command`, whose window is then known by `app_id` and put on the workspace
/// and output and brought to the size that are given.
pub fn spawn_and_move_window(
    launch_command: LaunchCommand,
    app_id: String,
    workspace_idx: Option<u8>,
    workspace_name: Option<String>,
    workspace_output: Option<String>,
    window_size: Option<(i32, i32)>,
) -> (res: WindowLaunch)
    ensures
        res.job() == (LaunchJobView {
            launch_command: launch_command@,
            app_id: app_id@,
            workspace_idx,
            workspace_name: workspace_name.deep_view(),
            workspace_output: workspace_output.deep_view(),
            window_size,
        }),
        res.phase() == PhaseView::Connecting,
{
    WindowLaunch {
        job: LaunchJob {
            launch_command,
            app_id,
            workspace_idx,
            workspace_name,
            workspace_output,
            window_size,
        },
        phase: Phase::Connecting,
    }
}

impl WindowLaunch {
    /// What is being started.
    pub closed spec fn job(self) -> LaunchJobView {
        self.job@
    }

    /// How far the launch has come.
    pub closed spec fn phase(self) -> PhaseView {
        self.phase@
    }

    #[verifier::type_invariant]
    spec fn fits(self) -> bool {
        phase_fits(self.job@, self.phase@)
    }

    /// The workspace that the window belongs on.
    fn reference(&self) -> (res: Option<WorkspaceReference>)
        ensures
            match res {
                Some(reference) => self.job().reference() == Some(reference@),
                None => self.job().reference() is None,
            },
    {
        // Prioritize named workspaces
        if let Some(name) = &self.job.workspace_name {
            Some(WorkspaceReference::Name(name.clone()))
        } else if let Some(idx) = self.job.workspace_idx {
            Some(WorkspaceReference::Index(idx))
        } else {
            None
        }
    }

    /// What is to be done next.
    pub fn task(&self) -> (res: Task)
        ensures
            res@ == task_of(self.job(), self.phase()),
            phase_fits(self.job(), self.phase()),
    {
        proof {
            use_type_invariant(self);
        }
        match &self.phase {
            Phase::Connecting => Task::Connect,
            Phase::Spawning => Task::Send(
                Action::Spawn { command: self.job.launch_command.argv() },
            ),
            Phase::Waiting { .. } => Task::Sleep(WINDOW_POLL_INTERVAL),
            Phase::Listing { .. } => Task::ListWindows,
            Phase::ToMonitor { window_id } => {
                let output: String = self.job.workspace_output.as_ref().unwrap().clone();
                Task::Send(Action::MoveWindowToMonitor { id: *window_id, output })
            },
            Phase::ToWorkspace { window_id } => {
                let reference: WorkspaceReference = self.reference().unwrap();
                Task::Send(
                    Action::MoveWindowToWorkspace { window_id: *window_id, reference, focus: false },
                )
            },
            Phase::Width { window_id } => {
                let (width, _) = self.job.window_size.unwrap();
                Task::Send(Action::SetWindowWidth { id: *window_id, width })
            },
            Phase::Height { window_id } => {
                let (_, height) = self.job.window_size.unwrap();
                Task::Send(Action::SetWindowHeight { id: *window_id, height })
            },
            Phase::Finished(outcome) => match outcome {
                Ok(()) => Task::Finish(Ok(())),
                Err(err) => Task::Finish(Err(err.clone())),
            },
        }
    }

    /// The phase after an event, if it is another one, and what the user is told.
    fn advance(&self, event: Event) -> (res: (Option<Phase>, Option<Notice>))
        ensures
            match res.0 {
                Some(phase) => phase@ == phase_after(self.job(), self.phase(), event@),
                None => self.phase() == phase_after(self.job(), self.phase(), event@),
            },
            res.1.deep_view() == notice_after(self.job(), self.phase(), event@),
    {
        proof {
            use_type_invariant(self);
        }
        match (&self.phase, event) {
            (Phase::Connecting, Event::Connected(Ok(()))) => (Some(Phase::Spawning), None),
            (Phase::Connecting, Event::Connected(Err(e))) => (
                Some(Phase::Finished(Err(LaunchError::Connect(e)))),
                None,
            ),
            (Phase::Spawning, Event::Sent(Err(e))) => (
                Some(Phase::Finished(Err(LaunchError::Niri(NiriError::Send(e))))),
                None,
            ),
            (Phase::Spawning, Event::Sent(Ok(Reply::Handled))) => {
                if self.reference().is_some() {
                    (Some(Phase::Waiting { polls: 0 }), None)
                } else {
                    (Some(Phase::Finished(Ok(()))), None)
                }
            },
            (Phase::Spawning, Event::Sent(Ok(_))) => {
                let display: String = self.job.launch_command.display();
                let text: String = joined3("failed to spawn command `", display.as_str(), "`");
                (Some(Phase::Finished(Ok(()))), Some(Notice { level: Level::Error, text }))
            },
            (Phase::Waiting { polls }, Event::Slept) => (
                Some(Phase::Listing { polls: *polls }),
                None,
            ),
            (Phase::Listing { .. }, Event::Listed(Err(err))) => (
                Some(Phase::Finished(Err(LaunchError::Niri(err)))),
                None,
            ),
            (Phase::Listing { polls }, Event::Listed(Ok(windows))) => {
                match find_window(&windows, &self.job.app_id) {
                    Some(window_id) => {
                        if self.job.workspace_output.is_some() {
                            (Some(Phase::ToMonitor { window_id }), None)
                        } else {
                            (Some(Phase::ToWorkspace { window_id }), None)
                        }
                    },
                    None => {
                        if *polls + 1 < WINDOW_POLLS {
                            (Some(Phase::Waiting { polls: *polls + 1 }), None)
                        } else {
                            let display: String = self.job.launch_command.display();
                            let text: String = joined3(
                                "window for `",
                                display.as_str(),
                                "` did not appear within 5s",
                            );
                            (
                                Some(Phase::Finished(Ok(()))),
                                Some(Notice { level: Level::Warn, text }),
                            )
                        }
                    },
                }
            },
            (Phase::ToMonitor { window_id }, Event::Sent(sent)) => {
                let next: Phase = Phase::ToWorkspace { window_id: *window_id };
                match sent {
                    Ok(_) => (Some(next), None),
                    Err(e) => (
                        Some(next),
                        Some(
                            self.warning(
                                "failed to move window (app_id: ",
                                "): ",
                                e.as_str(),
                            ),
                        ),
                    ),
                }
            },
            (Phase::ToWorkspace { .. }, Event::Sent(Err(e))) => (
                Some(Phase::Finished(Err(LaunchError::Niri(NiriError::Send(e))))),
                None,
            ),
            (Phase::ToWorkspace { .. }, Event::Sent(Ok(Reply::Refused(e)))) => (
                Some(Phase::Finished(Err(LaunchError::Niri(NiriError::Reply(e))))),
                None,
            ),
            (Phase::ToWorkspace { window_id }, Event::Sent(Ok(_))) => {
                if self.job.window_size.is_some() {
                    (Some(Phase::Width { window_id: *window_id }), None)
                } else {
                    (Some(Phase::Finished(Ok(()))), None)
                }
            },
            (Phase::Width { window_id }, Event::Sent(sent)) => {
                let next: Phase = Phase::Height { window_id: *window_id };
                match sent {
                    Ok(_) => (Some(next), None),
                    Err(e) => (
                        Some(next),
                        Some(
                            self.warning("failed to restore window width for ", ": ", e.as_str()),
                        ),
                    ),
                }
            },
            (Phase::Height { .. }, Event::Sent(sent)) => {
                let next: Phase = Phase::Finished(Ok(()));
                match sent {
                    Ok(_) => (Some(next), None),
                    Err(e) => (
                        Some(next),
                        Some(
                            self.warning("failed to restore window height for ", ": ", e.as_str()),
                        ),
                    ),
                }
            },
            _ => (None, None),
        }
    }

    /// A warning that names the application.
    fn warning(&self, head: &str, middle: &str, e: &str) -> (res: Notice)
        ensures
            res@ == (NoticeView {
                level: Level::Warn,
                text: head@ + self.job().app_id + middle@ + e@,
            }),
    {
        let start: String = joined3(head, self.job.app_id.as_str(), middle);
        Notice { level: Level::Warn, text: joined(start.as_str(), e) }
    }

    /// How the launch has ended, if it has.
    pub fn outcome(&self) -> (res: Option<Result<(), LaunchError>>)
        ensures
            match res {
                Some(outcome) => self.phase() == PhaseView::Finished(outcome_view(outcome)),
                None => !(self.phase() is Finished),
            },
    {
        match &self.phase {
            Phase::Finished(Ok(())) => Some(Ok(())),
            Phase::Finished(Err(err)) => Some(Err(err.clone())),
            _ => None,
        }
    }

    /// Takes how the task went, and returns what the user is told about it. An event that does
    /// not belong to the task changes nothing.
    pub fn handle(&mut self, event: Event) -> (notice: Option<Notice>)
        ensures
            final(self).job() == old(self).job(),
            final(self).phase() == phase_after(old(self).job(), old(self).phase(), event@),
            notice.deep_view() == notice_after(old(self).job(), old(self).phase(), event@),
    {
        proof {
            use_type_invariant(&*self);
        }
        let (next, notice) = self.advance(event);
        if let Some(phase) = next {
            self.phase = phase;
        }
        notice
    }
}

/// The phase after several events.
pub open spec fn phase_after_all(
    job: LaunchJobView,
    phase: PhaseView,
    events: Seq<EventView>,
) -> PhaseView
    decreases events.len(),
{
    if events.len() == 0 {
        phase
    } else {
        phase_after_all(job, phase_after(job, phase, events[0]), events.drop_first())
    }
}

/// Whether each event tells how the task went that was to be done when it came.
pub open spec fn all_answer(job: LaunchJobView, phase: PhaseView, events: Seq<EventView>) -> bool
    decreases events.len(),
{
    events.len() > 0 ==> {
        &&& answers(phase, events[0])
        &&& all_answer(job, phase_after(job, phase, events[0]), events.drop_first())
    }
}

/// The actions that are sent on the way through `events`.
pub open spec fn actions_sent(
    job: LaunchJobView,
    phase: PhaseView,
    events: Seq<EventView>,
) -> Seq<ActionView>
    decreases events.len(),
{
    if events.len() == 0 {
        Seq::empty()
    } else {
        let rest = actions_sent(job, phase_after(job, phase, events[0]), events.drop_first());
        match task_of(job, phase) {
            TaskView::Send(action) => seq![action] + rest,
            _ => rest,
        }
    }
}

/// How many tasks a launch can still take.
pub open spec fn tasks_left(phase: PhaseView) -> int {
    match phase {
        PhaseView::Connecting => 6 + 2 * WINDOW_POLLS,
        PhaseView::Spawning => 5 + 2 * WINDOW_POLLS,
        PhaseView::Waiting { polls } => 4 + 2 * (WINDOW_POLLS - polls),
        PhaseView::Listing { polls } => 3 + 2 * (WINDOW_POLLS - polls),
        PhaseView::ToMonitor { .. } => 4,
        PhaseView::ToWorkspace { .. } => 3,
        PhaseView::Width { .. } => 2,
        PhaseView::Height { .. } => 1,
        PhaseView::Finished(_) => 0,
    }
}

/// How many looks at the windows a launch can still take.
pub open spec fn looks_left(phase: PhaseView) -> int {
    match phase {
        PhaseView::Connecting => WINDOW_POLLS as int,
        PhaseView::Spawning => WINDOW_POLLS as int,
        PhaseView::Waiting { polls } => WINDOW_POLLS - polls,
        PhaseView::Listing { polls } => WINDOW_POLLS - polls,
        _ => 0,
    }
}

/// How many of `events` are a list of windows.
pub open spec fn looks(events: Seq<EventView>) -> int
    decreases events.len(),
{
    if events.len() == 0 {
        0
    } else {
        looks(events.drop_first()) + if events[0] is Listed {
            1int
        } else {
            0
        }
    }
}

/// The window that a phase is about.
pub open spec fn window_in(phase: PhaseView) -> Option<u64> {
    match phase {
        PhaseView::ToMonitor { window_id } => Some(window_id),
        PhaseView::ToWorkspace { window_id } => Some(window_id),
        PhaseView::Width { window_id } => Some(window_id),
        PhaseView::Height { window_id } => Some(window_id),
        _ => None,
    }
}

/// Whether `id` is one of `windows` that belongs to the application.
pub open spec fn open_window(windows: Seq<WindowView>, app_id: Seq<char>, id: u64) -> bool {
    exists|i: int|
        {
            &&& 0 <= i < windows.len()
            &&& (#[trigger] windows[i]).app_id == Some(app_id)
            &&& windows[i].id == id
        }
}

/// What is sent to put a window where it belongs: to its output, if that is known, then to its
/// workspace, and then its size, if that is known.
pub open spec fn placement(job: LaunchJobView, window_id: u64) -> Seq<ActionView> {
    let monitor = match job.workspace_output {
        Some(output) => seq![ActionView::MoveWindowToMonitor { id: window_id, output }],
        None => Seq::empty(),
    };
    let workspace = seq![
        ActionView::MoveWindowToWorkspace {
            window_id,
            reference: job.reference()->0,
            focus: false,
        },
    ];
    let size = match job.window_size {
        Some((width, height)) => seq![
            ActionView::SetWindowWidth { id: window_id, width },
            ActionView::SetWindowHeight { id: window_id, height },
        ],
        None => Seq::empty(),
    };
    monitor + workspace + size
}

/// Whatever happens, a launch only ever reaches phases that the job has what is needed for.
pub proof fn law_phases_fit(job: LaunchJobView, phase: PhaseView, event: EventView)
    requires
        phase_fits(job, phase),
    ensures
        phase_fits(job, phase_after(job, phase, event)),
{
}

/// Every launch ends: however the tasks go, there are no more of them than `tasks_left` says,
/// and nothing is left to do exactly when the launch is finished.
pub proof fn law_launch_ends(job: LaunchJobView, phase: PhaseView, events: Seq<EventView>)
    requires
        phase_fits(job, phase),
        all_answer(job, phase, events),
    ensures
        events.len() + tasks_left(phase_after_all(job, phase, events)) <= tasks_left(phase),
        tasks_left(phase) >= 0,
        tasks_left(phase) == 0 <==> phase is Finished,
    decreases events.len(),
{
    if events.len() > 0 {
        let next = phase_after(job, phase, events[0]);
        let later = events.drop_first();
        assert(answers(phase, events[0]));
        assert(all_answer(job, next, later));
        assert(phase_after_all(job, phase, events) == phase_after_all(job, next, later));
        law_launch_ends(job, next, later);
    }
}

/// The windows are looked at no more than `looks_left` says, which is twenty times for a launch
/// that begins.
pub proof fn law_looks_are_limited(job: LaunchJobView, phase: PhaseView, events: Seq<EventView>)
    requires
        phase_fits(job, phase),
        all_answer(job, phase, events),
    ensures
        looks(events) <= looks_left(phase),
        looks_left(PhaseView::Connecting) == 20,
    decreases events.len(),
{
    if events.len() > 0 {
        let next = phase_after(job, phase, events[0]);
        let later = events.drop_first();
        assert(answers(phase, events[0]));
        assert(all_answer(job, next, later));
        law_looks_are_limited(job, next, later);
    }
}

/// The time that all the looks wait is the one that the user is told: five seconds.
pub proof fn law_wait_is_five_seconds()
    ensures
        WINDOW_POLLS * WINDOW_POLL_INTERVAL == 5000,
{
}

/// The window that a launch acts on is an open window of its application, and once it is found
/// the launch keeps to it.
pub proof fn law_launch_keeps_to_its_window(
    job: LaunchJobView,
    phase: PhaseView,
    event: EventView,
)
    ensures
        ({
            let next = phase_after(job, phase, event);
            window_in(next) matches Some(id) ==> {
                ||| window_in(phase) == Some(id)
                ||| event matches EventView::Listed(Ok(windows)) && open_window(
                    windows,
                    job.app_id,
                    id,
                )
            }
        }),
{
    if let EventView::Listed(Ok(windows)) = event {
        lemma_window_of(windows, job.app_id);
    }
}

proof fn lemma_window_of(windows: Seq<WindowView>, app_id: Seq<char>)
    ensures
        window_of(windows, app_id) matches Some(id) ==> open_window(windows, app_id, id),
    decreases windows.len(),
{
    if windows.len() > 0 && windows[0].app_id != Some(app_id) {
        let rest = windows.drop_first();
        lemma_window_of(rest, app_id);
        if let Some(id) = window_of(rest, app_id) {
            let i = choose|i: int|
                {
                    &&& 0 <= i < rest.len()
                    &&& (#[trigger] rest[i]).app_id == Some(app_id)
                    &&& rest[i].id == id
                };
            assert(windows[i + 1] == rest[i]);
        }
    }
}

/// Moving a window to its output and resizing it are tried and no more: whatever comes of them,
/// the launch does not fail.
pub proof fn law_output_and_size_are_optional(
    job: LaunchJobView,
    phase: PhaseView,
    event: EventView,
)
    requires
        phase is ToMonitor || phase is Width || phase is Height,
    ensures
        phase_after(job, phase, event) matches PhaseView::Finished(outcome) ==> outcome is Ok,
{
}

/// A program that is to go to no workspace is only started.
pub proof fn law_no_workspace_only_spawns(job: LaunchJobView, reply: ReplyView)
    requires
        job.reference() is None,
    ensures
        phase_after(job, PhaseView::Spawning, EventView::Sent(Ok(reply))) == PhaseView::Finished(
            Ok(()),
        ),
{
}

/// A named workspace is referred to by its name, whatever its index.
pub proof fn law_named_workspace_first(job: LaunchJobView, name: Seq<char>)
    requires
        job.workspace_name == Some(name),
    ensures
        job.reference() == Some(WorkspaceReferenceView::Name(name)),
{
}

/// Once its window is there and Niri does what it is asked, a launch sends what puts the window
/// where it belongs, in that order and nothing else, and succeeds.
pub proof fn law_window_is_placed(
    job: LaunchJobView,
    polls: u32,
    windows: Seq<WindowView>,
    window_id: u64,
)
    requires
        job.reference() is Some,
        window_of(windows, job.app_id) == Some(window_id),
    ensures
        ({
            let found = EventView::Listed(Ok(windows));
            let handled = EventView::Sent(Ok(ReplyView::Handled));
            let events = seq![found] + Seq::new(placement(job, window_id).len(), |i: int| handled);
            let start = PhaseView::Listing { polls };
            &&& all_answer(job, start, events)
            &&& actions_sent(job, start, events) == placement(job, window_id)
            &&& phase_after_all(job, start, events) == PhaseView::Finished(Ok(()))
        }),
{
    let handled = EventView::Sent(Ok(ReplyView::Handled));
    let start = PhaseView::Listing { polls };
    let n = placement(job, window_id).len();
    let all = Seq::new(n, |i: int| handled);
    let events = seq![EventView::Listed(Ok(windows))] + all;
    assert(events.drop_first() == all);
    let first = phase_after(job, start, events[0]);
    lemma_placing(job, window_id, first, all, n as int);
    assert(answers(start, events[0]));
    assert(actions_sent(job, start, events) == actions_sent(job, first, all));
    assert(phase_after_all(job, start, events) == phase_after_all(job, first, all));
}

/// From any phase of placing the window, one handled action after the other gives what is left
/// of the placement.
proof fn lemma_placing(
    job: LaunchJobView,
    window_id: u64,
    phase: PhaseView,
    events: Seq<EventView>,
    n: int,
)
    requires
        job.reference() is Some,
        phase_fits(job, phase),
        window_in(phase) == Some(window_id),
        n == events.len(),
        forall|i: int|
            0 <= i < n ==> (#[trigger] events[i]) == EventView::Sent(Ok(ReplyView::Handled)),
        n == match phase {
            PhaseView::ToMonitor { .. } => if job.window_size is Some { 4int } else { 2 },
            PhaseView::ToWorkspace { .. } => if job.window_size is Some { 3int } else { 1 },
            PhaseView::Width { .. } => 2,
            _ => 1,
        },
    ensures
        all_answer(job, phase, events),
        phase_after_all(job, phase, events) == PhaseView::Finished(Ok(())),
        phase is ToMonitor ==> actions_sent(job, phase, events) == placement(job, window_id),
        phase is ToWorkspace ==> actions_sent(job, phase, events) == placement(
            job,
            window_id,
        ).skip(
            if job.workspace_output is Some {
                1
            } else {
                0
            },
        ),
        phase is Width ==> actions_sent(job, phase, events) == seq![
            ActionView::SetWindowWidth { id: window_id, width: (job.window_size->0).0 },
            ActionView::SetWindowHeight { id: window_id, height: (job.window_size->0).1 },
        ],
        phase is Height ==> actions_sent(job, phase, events) == seq![
            ActionView::SetWindowHeight { id: window_id, height: (job.window_size->0).1 },
        ],
    decreases n,
{
    let rest = events.drop_first();
    let next = phase_after(job, phase, events[0]);
    assert forall|i: int| 0 <= i < rest.len() implies (#[trigger] rest[i]) == EventView::Sent(
        Ok(ReplyView::Handled),
    ) by {
        assert(rest[i] == events[i + 1]);
    }
    if n > 1 {
        lemma_placing(job, window_id, next, rest, n - 1);
    } else {
        assert(actions_sent(job, next, rest) == Seq::<ActionView>::empty());
        assert(phase_after_all(job, next, rest) == next);
        assert(all_answer(job, next, rest));
    }
    assert(answers(phase, events[0]));
    assert(phase_after_all(job, phase, events) == phase_after_all(job, next, rest));
}

/// What the user is told on the way through `events`.
pub open spec fn notices_told(
    job: LaunchJobView,
    phase: PhaseView,
    events: Seq<EventView>,
) -> Seq<NoticeView>
    decreases events.len(),
{
    if events.len() == 0 {
        Seq::empty()
    } else {
        let later = notices_told(job, phase_after(job, phase, events[0]), events.drop_first());
        match notice_after(job, phase, events[0]) {
            Some(notice) => seq![notice] + later,
            None => later,
        }
    }
}

/// Whether Niri lists its windows whenever it is asked, and none belongs to the application.
pub open spec fn never_appears(app_id: Seq<char>, events: Seq<EventView>) -> bool {
    forall|i: int|
        0 <= i < events.len() ==> ((#[trigger] events[i]) matches EventView::Listed(listed)
            ==> listed is Ok && window_of(listed->Ok_0, app_id) is None)
}

/// A window that never appears is looked for exactly twenty times. Nothing is sent but the start
/// of the program, the user gets the one warning, and the launch does not fail.
pub proof fn law_missing_window_is_given_up(job: LaunchJobView, events: Seq<EventView>)
    requires
        job.reference() is Some,
        events.len() >= 2,
        events[0] == EventView::Connected(Ok(())),
        events[1] == EventView::Sent(Ok(ReplyView::Handled)),
        all_answer(job, PhaseView::Connecting, events),
        never_appears(job.app_id, events),
        phase_after_all(job, PhaseView::Connecting, events) is Finished,
    ensures
        phase_after_all(job, PhaseView::Connecting, events) == PhaseView::Finished(Ok(())),
        looks(events) == 20,
        actions_sent(job, PhaseView::Connecting, events) == seq![
            ActionView::Spawn { command: job.launch_command.argv() },
        ],
        notices_told(job, PhaseView::Connecting, events) == seq![no_window_warning(job)],
{
    let one = events.drop_first();
    let two = one.drop_first();
    let waiting = PhaseView::Waiting { polls: 0 };
    assert(one[0] == events[1]);
    assert(all_answer(job, PhaseView::Spawning, one));
    assert(all_answer(job, waiting, two));
    assert(phase_after_all(job, PhaseView::Connecting, events) == phase_after_all(
        job,
        PhaseView::Spawning,
        one,
    ));
    assert(phase_after_all(job, PhaseView::Spawning, one) == phase_after_all(job, waiting, two));
    assert forall|i: int| 0 <= i < two.len() implies ((#[trigger] two[i]) matches EventView::Listed(
        listed,
    ) ==> listed is Ok && window_of(listed->Ok_0, job.app_id) is None) by {
        assert(two[i] == events[i + 2]);
    }
    lemma_missing_window(job, waiting, two);
    assert(looks(events) == looks(one));
    assert(looks(one) == looks(two));
    assert(actions_sent(job, PhaseView::Connecting, events) == actions_sent(
        job,
        PhaseView::Spawning,
        one,
    ));
    assert(actions_sent(job, waiting, two) == Seq::<ActionView>::empty());
    assert(actions_sent(job, PhaseView::Spawning, one) == seq![
        ActionView::Spawn { command: job.launch_command.argv() },
    ] + actions_sent(job, waiting, two));
    assert(notices_told(job, PhaseView::Connecting, events) == notices_told(
        job,
        PhaseView::Spawning,
        one,
    ));
    assert(notices_told(job, PhaseView::Spawning, one) == notices_told(job, waiting, two));
}

proof fn lemma_missing_window(job: LaunchJobView, phase: PhaseView, events: Seq<EventView>)
    requires
        phase is Waiting || phase is Listing,
        phase_fits(job, phase),
        all_answer(job, phase, events),
        never_appears(job.app_id, events),
        phase_after_all(job, phase, events) is Finished,
    ensures
        phase_after_all(job, phase, events) == PhaseView::Finished(Ok(())),
        looks(events) == looks_left(phase),
        actions_sent(job, phase, events) == Seq::<ActionView>::empty(),
        notices_told(job, phase, events) == seq![no_window_warning(job)],
    decreases events.len(),
{
    assert(events.len() > 0);
    let next = phase_after(job, phase, events[0]);
    let later = events.drop_first();
    assert(answers(phase, events[0]));
    assert(all_answer(job, next, later));
    assert(phase_after_all(job, phase, events) == phase_after_all(job, next, later));
    assert forall|i: int| 0 <= i < later.len() implies ((#[trigger] later[i]) matches EventView::Listed(
        listed,
    ) ==> listed is Ok && window_of(listed->Ok_0, job.app_id) is None) by {
        assert(later[i] == events[i + 1]);
    }
    assert(actions_sent(job, phase, events) == actions_sent(job, next, later));
    if next is Finished {
        if later.len() > 0 {
            assert(answers(next, later[0]));
        }
        assert(later.len() == 0);
        assert(phase_after_all(job, next, later) == next);
        assert(notices_told(job, next, later) == Seq::<NoticeView>::empty());
        assert(looks(later) == 0);
        assert(notices_told(job, phase, events) == seq![no_window_warning(job)] + notices_told(
            job,
            next,
            later,
        ));
    } else {
        lemma_missing_window(job, next, later);
        assert(notices_told(job, phase, events) == notices_told(job, next, later));
    }
}

/// What is sent and how a launch goes depends on the command by its arguments alone, and on the
/// workspace by what it is referred to with: two jobs that agree on these, on the application,
/// the output and the size send the same and go the same way through any events.
pub proof fn law_requests_depend_on(
    a: LaunchJobView,
    b: LaunchJobView,
    phase: PhaseView,
    events: Seq<EventView>,
)
    requires
        a.launch_command.argv() == b.launch_command.argv(),
        a.reference() == b.reference(),
        a.app_id == b.app_id,
        a.workspace_output == b.workspace_output,
        a.window_size == b.window_size,
    ensures
        all_answer(a, phase, events) == all_answer(b, phase, events),
        phase_after_all(a, phase, events) == phase_after_all(b, phase, events),
        actions_sent(a, phase, events) == actions_sent(b, phase, events),
    decreases events.len(),
{
    if events.len() > 0 {
        let next = phase_after(a, phase, events[0]);
        let later = events.drop_first();
        assert(next == phase_after(b, phase, events[0]));
        assert(task_of(a, phase) == task_of(b, phase));
        law_requests_depend_on(a, b, next, later);
        assert(all_answer(a, phase, events) == (answers(phase, events[0]) && all_answer(
            a,
            next,
            later,
        )));
        assert(all_answer(b, phase, events) == (answers(phase, events[0]) && all_answer(
            b,
            next,
            later,
        )));
        assert(phase_after_all(a, phase, events) == phase_after_all(a, next, later));
        assert(phase_after_all(b, phase, events) == phase_after_all(b, next, later));
    }
}

/// Where the workspace has a name, its index makes no difference to a launch: the same is sent
/// and told, and it goes the same way.
pub proof fn law_index_of_named_workspace_is_irrelevant(
    job: LaunchJobView,
    idx: Option<u8>,
    phase: PhaseView,
    events: Seq<EventView>,
)
    requires
        job.workspace_name is Some,
    ensures
        ({
            let other = LaunchJobView { workspace_idx: idx, ..job };
            &&& all_answer(job, phase, events) == all_answer(other, phase, events)
            &&& phase_after_all(job, phase, events) == phase_after_all(other, phase, events)
            &&& actions_sent(job, phase, events) == actions_sent(other, phase, events)
            &&& notices_told(job, phase, events) == notices_told(other, phase, events)
        }),
    decreases events.len(),
{
    let other = LaunchJobView { workspace_idx: idx, ..job };
    law_requests_depend_on(job, other, phase, events);
    if events.len() > 0 {
        let next = phase_after(job, phase, events[0]);
        assert(next == phase_after(other, phase, events[0]));
        law_index_of_named_workspace_is_irrelevant(job, idx, next, events.drop_first());
        assert(notice_after(job, phase, events[0]) == notice_after(other, phase, events[0]));
    }
}

/// The window that is found is the first in the list with the application id, whatever else is
/// said of it, and none is found only if the list has none with that id.
pub proof fn law_first_window_is_found(windows: Seq<WindowView>, app_id: Seq<char>, i: int)
    ensures
        ({
            &&& 0 <= i < windows.len()
            &&& windows[i].app_id == Some(app_id)
            &&& forall|j: int| 0 <= j < i ==> (#[trigger] windows[j]).app_id != Some(app_id)
        }) ==> window_of(windows, app_id) == Some(windows[i].id),
        (forall|j: int|
            0 <= j < windows.len() ==> (#[trigger] windows[j]).app_id != Some(app_id))
            <==> window_of(windows, app_id) is None,
    decreases windows.len(),
{
    if windows.len() > 0 {
        let rest = windows.drop_first();
        law_first_window_is_found(rest, app_id, i - 1);
        assert(forall|j: int| 0 <= j < rest.len() ==> #[trigger] rest[j] == windows[j + 1]);
        assert(forall|j: int| 0 < j < windows.len() ==> #[trigger] windows[j] == rest[j - 1]);
        if windows[0].app_id != Some(app_id) {
            if window_of(windows, app_id) is None {
                assert forall|j: int| 0 <= j < windows.len() implies (#[trigger] windows[j]).app_id
                    != Some(app_id) by {
                    if j > 0 {
                        assert(windows[j] == rest[j - 1]);
                    }
                }
            } else if forall|j: int|
                0 <= j < windows.len() ==> (#[trigger] windows[j]).app_id != Some(app_id) {
                assert forall|j: int| 0 <= j < rest.len() implies (#[trigger] rest[j]).app_id
                    != Some(app_id) by {
                    assert(rest[j] == windows[j + 1]);
                }
            }
            if 0 < i < windows.len() && windows[i].app_id == Some(app_id) && (forall|j: int|
                0 <= j < i ==> (#[trigger] windows[j]).app_id != Some(app_id)) {
                assert forall|j: int| 0 <= j < i - 1 implies (#[trigger] rest[j]).app_id != Some(
                    app_id,
                ) by {
                    assert(rest[j] == windows[j + 1]);
                }
                assert(rest[i - 1] == windows[i]);
            }
        }
    }
}

/// A launch begins with connecting. Once that is done the program is started with the arguments
/// of its command; if it cannot be done, the launch ends with the reason.
pub proof fn law_launch_begins_with_the_program(job: LaunchJobView, e: Seq<char>)
    ensures
        task_of(job, PhaseView::Connecting) == TaskView::Connect,
        task_of(
            job,
            phase_after(job, PhaseView::Connecting, EventView::Connected(Ok(()))),
        ) == TaskView::Send(ActionView::Spawn { command: job.launch_command.argv() }),
        phase_after(job, PhaseView::Connecting, EventView::Connected(Ok(())))
            == PhaseView::Spawning,
        phase_after(job, PhaseView::Connecting, EventView::Connected(Err(e)))
            == PhaseView::Finished(Err(LaunchErrorView::Connect(e))),
        notice_after(job, PhaseView::Connecting, EventView::Connected(Ok(()))) is None,
        notice_after(job, PhaseView::Connecting, EventView::Connected(Err(e))) is None,
{
}

/// A program that was started is waited for exactly if its window has a workspace to go to, by
/// name or by index. One that Niri did not start is told and given up without failing; only
/// where Niri could not be asked the launch fails.
pub proof fn law_started_program_is_waited_for(
    job: LaunchJobView,
    reply: ReplyView,
    e: Seq<char>,
)
    ensures
        ({
            let placed = job.workspace_name is Some || job.workspace_idx is Some;
            let answered = EventView::Sent(Ok(reply));
            let failed = EventView::Sent(Err(e));
            &&& reply is Handled && placed ==> phase_after(job, PhaseView::Spawning, answered)
                == (PhaseView::Waiting { polls: 0 })
            &&& !(reply is Handled && placed) ==> phase_after(job, PhaseView::Spawning, answered)
                == PhaseView::Finished(Ok(()))
            &&& reply is Handled ==> notice_after(job, PhaseView::Spawning, answered) is None
            &&& !(reply is Handled) ==> notice_after(job, PhaseView::Spawning, answered) == Some(
                NoticeView {
                    level: Level::Error,
                    text: "failed to spawn command `"@ + job.launch_command.display() + "`"@,
                },
            )
            &&& phase_after(job, PhaseView::Spawning, failed) == PhaseView::Finished(
                Err(LaunchErrorView::Niri(NiriErrorView::Send(e))),
            )
            &&& notice_after(job, PhaseView::Spawning, failed) is None
        }),
{
}

/// Before each look a quarter of a second passes. A look that fails ends the launch with the
/// reason; after one that finds no window of the application there is another, until twenty have
/// been taken, and then the user is warned and the launch does not fail.
pub proof fn law_looks_go_on_until_the_window_is_there(
    job: LaunchJobView,
    polls: u32,
    windows: Seq<WindowView>,
    err: NiriErrorView,
)
    ensures
        task_of(job, PhaseView::Waiting { polls }) == TaskView::Sleep(250),
        phase_after(job, PhaseView::Waiting { polls }, EventView::Slept) == (PhaseView::Listing {
            polls,
        }),
        task_of(job, PhaseView::Listing { polls }) == TaskView::ListWindows,
        notice_after(job, PhaseView::Waiting { polls }, EventView::Slept) is None,
        ({
            let looking = PhaseView::Listing { polls };
            let failed = EventView::Listed(Err(err));
            let listed = EventView::Listed(Ok(windows));
            let absent = forall|j: int|
                0 <= j < windows.len() ==> (#[trigger] windows[j]).app_id != Some(job.app_id);
            &&& phase_after(job, looking, failed) == PhaseView::Finished(
                Err(LaunchErrorView::Niri(err)),
            )
            &&& notice_after(job, looking, failed) is None
            &&& absent && polls < 19 ==> {
                &&& phase_after(job, looking, listed) == (PhaseView::Waiting {
                    polls: (polls + 1) as u32,
                })
                &&& notice_after(job, looking, listed) is None
            }
            &&& absent && polls >= 19 ==> {
                &&& phase_after(job, looking, listed) == PhaseView::Finished(Ok(()))
                &&& notice_after(job, looking, listed) == Some(
                    NoticeView {
                        level: Level::Warn,
                        text: "window for `"@ + job.launch_command.display()
                            + "` did not appear within 5s"@,
                    },
                )
            }
        }),
{
    law_first_window_is_found(windows, job.app_id, 0);
}

/// The first window of the application, whatever else is said of it and however many looks came
/// before, is moved: to its output where that is known, else straight to its workspace.
pub proof fn law_found_window_is_moved(
    job: LaunchJobView,
    polls: u32,
    windows: Seq<WindowView>,
    i: int,
)
    requires
        0 <= i < windows.len(),
        windows[i].app_id == Some(job.app_id),
        forall|j: int| 0 <= j < i ==> (#[trigger] windows[j]).app_id != Some(job.app_id),
        job.workspace_name is Some || job.workspace_idx is Some,
    ensures
        ({
            let listed = EventView::Listed(Ok(windows));
            let next = phase_after(job, PhaseView::Listing { polls }, listed);
            &&& notice_after(job, PhaseView::Listing { polls }, listed) is None
            &&& match job.workspace_output {
                Some(output) => {
                    &&& next == (PhaseView::ToMonitor { window_id: windows[i].id })
                    &&& task_of(job, next) == TaskView::Send(
                        ActionView::MoveWindowToMonitor { id: windows[i].id, output },
                    )
                },
                None => next == (PhaseView::ToWorkspace { window_id: windows[i].id }),
            }
        }),
{
    law_first_window_is_found(windows, job.app_id, i);
}

/// However moving the window to its output went, it is then moved to its workspace, by the name
/// if there is one and else by the index, and the focus stays. The user is warned exactly if the
/// request could not be sent.
pub proof fn law_workspace_follows_output(
    job: LaunchJobView,
    window_id: u64,
    sent: Result<ReplyView, Seq<char>>,
)
    ensures
        ({
            let moving = PhaseView::ToMonitor { window_id };
            let next = phase_after(job, moving, EventView::Sent(sent));
            let told = notice_after(job, moving, EventView::Sent(sent));
            &&& next == (PhaseView::ToWorkspace { window_id })
            &&& job.workspace_name matches Some(name) ==> task_of(job, next) == TaskView::Send(
                ActionView::MoveWindowToWorkspace {
                    window_id,
                    reference: WorkspaceReferenceView::Name(name),
                    focus: false,
                },
            )
            &&& job.workspace_name is None ==> (job.workspace_idx matches Some(idx) ==> task_of(
                job,
                next,
            ) == TaskView::Send(
                ActionView::MoveWindowToWorkspace {
                    window_id,
                    reference: WorkspaceReferenceView::Index(idx),
                    focus: false,
                },
            ))
            &&& match sent {
                Ok(_) => told is None,
                Err(e) => told == Some(
                    NoticeView {
                        level: Level::Warn,
                        text: "failed to move window (app_id: "@ + job.app_id + "): "@ + e,
                    },
                ),
            }
        }),
{
}

/// A window that is on its workspace gets its size where that is known: the width and then the
/// height. Where Niri refuses the workspace or cannot be asked, the launch fails with the reason.
pub proof fn law_size_follows_workspace(
    job: LaunchJobView,
    window_id: u64,
    sent: Result<ReplyView, Seq<char>>,
)
    ensures
        ({
            let moving = PhaseView::ToWorkspace { window_id };
            let next = phase_after(job, moving, EventView::Sent(sent));
            &&& notice_after(job, moving, EventView::Sent(sent)) is None
            &&& match sent {
                Err(e) => next == PhaseView::Finished(
                    Err(LaunchErrorView::Niri(NiriErrorView::Send(e))),
                ),
                Ok(ReplyView::Refused(e)) => next == PhaseView::Finished(
                    Err(LaunchErrorView::Niri(NiriErrorView::Reply(e))),
                ),
                Ok(_) => match job.window_size {
                    None => next == PhaseView::Finished(Ok(())),
                    Some((width, height)) => {
                        &&& next == (PhaseView::Width { window_id })
                        &&& task_of(job, next) == TaskView::Send(
                            ActionView::SetWindowWidth { id: window_id, width },
                        )
                        &&& task_of(
                            job,
                            phase_after(job, next, EventView::Sent(sent)),
                        ) == TaskView::Send(ActionView::SetWindowHeight { id: window_id, height })
                    },
                },
            }
        }),
{
}

/// However setting the width went, the height is set, and however that went, the launch has
/// succeeded. The user is warned of each exactly if the request could not be sent.
pub proof fn law_size_is_width_and_height(
    job: LaunchJobView,
    window_id: u64,
    sent: Result<ReplyView, Seq<char>>,
)
    ensures
        phase_after(job, PhaseView::Width { window_id }, EventView::Sent(sent))
            == (PhaseView::Height { window_id }),
        phase_after(job, PhaseView::Height { window_id }, EventView::Sent(sent))
            == PhaseView::Finished(Ok(())),
        sent is Ok ==> notice_after(job, PhaseView::Width { window_id }, EventView::Sent(sent)) is None
            && notice_after(job, PhaseView::Height { window_id }, EventView::Sent(sent)) is None,
        sent matches Err(e) ==> {
            &&& notice_after(job, PhaseView::Width { window_id }, EventView::Sent(sent)) == Some(
                NoticeView {
                    level: Level::Warn,
                    text: "failed to restore window width for "@ + job.app_id + ": "@ + e,
                },
            )
            &&& notice_after(job, PhaseView::Height { window_id }, EventView::Sent(sent)) == Some(
                NoticeView {
                    level: Level::Warn,
                    text: "failed to restore window height for "@ + job.app_id + ": "@ + e,
                },
            )
        },
{
}

/// A launch that has ended stays as it ended, and an event that tells of something else than
/// the task changes nothing; the user is told of neither.
pub proof fn law_events_out_of_place_change_nothing(
    job: LaunchJobView,
    phase: PhaseView,
    event: EventView,
)
    requires
        match task_of(job, phase) {
            TaskView::Connect => !(event is Connected),
            TaskView::Send(_) => !(event is Sent),
            TaskView::Sleep(_) => !(event is Slept),
            TaskView::ListWindows => !(event is Listed),
            TaskView::Finish(_) => true,
        },
    ensures
        phase_after(job, phase, event) == phase,
        notice_after(job, phase, event) is None,
{
}

/// A launch says how it ended.
pub proof fn law_end_is_shown(job: LaunchJobView, outcome: Result<(), LaunchErrorView>)
    ensures
        task_of(job, PhaseView::Finished(outcome)) == TaskView::Finish(outcome),
{
}

/// A failure is described by what was tried and by the reason.
pub proof fn law_launch_errors_name_the_reason(text: Seq<char>, err: NiriErrorView)
    ensures
        LaunchErrorView::Connect(text).chain() == seq![
            "Failed to connect to Niri IPC socket"@,
            text,
        ],
        LaunchErrorView::Niri(err).chain() == seq![err.message()],
{
}

/// Waiting for looks that show `lists`, one after the other.
pub open spec fn looks_at(lists: Seq<Seq<WindowView>>) -> Seq<EventView>
    decreases lists.len(),
{
    if lists.len() == 0 {
        Seq::empty()
    } else {
        seq![EventView::Slept, EventView::Listed(Ok(lists[0]))] + looks_at(lists.drop_first())
    }
}

/// What comes of some events and then of others.
proof fn lemma_one_after_the_other(
    job: LaunchJobView,
    phase: PhaseView,
    a: Seq<EventView>,
    b: Seq<EventView>,
)
    ensures
        ({
            let middle = phase_after_all(job, phase, a);
            &&& phase_after_all(job, phase, a + b) == phase_after_all(job, middle, b)
            &&& all_answer(job, phase, a + b) <==> all_answer(job, phase, a) && all_answer(
                job,
                middle,
                b,
            )
            &&& actions_sent(job, phase, a + b) == actions_sent(job, phase, a) + actions_sent(
                job,
                middle,
                b,
            )
            &&& notices_told(job, phase, a + b) == notices_told(job, phase, a) + notices_told(
                job,
                middle,
                b,
            )
        }),
    decreases a.len(),
{
    let all = a + b;
    if a.len() == 0 {
        assert(all == b);
        assert(actions_sent(job, phase, a) == Seq::<ActionView>::empty());
        assert(notices_told(job, phase, a) == Seq::<NoticeView>::empty());
    } else {
        let next = phase_after(job, phase, a[0]);
        let rest = a.drop_first();
        assert(all[0] == a[0]);
        assert(all.drop_first() == rest + b);
        lemma_one_after_the_other(job, next, rest, b);
        assert(phase_after_all(job, phase, all) == phase_after_all(job, next, rest + b));
        assert(phase_after_all(job, phase, a) == phase_after_all(job, next, rest));
        assert(all_answer(job, phase, all) == (answers(phase, a[0]) && all_answer(
            job,
            next,
            rest + b,
        )));
        assert(all_answer(job, phase, a) == (answers(phase, a[0]) && all_answer(job, next, rest)));
    }
}

/// Looks that do not show the window are taken one after the other, and nothing else is done.
proof fn lemma_looks_at(job: LaunchJobView, polls: u32, lists: Seq<Seq<WindowView>>)
    requires
        polls + lists.len() < 20,
        forall|k: int, j: int|
            0 <= k < lists.len() && 0 <= j < lists[k].len() ==> (#[trigger] lists[k][j]).app_id
                != Some(job.app_id),
    ensures
        ({
            let start = PhaseView::Waiting { polls };
            &&& all_answer(job, start, looks_at(lists))
            &&& phase_after_all(job, start, looks_at(lists)) == (PhaseView::Waiting {
                polls: (polls + lists.len()) as u32,
            })
            &&& actions_sent(job, start, looks_at(lists)) == Seq::<ActionView>::empty()
            &&& notices_told(job, start, looks_at(lists)) == Seq::<NoticeView>::empty()
        }),
    decreases lists.len(),
{
    let start = PhaseView::Waiting { polls };
    if lists.len() > 0 {
        let rest = lists.drop_first();
        assert forall|k: int, j: int|
            0 <= k < rest.len() && 0 <= j < rest[k].len() implies (#[trigger] rest[k][j]).app_id
            != Some(job.app_id) by {
            assert(rest[k][j] == lists[k + 1][j]);
        }
        lemma_looks_at(job, (polls + 1) as u32, rest);
        let events = looks_at(lists);
        let looking = PhaseView::Listing { polls };
        let one = events.drop_first();
        let two = one.drop_first();
        assert(events[0] == EventView::Slept);
        assert(one[0] == EventView::Listed(Ok(lists[0])));
        assert(two == looks_at(rest));
        assert forall|j: int| 0 <= j < lists[0].len() implies (#[trigger] lists[0][j]).app_id
            != Some(job.app_id) by {}
        law_looks_go_on_until_the_window_is_there(
            job,
            polls,
            lists[0],
            NiriErrorView::Send(Seq::empty()),
        );
        let next = PhaseView::Waiting { polls: (polls + 1) as u32 };
        assert(phase_after(job, start, events[0]) == looking);
        assert(phase_after(job, looking, one[0]) == next);
        assert(phase_after_all(job, start, events) == phase_after_all(job, looking, one));
        assert(phase_after_all(job, looking, one) == phase_after_all(job, next, two));
        assert(all_answer(job, looking, one) == all_answer(job, next, two));
        assert(all_answer(job, start, events) == all_answer(job, looking, one));
        assert(actions_sent(job, looking, one) == actions_sent(job, next, two));
        assert(actions_sent(job, start, events) == actions_sent(job, looking, one));
        assert(notices_told(job, looking, one) == notices_told(job, next, two));
        assert(notices_told(job, start, events) == notices_told(job, looking, one));
    }
}

/// A whole launch: if the window is there at one of the twenty looks and Niri does what it is
/// asked, the program is started once, and its window, the first of the application, is moved to
/// its output where that is known, then to its workspace, and gets its width and height where
/// those are known. Nothing else is sent, the user is told nothing, and the launch succeeds.
pub proof fn law_launch_puts_the_window_in_its_place(
    job: LaunchJobView,
    lists: Seq<Seq<WindowView>>,
    windows: Seq<WindowView>,
    i: int,
    reference: WorkspaceReferenceView,
)
    requires
        lists.len() < 20,
        forall|k: int, j: int|
            0 <= k < lists.len() && 0 <= j < lists[k].len() ==> (#[trigger] lists[k][j]).app_id
                != Some(job.app_id),
        0 <= i < windows.len(),
        windows[i].app_id == Some(job.app_id),
        forall|j: int| 0 <= j < i ==> (#[trigger] windows[j]).app_id != Some(job.app_id),
        match job.workspace_name {
            Some(name) => reference == WorkspaceReferenceView::Name(name),
            None => job.workspace_idx matches Some(idx) && reference
                == WorkspaceReferenceView::Index(idx),
        },
    ensures
        ({
            let id = windows[i].id;
            let sent = seq![ActionView::Spawn { command: job.launch_command.argv() }]
                + match job.workspace_output {
                Some(output) => seq![ActionView::MoveWindowToMonitor { id, output }],
                None => Seq::empty(),
            } + seq![
                ActionView::MoveWindowToWorkspace { window_id: id, reference, focus: false },
            ] + match job.window_size {
                Some((width, height)) => seq![
                    ActionView::SetWindowWidth { id, width },
                    ActionView::SetWindowHeight { id, height },
                ],
                None => Seq::empty(),
            };
            let handled = EventView::Sent(Ok(ReplyView::Handled));
            let events = seq![EventView::Connected(Ok(())), handled] + looks_at(lists) + seq![
                EventView::Slept,
                EventView::Listed(Ok(windows)),
            ] + Seq::new((sent.len() - 1) as nat, |k: int| handled);
            &&& all_answer(job, PhaseView::Connecting, events)
            &&& actions_sent(job, PhaseView::Connecting, events) == sent
            &&& notices_told(job, PhaseView::Connecting, events) == Seq::<NoticeView>::empty()
            &&& phase_after_all(job, PhaseView::Connecting, events) == PhaseView::Finished(Ok(()))
        }),
{
    let id = windows[i].id;
    let handled = EventView::Sent(Ok(ReplyView::Handled));
    let placing = placement(job, id);
    let head = seq![EventView::Connected(Ok(())), handled];
    let n = placing.len();
    let found = seq![EventView::Listed(Ok(windows))] + Seq::new(n, |k: int| handled);
    let start = PhaseView::Connecting;
    let waiting = PhaseView::Waiting { polls: 0 };
    let polls = lists.len() as u32;
    let last_wait = PhaseView::Waiting { polls };
    let looking = PhaseView::Listing { polls };
    // Up to the first wait
    let one = head.drop_first();
    let none = one.drop_first();
    assert(one[0] == handled);
    assert(phase_after_all(job, waiting, none) == waiting);
    assert(phase_after_all(job, PhaseView::Spawning, one) == waiting);
    assert(phase_after_all(job, start, head) == waiting);
    assert(all_answer(job, waiting, none));
    assert(all_answer(job, PhaseView::Spawning, one));
    assert(all_answer(job, start, head));
    let spawn = ActionView::Spawn { command: job.launch_command.argv() };
    assert(actions_sent(job, waiting, none) == Seq::<ActionView>::empty());
    assert(actions_sent(job, PhaseView::Spawning, one) == seq![spawn] + actions_sent(
        job,
        waiting,
        none,
    ));
    assert(actions_sent(job, start, head) == actions_sent(job, PhaseView::Spawning, one));
    assert(actions_sent(job, start, head) == seq![spawn]);
    assert(notices_told(job, waiting, none) == Seq::<NoticeView>::empty());
    assert(notices_told(job, PhaseView::Spawning, one) == notices_told(job, waiting, none));
    assert(notices_told(job, start, head) == notices_told(job, PhaseView::Spawning, one));
    // The looks that do not show it
    lemma_looks_at(job, 0, lists);
    // The one that does
    law_first_window_is_found(windows, job.app_id, i);
    law_window_is_placed(job, polls, windows, id);
    lemma_handled_tells_nothing(job, looking, found);
    let tail = seq![EventView::Slept] + found;
    assert(tail.drop_first() == found);
    assert(tail[0] == EventView::Slept);
    assert(phase_after(job, last_wait, tail[0]) == looking);
    assert(phase_after_all(job, last_wait, tail) == phase_after_all(job, looking, found));
    assert(all_answer(job, last_wait, tail) == all_answer(job, looking, found));
    assert(actions_sent(job, last_wait, tail) == actions_sent(job, looking, found));
    assert(notices_told(job, last_wait, tail) == notices_told(job, looking, found));
    lemma_one_after_the_other(job, waiting, looks_at(lists), tail);
    lemma_one_after_the_other(job, start, head, looks_at(lists) + tail);
    let sent = seq![spawn] + match job.workspace_output {
        Some(output) => seq![ActionView::MoveWindowToMonitor { id, output }],
        None => Seq::empty(),
    } + seq![ActionView::MoveWindowToWorkspace { window_id: id, reference, focus: false }]
        + match job.window_size {
        Some((width, height)) => seq![
            ActionView::SetWindowWidth { id, width },
            ActionView::SetWindowHeight { id, height },
        ],
        None => Seq::empty(),
    };
    assert(sent == seq![spawn] + placing);
    let events = head + looks_at(lists) + seq![
        EventView::Slept,
        EventView::Listed(Ok(windows)),
    ] + Seq::new((sent.len() - 1) as nat, |k: int| handled);
    assert(events == head + (looks_at(lists) + tail));
    assert(actions_sent(job, waiting, looks_at(lists) + tail) == placing);
    assert(notices_told(job, waiting, looks_at(lists) + tail) == Seq::<NoticeView>::empty());
}

/// While the window is there and Niri does what it is asked, there is nothing to tell.
proof fn lemma_handled_tells_nothing(
    job: LaunchJobView,
    phase: PhaseView,
    events: Seq<EventView>,
)
    requires
        !(phase is Spawning),
        forall|k: int|
            0 <= k < events.len() ==> {
                ||| #[trigger] events[k] == EventView::Sent(Ok(ReplyView::Handled))
                ||| events[k] matches EventView::Listed(Ok(windows)) && window_of(
                    windows,
                    job.app_id,
                ) is Some
            },
    ensures
        notices_told(job, phase, events) == Seq::<NoticeView>::empty(),
    decreases events.len(),
{
    if events.len() > 0 {
        let later = events.drop_first();
        let next = phase_after(job, phase, events[0]);
        assert(forall|k: int| 0 <= k < later.len() ==> #[trigger] later[k] == events[k + 1]);
        assert(notice_after(job, phase, events[0]) is None);
        lemma_handled_tells_nothing(job, next, later);
    }
}

/// The view of a job holds all that the job says.
pub proof fn law_job_is_shown_whole(job: LaunchJob)
    ensures
        job@.launch_command == job.launch_command@,
        job@.app_id == job.app_id@,
        job@.workspace_idx == job.workspace_idx,
        job.workspace_name matches Some(text) ==> job@.workspace_name == Some(text@),
        job.workspace_name is None ==> job@.workspace_name is None,
        job.workspace_output matches Some(text) ==> job@.workspace_output == Some(text@),
        job.workspace_output is None ==> job@.workspace_output is None,
        job@.window_size == job.window_size,
{
}

/// The views of errors, tasks and events hold all that these say.
pub proof fn law_tasks_and_events_are_shown_whole(err: LaunchError, task: Task, event: Event)
    ensures
        err matches LaunchError::Connect(text) ==> err@ == LaunchErrorView::Connect(text@),
        err matches LaunchError::Niri(inner) ==> err@ == LaunchErrorView::Niri(inner@),
        task is Connect ==> task@ is Connect,
        task matches Task::Send(action) ==> task@ == TaskView::Send(action@),
        task matches Task::Sleep(millis) ==> task@ == TaskView::Sleep(millis),
        task is ListWindows ==> task@ is ListWindows,
        task matches Task::Finish(Ok(())) ==> task@ == TaskView::Finish(Ok(())),
        task matches Task::Finish(Err(e)) ==> task@ == TaskView::Finish(Err(e@)),
        event matches Event::Connected(Ok(())) ==> event@ == EventView::Connected(Ok(())),
        event matches Event::Connected(Err(e)) ==> event@ == EventView::Connected(Err(e@)),
        event matches Event::Sent(Ok(reply)) ==> event@ == EventView::Sent(Ok(reply@)),
        event matches Event::Sent(Err(e)) ==> event@ == EventView::Sent(Err(e@)),
        event is Slept ==> event@ is Slept,
        event matches Event::Listed(Ok(windows)) ==> event@ == EventView::Listed(
            Ok(windows@.map_values(|window: Window| window@)),
        ),
        event matches Event::Listed(Err(e)) ==> event@ == EventView::Listed(Err(e@)),
{
    if let Event::Listed(Ok(windows)) = event {
        assert(windows.deep_view() =~= windows@.map_values(|window: Window| window@));
    }
}

} // verus!
