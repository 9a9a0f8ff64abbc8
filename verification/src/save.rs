//! Saving the session.
//!
//! Asking Niri and writing the file are done outside: [`SessionSave::task`] says what is to be
//! done next, and [`SessionSave::handle`] takes how it went.

use crate::config::{Config, ConfigView};
use crate::logger::{Level, Notice, NoticeView};
use crate::niri::{
    NiriError, NiriErrorView, NiriResult, Window, WindowView, Workspace, WorkspaceView,
};
use crate::session::{session_windows, SessionWindow, SessionWindowView};
use crate::text::joined;
use vstd::prelude::*;

verus! {

/// How a session is saved.
pub struct SaveOptions<'a> {
    /// How the session file is called in messages.
    pub file_path: &'a str,
    pub config: &'a Config,
    /// When true, an empty window list is treated as stale data (e.g. the
    /// compositor already tore down surfaces) and the existing session file
    /// is left untouched.
    pub skip_empty: bool,
}

/// What [`SaveOptions`] say.
pub struct SaveOptionsView {
    pub file_path: Seq<char>,
    pub config: ConfigView,
    pub skip_empty: bool,
}

impl<'a> View for SaveOptions<'a> {
    type V = SaveOptionsView;

    open spec fn view(&self) -> SaveOptionsView {
        SaveOptionsView {
            file_path: self.file_path@,
            config: self.config@,
            skip_empty: self.skip_empty,
        }
    }
}

/// What saving comes to.
pub enum SaveOutcome {
    /// The session file is left as it is.
    Preserve,
    /// The session file is replaced by this session.
    Write(Seq<SessionWindowView>),
}

/// What saving these windows comes to.
pub open spec fn save_outcome(
    windows: Seq<WindowView>,
    workspaces: Seq<WorkspaceView>,
    config: ConfigView,
    skip_empty: bool,
) -> SaveOutcome {
    if skip_empty && windows.len() == 0 {
        SaveOutcome::Preserve
    } else {
        SaveOutcome::Write(crate::session::saved_session(windows, workspaces, config))
    }
}

/// Why a session was not saved.
#[derive(Debug, PartialEq, Eq)]
pub enum SaveError {
    /// Niri could not be asked for the windows or the workspaces.
    Niri(NiriError),
    /// The session could not be put into text; the text is that of the error.
    Serialize(String),
    /// The session file of that name could not be written; the reason is that of the I/O error.
    Write { file_path: String, reason: String },
}

/// What a [`SaveError`] says.
pub enum SaveErrorView {
    Niri(NiriErrorView),
    Serialize(Seq<char>),
    Write { file_path: Seq<char>, reason: Seq<char> },
}

impl View for SaveError {
    type V = SaveErrorView;

    open spec fn view(&self) -> SaveErrorView {
        match self {
            SaveError::Niri(err) => SaveErrorView::Niri(err@),
            SaveError::Serialize(text) => SaveErrorView::Serialize(text@),
            SaveError::Write { file_path, reason } => SaveErrorView::Write {
                file_path: file_path@,
                reason: reason@,
            },
        }
    }
}

impl SaveErrorView {
    /// The outermost description of what went wrong.
    pub open spec fn message(self) -> Seq<char> {
        match self {
            SaveErrorView::Niri(err) => err.message(),
            SaveErrorView::Serialize(_) => "Failed to serialize session data"@,
            SaveErrorView::Write { file_path, .. } => "Failed to write to session file: "@
                + file_path,
        }
    }

    /// What went wrong, from the outermost description down to the cause.
    pub open spec fn chain(self) -> Seq<Seq<char>> {
        match self {
            SaveErrorView::Niri(_) => seq![self.message()],
            SaveErrorView::Serialize(text) => seq![self.message(), text],
            SaveErrorView::Write { reason, .. } => seq![self.message(), reason],
        }
    }
}

impl SaveError {
    /// The outermost description of what went wrong.
    pub fn message(&self) -> (res: String)
        ensures
            res@ == self@.message(),
    {
        match self {
            SaveError::Niri(err) => err.message(),
            SaveError::Serialize(_) => "Failed to serialize session data".to_owned(),
            SaveError::Write { file_path, .. } => {
                joined("Failed to write to session file: ", file_path.as_str())
            },
        }
    }

    /// What went wrong, from the outermost description down to the cause.
    pub fn chain(&self) -> (res: Vec<String>)
        ensures
            res.deep_view() == self@.chain(),
    {
        let mut res: Vec<String> = Vec::new();
        res.push(self.message());
        match self {
            SaveError::Niri(_) => {},
            SaveError::Serialize(text) => {
                res.push(text.clone());
            },
            SaveError::Write { reason, .. } => {
                res.push(reason.clone());
            },
        }
        assert(res.deep_view() == self@.chain());
        res
    }
}

impl Clone for SaveError {
    fn clone(&self) -> (res: Self)
        ensures
            res@ == self@,
    {
        match self {
            SaveError::Niri(err) => SaveError::Niri(err.clone()),
            SaveError::Serialize(text) => SaveError::Serialize(text.clone()),
            SaveError::Write { file_path, reason } => SaveError::Write {
                file_path: file_path.clone(),
                reason: reason.clone(),
            },
        }
    }
}

/// What saving ended with.
pub open spec fn saved_view(outcome: Result<(), SaveError>) -> Result<(), SaveErrorView> {
    match outcome {
        Ok(()) => Ok(()),
        Err(err) => Err(err@),
    }
}

/// How far saving has come.
enum SavePhase {
    /// The open windows are to be asked for.
    Windows,
    /// The workspaces are to be asked for.
    Workspaces { windows: Vec<Window> },
    /// The session file is to be written.
    Writing { windows: Vec<Window>, workspaces: Vec<Workspace> },
    /// Nothing is left to do.
    Finished(Result<(), SaveError>),
}

/// How far saving has come.
pub enum SavePhaseView {
    Windows,
    Workspaces { windows: Seq<WindowView> },
    Writing { windows: Seq<WindowView>, workspaces: Seq<WorkspaceView> },
    Finished(Result<(), SaveErrorView>),
}

impl SavePhase {
    spec fn shown(self) -> SavePhaseView {
        match self {
            SavePhase::Windows => SavePhaseView::Windows,
            SavePhase::Workspaces { windows } => SavePhaseView::Workspaces {
                windows: windows.deep_view(),
            },
            SavePhase::Writing { windows, workspaces } => SavePhaseView::Writing {
                windows: windows.deep_view(),
                workspaces: workspaces.deep_view(),
            },
            SavePhase::Finished(outcome) => SavePhaseView::Finished(saved_view(outcome)),
        }
    }
}

/// What is to be done next to save the session.
#[derive(Debug, PartialEq, Eq)]
pub enum SaveTask<'a> {
    /// Ask Niri for the open windows.
    ListWindows,
    /// Ask Niri for the workspaces.
    ListWorkspaces,
    /// Replace what the session file holds by this session.
    Write(Vec<SessionWindow<'a>>),
    /// Nothing; it has ended like this.
    Finish(Result<(), SaveError>),
}

/// What a [`SaveTask`] says.
pub enum SaveTaskView {
    ListWindows,
    ListWorkspaces,
    Write(Seq<SessionWindowView>),
    Finish(Result<(), SaveErrorView>),
}

impl<'a> View for SaveTask<'a> {
    type V = SaveTaskView;

    open spec fn view(&self) -> SaveTaskView {
        match self {
            SaveTask::ListWindows => SaveTaskView::ListWindows,
            SaveTask::ListWorkspaces => SaveTaskView::ListWorkspaces,
            SaveTask::Write(session) => SaveTaskView::Write(session.deep_view()),
            SaveTask::Finish(outcome) => SaveTaskView::Finish(saved_view(*outcome)),
        }
    }
}

/// Why the session file was not written.
#[derive(Debug, PartialEq, Eq)]
pub enum WriteFailure {
    /// The session could not be put into text, with this error.
    Serialize(String),
    /// The text could not be written, with this I/O error.
    Write(String),
}

/// What a [`WriteFailure`] says.
pub enum WriteFailureView {
    Serialize(Seq<char>),
    Write(Seq<char>),
}

impl View for WriteFailure {
    type V = WriteFailureView;

    open spec fn view(&self) -> WriteFailureView {
        match self {
            WriteFailure::Serialize(e) => WriteFailureView::Serialize(e@),
            WriteFailure::Write(e) => WriteFailureView::Write(e@),
        }
    }
}

/// How a task went.
#[derive(Debug, PartialEq, Eq)]
pub enum SaveEvent {
    /// The open windows, or why they could not be had.
    Windows(NiriResult<Vec<Window>>),
    /// The workspaces, or why they could not be had.
    Workspaces(NiriResult<Vec<Workspace>>),
    /// The session file is written, or is not.
    Written(Result<(), WriteFailure>),
}

/// What a [`SaveEvent`] says.
pub enum SaveEventView {
    Windows(Result<Seq<WindowView>, NiriErrorView>),
    Workspaces(Result<Seq<WorkspaceView>, NiriErrorView>),
    Written(Result<(), WriteFailureView>),
}

impl View for SaveEvent {
    type V = SaveEventView;

    open spec fn view(&self) -> SaveEventView {
        match self {
            SaveEvent::Windows(Ok(windows)) => SaveEventView::Windows(Ok(windows.deep_view())),
            SaveEvent::Windows(Err(err)) => SaveEventView::Windows(Err(err@)),
            SaveEvent::Workspaces(Ok(workspaces)) => SaveEventView::Workspaces(
                Ok(workspaces.deep_view()),
            ),
            SaveEvent::Workspaces(Err(err)) => SaveEventView::Workspaces(Err(err@)),
            SaveEvent::Written(Ok(())) => SaveEventView::Written(Ok(())),
            SaveEvent::Written(Err(failure)) => SaveEventView::Written(Err(failure@)),
        }
    }
}

/// What is to be done in a phase.
pub open spec fn save_task_of(opts: SaveOptionsView, phase: SavePhaseView) -> SaveTaskView {
    match phase {
        SavePhaseView::Windows => SaveTaskView::ListWindows,
        SavePhaseView::Workspaces { .. } => SaveTaskView::ListWorkspaces,
        SavePhaseView::Writing { windows, workspaces } => SaveTaskView::Write(
            crate::session::saved_session(windows, workspaces, opts.config),
        ),
        SavePhaseView::Finished(outcome) => SaveTaskView::Finish(outcome),
    }
}

/// The phase after an event.
pub open spec fn save_after(
    opts: SaveOptionsView,
    phase: SavePhaseView,
    event: SaveEventView,
) -> SavePhaseView {
    match (phase, event) {
        (SavePhaseView::Windows, SaveEventView::Windows(Ok(windows))) => {
            SavePhaseView::Workspaces { windows }
        },
        (SavePhaseView::Windows, SaveEventView::Windows(Err(err))) => SavePhaseView::Finished(
            Err(SaveErrorView::Niri(err)),
        ),
        (SavePhaseView::Workspaces { windows }, SaveEventView::Workspaces(Ok(workspaces))) => {
            match save_outcome(windows, workspaces, opts.config, opts.skip_empty) {
                SaveOutcome::Preserve => SavePhaseView::Finished(Ok(())),
                SaveOutcome::Write(_) => SavePhaseView::Writing { windows, workspaces },
            }
        },
        (SavePhaseView::Workspaces { .. }, SaveEventView::Workspaces(Err(err))) => {
            SavePhaseView::Finished(Err(SaveErrorView::Niri(err)))
        },
        (SavePhaseView::Writing { .. }, SaveEventView::Written(written)) => SavePhaseView::Finished(
            match written {
                Ok(()) => Ok(()),
                Err(WriteFailureView::Serialize(e)) => Err(SaveErrorView::Serialize(e)),
                Err(WriteFailureView::Write(e)) => Err(
                    SaveErrorView::Write { file_path: opts.file_path, reason: e },
                ),
            },
        ),
        _ => phase,
    }
}

/// What the user is told about an event.
pub open spec fn save_notice(
    opts: SaveOptionsView,
    phase: SavePhaseView,
    event: SaveEventView,
) -> Option<NoticeView> {
    match (phase, event) {
        (SavePhaseView::Workspaces { windows }, SaveEventView::Workspaces(Ok(workspaces))) => {
            match save_outcome(windows, workspaces, opts.config, opts.skip_empty) {
                SaveOutcome::Preserve => Some(
                    NoticeView {
                        level: Level::Debug,
                        text:
                            "no windows found during shutdown, preserving existing session file"@,
                    },
                ),
                SaveOutcome::Write(_) => None,
            }
        },
        (SavePhaseView::Writing { .. }, SaveEventView::Written(Ok(()))) => Some(
            NoticeView { level: Level::Debug, text: "saved session to "@ + opts.file_path },
        ),
        _ => None,
    }
}

/// A session that is being saved.
pub struct SessionSave<'c> {
    opts: SaveOptions<'c>,
    phase: SavePhase,
}

/// Saves the open windows to the session file.
pub fn save_session<'c>(opts: SaveOptions<'c>) -> (res: SessionSave<'c>)
    ensures
        res.opts() == opts@,
        res.phase() == SavePhaseView::Windows,
{
    SessionSave { opts, phase: SavePhase::Windows }
}

impl<'c> SessionSave<'c> {
    /// How the session is saved.
    pub closed spec fn opts(self) -> SaveOptionsView {
        self.opts@
    }

    /// How far saving has come.
    pub closed spec fn phase(self) -> SavePhaseView {
        self.phase.shown()
    }

    /// What is to be done next.
    pub fn task(&self) -> (res: SaveTask<'_>)
        ensures
            res@ == save_task_of(self.opts(), self.phase()),
    {
        match &self.phase {
            SavePhase::Windows => SaveTask::ListWindows,
            SavePhase::Workspaces { .. } => SaveTask::ListWorkspaces,
            SavePhase::Writing { windows, workspaces } => SaveTask::Write(
                session_windows(windows, workspaces.as_slice(), self.opts.config),
            ),
            SavePhase::Finished(outcome) => match outcome {
                Ok(()) => SaveTask::Finish(Ok(())),
                Err(err) => SaveTask::Finish(Err(err.clone())),
            },
        }
    }

    /// Takes how the task went, and returns what the user is told about it. An event that does
    /// not belong to the task changes nothing.
    pub fn handle(self, event: SaveEvent) -> (res: (Self, Option<Notice>))
        ensures
            res.0.opts() == self.opts(),
            res.0.phase() == save_after(self.opts(), self.phase(), event@),
            res.1.deep_view() == save_notice(self.opts(), self.phase(), event@),
    {
        let SessionSave { opts, phase } = self;
        let (phase, notice): (SavePhase, Option<Notice>) = match (phase, event) {
            (SavePhase::Windows, SaveEvent::Windows(listed)) => match listed {
                Ok(windows) => (SavePhase::Workspaces { windows }, None),
                Err(err) => (SavePhase::Finished(Err(SaveError::Niri(err))), None),
            },
            (SavePhase::Workspaces { windows }, SaveEvent::Workspaces(listed)) => match listed {
                Ok(workspaces) => {
                    if opts.skip_empty && windows.len() == 0 {
                        let text: String =
                            "no windows found during shutdown, preserving existing session file".to_owned();
                        (
                            SavePhase::Finished(Ok(())),
                            Some(Notice { level: Level::Debug, text }),
                        )
                    } else {
                        (SavePhase::Writing { windows, workspaces }, None)
                    }
                },
                Err(err) => (SavePhase::Finished(Err(SaveError::Niri(err))), None),
            },
            (SavePhase::Writing { .. }, SaveEvent::Written(written)) => match written {
                Ok(()) => {
                    let text: String = joined("saved session to ", opts.file_path);
                    (SavePhase::Finished(Ok(())), Some(Notice { level: Level::Debug, text }))
                },
                Err(WriteFailure::Serialize(e)) => {
                    (SavePhase::Finished(Err(SaveError::Serialize(e))), None)
                },
                Err(WriteFailure::Write(reason)) => {
                    let file_path: String = opts.file_path.to_owned();
                    (SavePhase::Finished(Err(SaveError::Write { file_path, reason })), None)
                },
            },
            (phase, _) => (phase, None),
        };
        (SessionSave { opts, phase }, notice)
    }
}

/// Where empty window lists are skipped, no session without windows is ever written; where they
/// are not, something is always written.
pub proof fn law_stale_sessions_are_preserved(
    windows: Seq<WindowView>,
    workspaces: Seq<WorkspaceView>,
    config: ConfigView,
)
    ensures
        save_outcome(windows, workspaces, config, true) matches SaveOutcome::Write(session)
            ==> session.len() > 0,
        windows.len() == 0 ==> save_outcome(windows, workspaces, config, true)
            == SaveOutcome::Preserve,
        save_outcome(windows, workspaces, config, false) == SaveOutcome::Write(
            crate::session::saved_session(windows, workspaces, config),
        ),
{
}

/// The phase after several events.
pub open spec fn save_after_all(
    opts: SaveOptionsView,
    phase: SavePhaseView,
    events: Seq<SaveEventView>,
) -> SavePhaseView
    decreases events.len(),
{
    if events.len() == 0 {
        phase
    } else {
        save_after_all(opts, save_after(opts, phase, events[0]), events.drop_first())
    }
}

/// The session file is written with what saving these windows comes to, and not at all where
/// that is to leave it as it is.
pub proof fn law_what_is_written(
    opts: SaveOptionsView,
    windows: Seq<WindowView>,
    workspaces: Seq<WorkspaceView>,
)
    ensures
        ({
            let events = seq![
                SaveEventView::Windows(Ok(windows)),
                SaveEventView::Workspaces(Ok(workspaces)),
            ];
            let task = save_task_of(opts, save_after_all(opts, SavePhaseView::Windows, events));
            match save_outcome(windows, workspaces, opts.config, opts.skip_empty) {
                SaveOutcome::Preserve => task == SaveTaskView::Finish(Ok(())),
                SaveOutcome::Write(session) => task == SaveTaskView::Write(session),
            }
        }),
{
    let events = seq![
        SaveEventView::Windows(Ok(windows)),
        SaveEventView::Workspaces(Ok(workspaces)),
    ];
    let later = events.drop_first();
    let next = SavePhaseView::Workspaces { windows };
    let last = save_after(opts, next, later[0]);
    assert(save_after_all(opts, SavePhaseView::Windows, events) == save_after_all(
        opts,
        next,
        later,
    ));
    assert(save_after_all(opts, next, later) == save_after_all(opts, last, later.drop_first()));
    assert(save_after_all(opts, last, later.drop_first()) == last);
}

/// If Niri cannot be asked for the windows or the workspaces, saving ends with that error and
/// the session file is not written, whatever comes later.
pub proof fn law_failed_question_writes_nothing(
    opts: SaveOptionsView,
    phase: SavePhaseView,
    event: SaveEventView,
    err: NiriErrorView,
    later: Seq<SaveEventView>,
)
    requires
        phase is Windows && event == SaveEventView::Windows(Err(err)) || phase is Workspaces && event
            == SaveEventView::Workspaces(Err(err)),
    ensures
        save_after_all(opts, save_after(opts, phase, event), later) == SavePhaseView::Finished(
            Err(SaveErrorView::Niri(err)),
        ),
{
    lemma_end_stays(opts, save_after(opts, phase, event), later);
}

proof fn lemma_end_stays(
    opts: SaveOptionsView,
    phase: SavePhaseView,
    events: Seq<SaveEventView>,
)
    requires
        phase is Finished,
    ensures
        save_after_all(opts, phase, events) == phase,
    decreases events.len(),
{
    if events.len() > 0 {
        assert(save_after(opts, phase, events[0]) == phase);
        lemma_end_stays(opts, phase, events.drop_first());
    }
}

/// How many tasks saving can still take.
pub open spec fn save_tasks_left(phase: SavePhaseView) -> int {
    match phase {
        SavePhaseView::Windows => 3,
        SavePhaseView::Workspaces { .. } => 2,
        SavePhaseView::Writing { .. } => 1,
        SavePhaseView::Finished(_) => 0,
    }
}

/// Saving ends: an event either belongs to the task and leaves less to do, or changes nothing.
pub proof fn law_save_ends(opts: SaveOptionsView, phase: SavePhaseView, event: SaveEventView)
    ensures
        save_after(opts, phase, event) == phase || save_tasks_left(
            save_after(opts, phase, event),
        ) < save_tasks_left(phase),
        save_tasks_left(phase) == 0 <==> phase is Finished,
{
}

/// The session file is left alone exactly if empty window lists are skipped and no window is
/// open. In all other circumstances it is replaced, with one entry for each open window.
pub proof fn law_only_empty_lists_are_preserved(
    windows: Seq<WindowView>,
    workspaces: Seq<WorkspaceView>,
    config: ConfigView,
    skip_empty: bool,
)
    ensures
        save_outcome(windows, workspaces, config, skip_empty) is Preserve <==> skip_empty
            && windows.len() == 0,
        windows.len() > 0 || !skip_empty ==> save_outcome(windows, workspaces, config, skip_empty)
            == SaveOutcome::Write(crate::session::saved_session(windows, workspaces, config)),
        save_outcome(windows, workspaces, config, skip_empty) matches SaveOutcome::Write(session)
            ==> session.len() == windows.len(),
{
}

/// Whether empty lists are skipped makes no difference while a window is open.
pub proof fn law_skipping_matters_only_without_windows(
    windows: Seq<WindowView>,
    workspaces: Seq<WorkspaceView>,
    config: ConfigView,
)
    requires
        windows.len() > 0,
    ensures
        save_outcome(windows, workspaces, config, true) == save_outcome(
            windows,
            workspaces,
            config,
            false,
        ),
{
}

/// A save asks for the windows and then for the workspaces, each once; what fails ends it with
/// the reason.
pub proof fn law_save_asks_for_windows_and_workspaces(
    opts: SaveOptionsView,
    windows: Seq<WindowView>,
    workspaces: Seq<WorkspaceView>,
    err: NiriErrorView,
)
    ensures
        ({
            let asking = SavePhaseView::Windows;
            let next = SavePhaseView::Workspaces { windows };
            &&& save_task_of(opts, asking) == SaveTaskView::ListWindows
            &&& save_after(opts, asking, SaveEventView::Windows(Ok(windows))) == next
            &&& save_notice(opts, asking, SaveEventView::Windows(Ok(windows))) is None
            &&& save_task_of(opts, next) == SaveTaskView::ListWorkspaces
            &&& save_after(opts, asking, SaveEventView::Windows(Err(err)))
                == SavePhaseView::Finished(Err(SaveErrorView::Niri(err)))
            &&& save_notice(opts, asking, SaveEventView::Windows(Err(err))) is None
            &&& save_after(opts, next, SaveEventView::Workspaces(Err(err)))
                == SavePhaseView::Finished(Err(SaveErrorView::Niri(err)))
            &&& save_notice(opts, next, SaveEventView::Workspaces(Err(err))) is None
        }),
{
}

/// With both answers at hand, the entries of all open windows are written. Only where empty
/// lists are skipped and no window is open nothing is written; the user is then told so, and the
/// save has succeeded.
pub proof fn law_open_windows_are_written(
    opts: SaveOptionsView,
    windows: Seq<WindowView>,
    workspaces: Seq<WorkspaceView>,
)
    ensures
        ({
            let answered = SaveEventView::Workspaces(Ok(workspaces));
            let next = save_after(opts, SavePhaseView::Workspaces { windows }, answered);
            let told = save_notice(opts, SavePhaseView::Workspaces { windows }, answered);
            &&& windows.len() > 0 || !opts.skip_empty ==> {
                &&& save_task_of(opts, next) == SaveTaskView::Write(
                    crate::session::saved_session(windows, workspaces, opts.config),
                )
                &&& next == (SavePhaseView::Writing { windows, workspaces })
                &&& told is None
            }
            &&& windows.len() == 0 && opts.skip_empty ==> {
                &&& next == SavePhaseView::Finished(Ok(()))
                &&& save_task_of(opts, next) == SaveTaskView::Finish(Ok(()))
                &&& told == Some(
                    NoticeView {
                        level: Level::Debug,
                        text:
                            "no windows found during shutdown, preserving existing session file"@,
                    },
                )
            }
        }),
{
}

/// How writing the file went is how the save has ended; the user is told where the session was
/// saved exactly if it was.
pub proof fn law_write_decides_the_save(
    opts: SaveOptionsView,
    windows: Seq<WindowView>,
    workspaces: Seq<WorkspaceView>,
    e: Seq<char>,
)
    ensures
        ({
            let writing = SavePhaseView::Writing { windows, workspaces };
            let written = SaveEventView::Written(Ok(()));
            let unread = SaveEventView::Written(Err(WriteFailureView::Serialize(e)));
            let unwritten = SaveEventView::Written(Err(WriteFailureView::Write(e)));
            &&& save_after(opts, writing, written) == SavePhaseView::Finished(Ok(()))
            &&& save_notice(opts, writing, written) == Some(
                NoticeView { level: Level::Debug, text: "saved session to "@ + opts.file_path },
            )
            &&& save_after(opts, writing, unread) == SavePhaseView::Finished(
                Err(SaveErrorView::Serialize(e)),
            )
            &&& save_notice(opts, writing, unread) is None
            &&& save_after(opts, writing, unwritten) == SavePhaseView::Finished(
                Err(SaveErrorView::Write { file_path: opts.file_path, reason: e }),
            )
            &&& save_notice(opts, writing, unwritten) is None
        }),
{
}

/// A save that has ended stays as it ended, and an event that tells of something else than the
/// task changes nothing; the user is told of neither.
pub proof fn law_save_events_out_of_place_change_nothing(
    opts: SaveOptionsView,
    phase: SavePhaseView,
    event: SaveEventView,
)
    requires
        match save_task_of(opts, phase) {
            SaveTaskView::ListWindows => !(event is Windows),
            SaveTaskView::ListWorkspaces => !(event is Workspaces),
            SaveTaskView::Write(_) => !(event is Written),
            SaveTaskView::Finish(_) => true,
        },
    ensures
        save_after(opts, phase, event) == phase,
        save_notice(opts, phase, event) is None,
{
}

/// A save says how it ended.
pub proof fn law_save_end_is_shown(opts: SaveOptionsView, outcome: Result<(), SaveErrorView>)
    ensures
        save_task_of(opts, SavePhaseView::Finished(outcome)) == SaveTaskView::Finish(outcome),
{
}

/// A failure is described by what was tried and by the reason, and in one message by the first
/// of these.
pub proof fn law_save_errors_name_the_reason(err: SaveErrorView)
    ensures
        err.chain().len() > 0 && err.chain()[0] == err.message(),
        err matches SaveErrorView::Niri(inner) ==> err.chain() == seq![inner.message()],
        err matches SaveErrorView::Serialize(text) ==> err.chain() == seq![
            "Failed to serialize session data"@,
            text,
        ],
        err matches SaveErrorView::Write { file_path, reason } ==> err.chain() == seq![
            "Failed to write to session file: "@ + file_path,
            reason,
        ],
{
}

/// The views of options, errors, tasks and events hold all that these say.
pub proof fn law_saving_is_shown_whole(
    opts: SaveOptions,
    err: SaveError,
    task: SaveTask,
    event: SaveEvent,
)
    ensures
        opts@.file_path == opts.file_path@,
        opts@.config == opts.config@,
        opts@.skip_empty == opts.skip_empty,
        err matches SaveError::Niri(inner) ==> err@ == SaveErrorView::Niri(inner@),
        err matches SaveError::Serialize(text) ==> err@ == SaveErrorView::Serialize(text@),
        err matches SaveError::Write { file_path, reason } ==> err@ == (SaveErrorView::Write {
            file_path: file_path@,
            reason: reason@,
        }),
        task is ListWindows ==> task@ is ListWindows,
        task is ListWorkspaces ==> task@ is ListWorkspaces,
        task matches SaveTask::Write(session) ==> task@ == SaveTaskView::Write(
            session@.map_values(|window: SessionWindow| window@),
        ),
        task matches SaveTask::Finish(Ok(())) ==> task@ == SaveTaskView::Finish(Ok(())),
        task matches SaveTask::Finish(Err(e)) ==> task@ == SaveTaskView::Finish(Err(e@)),
        event matches SaveEvent::Windows(Ok(windows)) ==> event@ == SaveEventView::Windows(
            Ok(windows@.map_values(|window: Window| window@)),
        ),
        event matches SaveEvent::Windows(Err(e)) ==> event@ == SaveEventView::Windows(Err(e@)),
        event matches SaveEvent::Workspaces(Ok(workspaces)) ==> event@ == SaveEventView::Workspaces(
            Ok(workspaces@.map_values(|workspace: Workspace| workspace@)),
        ),
        event matches SaveEvent::Workspaces(Err(e)) ==> event@ == SaveEventView::Workspaces(
            Err(e@),
        ),
        event matches SaveEvent::Written(Ok(())) ==> event@ == SaveEventView::Written(Ok(())),
        event matches SaveEvent::Written(Err(WriteFailure::Serialize(e))) ==> event@
            == SaveEventView::Written(Err(WriteFailureView::Serialize(e@))),
        event matches SaveEvent::Written(Err(WriteFailure::Write(e))) ==> event@
            == SaveEventView::Written(Err(WriteFailureView::Write(e@))),
{
    if let SaveTask::Write(session) = task {
        assert(session.deep_view() =~= session@.map_values(|window: SessionWindow| window@));
    }
    if let SaveEvent::Windows(Ok(windows)) = event {
        assert(windows.deep_view() =~= windows@.map_values(|window: Window| window@));
    }
    if let SaveEvent::Workspaces(Ok(workspaces)) = event {
        assert(workspaces.deep_view() =~= workspaces@.map_values(
            |workspace: Workspace| workspace@,
        ));
    }
}

} // verus!
