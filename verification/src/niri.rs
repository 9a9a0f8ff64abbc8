//! What is said to Niri over its IPC socket, and what comes back.

use crate::text::joined;
use vstd::prelude::*;

verus! {

/// An open window, as far as a session needs it.
#[derive(Debug, PartialEq, Eq)]
pub struct Window {
    /// Unique id of the window while it is open.
    pub id: u64,
    /// Application id, if the window has set one.
    pub app_id: Option<String>,
    /// Id of the workspace the window is on, if any.
    pub workspace_id: Option<u64>,
    /// Whether the window is focused.
    pub is_focused: bool,
    /// Width and height in logical pixels.
    pub window_size: (i32, i32),
}

/// What a [`Window`] says.
pub struct WindowView {
    pub id: u64,
    pub app_id: Option<Seq<char>>,
    pub workspace_id: Option<u64>,
    pub is_focused: bool,
    pub window_size: (i32, i32),
}

impl View for Window {
    type V = WindowView;

    open spec fn view(&self) -> WindowView {
        WindowView {
            id: self.id,
            app_id: self.app_id.deep_view(),
            workspace_id: self.workspace_id,
            is_focused: self.is_focused,
            window_size: self.window_size,
        }
    }
}

impl DeepView for Window {
    type V = WindowView;

    open spec fn deep_view(&self) -> WindowView {
        self@
    }
}

/// A workspace.
#[derive(Debug, PartialEq, Eq)]
pub struct Workspace {
    /// Unique id of the workspace.
    pub id: u64,
    /// Index of the workspace on its monitor.
    pub idx: u8,
    /// Name of the workspace, in case of a named workspace.
    pub name: Option<String>,
    /// Name of the output the workspace is on.
    pub output: Option<String>,
}

/// What a [`Workspace`] says.
pub struct WorkspaceView {
    pub id: u64,
    pub idx: u8,
    pub name: Option<Seq<char>>,
    pub output: Option<Seq<char>>,
}

impl View for Workspace {
    type V = WorkspaceView;

    open spec fn view(&self) -> WorkspaceView {
        WorkspaceView {
            id: self.id,
            idx: self.idx,
            name: self.name.deep_view(),
            output: self.output.deep_view(),
        }
    }
}

impl DeepView for Workspace {
    type V = WorkspaceView;

    open spec fn deep_view(&self) -> WorkspaceView {
        self@
    }
}

/// Why Niri could not be asked, or did not answer as it should.
#[derive(Debug, PartialEq, Eq)]
pub enum NiriError {
    /// Niri refused the request, or answered something that was not asked for.
    Reply(String),
    /// The IPC socket could not be connected to; the text is that of the I/O error.
    Connect(String),
    /// The request could not be sent or its answer not read; the text is that of the I/O error.
    Send(String),
}

/// What a [`NiriError`] says.
pub enum NiriErrorView {
    Reply(Seq<char>),
    Connect(Seq<char>),
    Send(Seq<char>),
}

impl NiriErrorView {
    /// The message that a user sees.
    pub open spec fn message(self) -> Seq<char> {
        match self {
            NiriErrorView::Reply(text) => "Failed to communicate with Niri via IPC: "@ + text,
            NiriErrorView::Connect(text) => "Failed to connect to Niri's IPC socket: "@ + text,
            NiriErrorView::Send(text) => "Failed to send data to Niri's IPC socket: "@ + text,
        }
    }
}

impl View for NiriError {
    type V = NiriErrorView;

    open spec fn view(&self) -> NiriErrorView {
        match self {
            NiriError::Reply(text) => NiriErrorView::Reply(text@),
            NiriError::Connect(text) => NiriErrorView::Connect(text@),
            NiriError::Send(text) => NiriErrorView::Send(text@),
        }
    }
}

impl Clone for NiriError {
    fn clone(&self) -> (res: Self)
        ensures
            res@ == self@,
    {
        match self {
            NiriError::Reply(text) => NiriError::Reply(text.clone()),
            NiriError::Connect(text) => NiriError::Connect(text.clone()),
            NiriError::Send(text) => NiriError::Send(text.clone()),
        }
    }
}

impl NiriError {
    /// The message that a user sees.
    pub fn message(&self) -> (res: String)
        ensures
            res@ == self@.message(),
    {
        match self {
            NiriError::Reply(text) => {
                joined("Failed to communicate with Niri via IPC: ", text.as_str())
            },
            NiriError::Connect(text) => {
                joined("Failed to connect to Niri's IPC socket: ", text.as_str())
            },
            NiriError::Send(text) => {
                joined("Failed to send data to Niri's IPC socket: ", text.as_str())
            },
        }
    }
}

pub type NiriResult<T> = Result<T, NiriError>;

/// How one question to Niri went: connecting, sending it and reading the answer.
#[derive(Debug, PartialEq, Eq)]
pub enum Exchange<T> {
    /// Connecting failed, with this I/O error.
    ConnectFailed(String),
    /// Sending or reading failed, with this I/O error.
    SendFailed(String),
    /// Niri answered with an error message.
    Refused(String),
    /// Niri answered what was asked for.
    Answered(T),
    /// Niri answered something else, which prints as this.
    Unexpected(String),
}

/// What a question that went as `exchange` comes to.
pub open spec fn exchange_result<T>(exchange: Exchange<T>, res: NiriResult<T>) -> bool {
    match exchange {
        Exchange::ConnectFailed(e) => res matches Err(err) && err@ == NiriErrorView::Connect(e@),
        Exchange::SendFailed(e) => res matches Err(err) && err@ == NiriErrorView::Send(e@),
        Exchange::Refused(e) => res matches Err(err) && err@ == NiriErrorView::Reply(e@),
        Exchange::Answered(answer) => res == NiriResult::Ok(answer),
        Exchange::Unexpected(shown) => res matches Err(err) && err@ == NiriErrorView::Reply(
            "Unexpected response from Niri: "@ + shown@,
        ),
    }
}

fn conclude<T>(exchange: Exchange<T>) -> (res: NiriResult<T>)
    ensures
        exchange_result(exchange, res),
{
    match exchange {
        Exchange::ConnectFailed(e) => Err(NiriError::Connect(e)),
        Exchange::SendFailed(e) => Err(NiriError::Send(e)),
        Exchange::Refused(e) => Err(NiriError::Reply(e)),
        Exchange::Answered(answer) => Ok(answer),
        Exchange::Unexpected(shown) => Err(
            NiriError::Reply(joined("Unexpected response from Niri: ", shown.as_str())),
        ),
    }
}

/// The open windows, from the exchange that asked for them.
pub fn niri_windows(exchange: Exchange<Vec<Window>>) -> (res: NiriResult<Vec<Window>>)
    ensures
        exchange_result(exchange, res),
{
    conclude(exchange)
}

/// The workspaces, from the exchange that asked for them.
pub fn niri_workspaces(exchange: Exchange<Vec<Workspace>>) -> (res: NiriResult<Vec<Workspace>>)
    ensures
        exchange_result(exchange, res),
{
    conclude(exchange)
}

/// How a workspace is referred to in a request.
#[derive(Debug, PartialEq, Eq)]
pub enum WorkspaceReference {
    /// By its index on its monitor.
    Index(u8),
    /// By its name.
    Name(String),
}

/// What a [`WorkspaceReference`] says.
pub enum WorkspaceReferenceView {
    Index(u8),
    Name(Seq<char>),
}

impl View for WorkspaceReference {
    type V = WorkspaceReferenceView;

    open spec fn view(&self) -> WorkspaceReferenceView {
        match self {
            WorkspaceReference::Index(idx) => WorkspaceReferenceView::Index(*idx),
            WorkspaceReference::Name(name) => WorkspaceReferenceView::Name(name@),
        }
    }
}

/// An action that Niri is asked to perform.
#[derive(Debug, PartialEq, Eq)]
pub enum Action {
    /// Start a program.
    Spawn { command: Vec<String> },
    /// Move the window to the output of that name.
    MoveWindowToMonitor { id: u64, output: String },
    /// Move the window to a workspace; `focus` says whether the focus follows it.
    MoveWindowToWorkspace { window_id: u64, reference: WorkspaceReference, focus: bool },
    /// Set the width in logical pixels.
    SetWindowWidth { id: u64, width: i32 },
    /// Set the height in logical pixels.
    SetWindowHeight { id: u64, height: i32 },
}

/// What an [`Action`] says.
pub enum ActionView {
    Spawn { command: Seq<Seq<char>> },
    MoveWindowToMonitor { id: u64, output: Seq<char> },
    MoveWindowToWorkspace { window_id: u64, reference: WorkspaceReferenceView, focus: bool },
    SetWindowWidth { id: u64, width: i32 },
    SetWindowHeight { id: u64, height: i32 },
}

impl View for Action {
    type V = ActionView;

    open spec fn view(&self) -> ActionView {
        match self {
            Action::Spawn { command } => ActionView::Spawn { command: command.deep_view() },
            Action::MoveWindowToMonitor { id, output } => ActionView::MoveWindowToMonitor {
                id: *id,
                output: output@,
            },
            Action::MoveWindowToWorkspace { window_id, reference, focus } => {
                ActionView::MoveWindowToWorkspace {
                    window_id: *window_id,
                    reference: reference@,
                    focus: *focus,
                }
            },
            Action::SetWindowWidth { id, width } => ActionView::SetWindowWidth {
                id: *id,
                width: *width,
            },
            Action::SetWindowHeight { id, height } => ActionView::SetWindowHeight {
                id: *id,
                height: *height,
            },
        }
    }
}

/// Niri's answer to an action.
#[derive(Debug, PartialEq, Eq)]
pub enum Reply {
    /// The action was carried out.
    Handled,
    /// Some other answer that is no error.
    Other,
    /// An error message.
    Refused(String),
}

/// What a [`Reply`] says.
pub enum ReplyView {
    Handled,
    Other,
    Refused(Seq<char>),
}

impl View for Reply {
    type V = ReplyView;

    open spec fn view(&self) -> ReplyView {
        match self {
            Reply::Handled => ReplyView::Handled,
            Reply::Other => ReplyView::Other,
            Reply::Refused(text) => ReplyView::Refused(text@),
        }
    }
}

/// A question succeeds exactly if Niri answers what was asked for, with that answer. Otherwise
/// the message says at which step it failed and ends with what is known of the reason.
pub proof fn law_question_succeeds_if_answered<T>(exchange: Exchange<T>, res: NiriResult<T>)
    requires
        exchange_result(exchange, res),
    ensures
        res is Ok <==> exchange is Answered,
        exchange matches Exchange::Answered(answer) ==> res == NiriResult::Ok(answer),
        exchange matches Exchange::ConnectFailed(e) ==> res->Err_0@ is Connect
            && res->Err_0@.message() == "Failed to connect to Niri's IPC socket: "@ + e@,
        exchange matches Exchange::SendFailed(e) ==> res->Err_0@ is Send && res->Err_0@.message()
            == "Failed to send data to Niri's IPC socket: "@ + e@,
        exchange matches Exchange::Refused(e) ==> res->Err_0@ is Reply && res->Err_0@.message()
            == "Failed to communicate with Niri via IPC: "@ + e@,
        exchange matches Exchange::Unexpected(shown) ==> res->Err_0@ is Reply
            && res->Err_0@.message() == "Failed to communicate with Niri via IPC: "@ + (
        "Unexpected response from Niri: "@ + shown@),
{
}

/// Every message says what failed and ends with the text that the error carries.
pub proof fn law_message_ends_with_the_text(text: Seq<char>)
    ensures
        NiriErrorView::Reply(text).message() == "Failed to communicate with Niri via IPC: "@ + text,
        NiriErrorView::Connect(text).message() == "Failed to connect to Niri's IPC socket: "@
            + text,
        NiriErrorView::Send(text).message() == "Failed to send data to Niri's IPC socket: "@ + text,
{
}

/// The view of a window holds all that is known of it.
pub proof fn law_window_is_shown_whole(window: Window)
    ensures
        window@.id == window.id,
        window.app_id matches Some(text) ==> window@.app_id == Some(text@),
        window.app_id is None ==> window@.app_id is None,
        window@.workspace_id == window.workspace_id,
        window@.is_focused == window.is_focused,
        window@.window_size == window.window_size,
        window.deep_view() == window@,
{
}

/// The view of a workspace holds all that is known of it.
pub proof fn law_workspace_is_shown_whole(workspace: Workspace)
    ensures
        workspace@.id == workspace.id,
        workspace@.idx == workspace.idx,
        workspace.name matches Some(text) ==> workspace@.name == Some(text@),
        workspace.name is None ==> workspace@.name is None,
        workspace.output matches Some(text) ==> workspace@.output == Some(text@),
        workspace.output is None ==> workspace@.output is None,
        workspace.deep_view() == workspace@,
{
}

/// The views of errors, replies, references and actions hold all that these say.
pub proof fn law_requests_and_replies_are_shown_whole(
    err: NiriError,
    reply: Reply,
    reference: WorkspaceReference,
    action: Action,
)
    ensures
        err matches NiriError::Reply(text) ==> err@ == NiriErrorView::Reply(text@),
        err matches NiriError::Connect(text) ==> err@ == NiriErrorView::Connect(text@),
        err matches NiriError::Send(text) ==> err@ == NiriErrorView::Send(text@),
        reply is Handled ==> reply@ is Handled,
        reply is Other ==> reply@ is Other,
        reply matches Reply::Refused(text) ==> reply@ == ReplyView::Refused(text@),
        reference matches WorkspaceReference::Index(idx) ==> reference@
            == WorkspaceReferenceView::Index(idx),
        reference matches WorkspaceReference::Name(name) ==> reference@
            == WorkspaceReferenceView::Name(name@),
        action matches Action::Spawn { command } ==> action@ == (ActionView::Spawn {
            command: command@.map_values(|arg: String| arg@),
        }),
        action matches Action::MoveWindowToMonitor { id, output } ==> action@
            == (ActionView::MoveWindowToMonitor { id, output: output@ }),
        action matches Action::MoveWindowToWorkspace { window_id, reference, focus } ==> action@
            == (ActionView::MoveWindowToWorkspace { window_id, reference: reference@, focus }),
        action matches Action::SetWindowWidth { id, width } ==> action@
            == (ActionView::SetWindowWidth { id, width }),
        action matches Action::SetWindowHeight { id, height } ==> action@
            == (ActionView::SetWindowHeight { id, height }),
{
    if let Action::Spawn { command } = action {
        assert(command.deep_view() =~= command@.map_values(|arg: String| arg@));
    }
}

} // verus!
