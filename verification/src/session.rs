//! The saved session: what is written of each window.

use crate::command::{LaunchCommand, LaunchCommandView};
use crate::config::{Config, ConfigView};
use crate::niri::{Window, WindowView, Workspace, WorkspaceView};
use vstd::prelude::*;

verus! {

/// Window data for session persistence (excludes the title).
#[derive(Debug, PartialEq, Eq)]
pub struct SessionWindow<'niri> {
    pub id: u64,
    /// The application id of the window.
    pub app_id: Option<String>,
    /// The launch command to spawn this window (mapped from `app_id` via the configuration,
    /// otherwise `app_id` if no mapping exists).
    pub launch_command: Option<LaunchCommand>,
    /// Index of the workspace on the corresponding monitor.
    pub workspace_idx: Option<u8>,
    /// Name of the workspace, in case of a named workspace.
    pub workspace_name: Option<&'niri str>,
    /// Output the workspace is on.
    pub workspace_output: Option<&'niri str>,
    /// Whether the window is focused or not.
    pub is_focused: bool,
    /// Window size (width, height) in logical pixels.
    pub window_size: Option<(i32, i32)>,
}

/// What a [`SessionWindow`] says.
pub struct SessionWindowView {
    pub id: u64,
    pub app_id: Option<Seq<char>>,
    pub launch_command: Option<LaunchCommandView>,
    pub workspace_idx: Option<u8>,
    pub workspace_name: Option<Seq<char>>,
    pub workspace_output: Option<Seq<char>>,
    pub is_focused: bool,
    pub window_size: Option<(i32, i32)>,
}

impl<'niri> View for SessionWindow<'niri> {
    type V = SessionWindowView;

    open spec fn view(&self) -> SessionWindowView {
        SessionWindowView {
            id: self.id,
            app_id: self.app_id.deep_view(),
            launch_command: self.launch_command.deep_view(),
            workspace_idx: self.workspace_idx,
            workspace_name: self.workspace_name.deep_view(),
            workspace_output: self.workspace_output.deep_view(),
            is_focused: self.is_focused,
            window_size: self.window_size,
        }
    }
}

impl<'niri> DeepView for SessionWindow<'niri> {
    type V = SessionWindowView;

    open spec fn deep_view(&self) -> SessionWindowView {
        self@
    }
}

/// The first of `workspaces` whose id is `id`.
pub open spec fn workspace_of(id: Option<u64>, workspaces: Seq<WorkspaceView>) -> Option<
    WorkspaceView,
>
    decreases workspaces.len(),
{
    if workspaces.len() == 0 {
        None
    } else if id == Some(workspaces[0].id) {
        Some(workspaces[0])
    } else {
        workspace_of(id, workspaces.drop_first())
    }
}

/// What is saved of `window`.
pub open spec fn saved_window(
    window: WindowView,
    workspaces: Seq<WorkspaceView>,
    config: ConfigView,
) -> SessionWindowView {
    let workspace = workspace_of(window.workspace_id, workspaces);
    SessionWindowView {
        id: window.id,
        app_id: window.app_id,
        launch_command: match window.app_id {
            Some(app_id) => Some(config.command_for(app_id)),
            None => None,
        },
        workspace_idx: match workspace {
            Some(w) => Some(w.idx),
            None => None,
        },
        workspace_name: match workspace {
            Some(w) => w.name,
            None => None,
        },
        workspace_output: match workspace {
            Some(w) => w.output,
            None => None,
        },
        is_focused: window.is_focused,
        window_size: Some(window.window_size),
    }
}

/// What is saved of `windows`: one entry for each, in their order.
pub open spec fn saved_session(
    windows: Seq<WindowView>,
    workspaces: Seq<WorkspaceView>,
    config: ConfigView,
) -> Seq<SessionWindowView> {
    windows.map_values(|window: WindowView| saved_window(window, workspaces, config))
}

/// The workspace that `window` is on: the first of that id.
pub fn find_workspace_for_window<'niri>(window: &Window, workspaces: &'niri [Workspace]) -> (res:
    Option<&'niri Workspace>)
    ensures
        res.deep_view() == workspace_of(window@.workspace_id, workspaces.deep_view()),
{
    let ghost all = workspaces.deep_view();
    let mut i: usize = 0;
    assert(all.skip(0) == all);
    while i < workspaces.len()
        invariant
            all == workspaces.deep_view(),
            i <= workspaces.len(),
            workspace_of(window@.workspace_id, all) == workspace_of(
                window@.workspace_id,
                all.skip(i as int),
            ),
        decreases workspaces.len() - i,
    {
        let workspace = &workspaces[i];
        assert(all.skip(i as int)[0] == workspace@);
        if let Some(id) = window.workspace_id {
            if id == workspace.id {
                return Some(workspace);
            }
        }
        assert(all.skip(i as int).drop_first() == all.skip(i + 1));
        i = i + 1;
    }
    None
}

/// The slice that an optional string holds.
fn as_text(s: &Option<String>) -> (res: Option<&str>)
    ensures
        res.deep_view() == s.deep_view(),
{
    match s {
        Some(text) => Some(text.as_str()),
        None => None,
    }
}

/// What is saved of one window.
pub fn session_window<'niri>(
    window: &Window,
    workspaces: &'niri [Workspace],
    config: &Config,
) -> (res: SessionWindow<'niri>)
    ensures
        res@ == saved_window(window@, workspaces.deep_view(), config@),
{
    let workspace = find_workspace_for_window(window, workspaces);
    // Map the application id to its launch command if it exists in the configuration
    let launch_command: Option<LaunchCommand> = match &window.app_id {
        Some(app_id) => Some(config.command_for(app_id)),
        None => None,
    };
    SessionWindow {
        id: window.id,
        app_id: match &window.app_id {
            Some(app_id) => Some(app_id.clone()),
            None => None,
        },
        launch_command,
        workspace_idx: match workspace {
            Some(w) => Some(w.idx),
            None => None,
        },
        workspace_name: match workspace {
            Some(w) => as_text(&w.name),
            None => None,
        },
        workspace_output: match workspace {
            Some(w) => as_text(&w.output),
            None => None,
        },
        is_focused: window.is_focused,
        window_size: Some(window.window_size),
    }
}

/// What is saved of all windows, in their order.
pub fn session_windows<'niri>(
    windows: &Vec<Window>,
    workspaces: &'niri [Workspace],
    config: &Config,
) -> (res: Vec<SessionWindow<'niri>>)
    ensures
        res.deep_view() == saved_session(windows.deep_view(), workspaces.deep_view(), config@),
{
    let ghost target = saved_session(windows.deep_view(), workspaces.deep_view(), config@);
    let mut res: Vec<SessionWindow<'niri>> = Vec::new();
    let mut i: usize = 0;
    while i < windows.len()
        invariant
            i <= windows.len(),
            target == saved_session(windows.deep_view(), workspaces.deep_view(), config@),
            res.deep_view() == target.take(i as int),
        decreases windows.len() - i,
    {
        let ghost before = res.deep_view();
        res.push(session_window(&windows[i], workspaces, config));
        assert(windows.deep_view()[i as int] == windows@[i as int]@);
        assert(res.deep_view() == before.push(target[i as int]));
        assert(target.take(i + 1) == target.take(i as int).push(target[i as int]));
        i = i + 1;
    }
    assert(target.take(i as int) == target);
    res
}

/// Saving keeps every window, in its order, with its application id, its focus and its size.
pub proof fn law_save_keeps_every_window(
    windows: Seq<WindowView>,
    workspaces: Seq<WorkspaceView>,
    config: ConfigView,
)
    ensures
        ({
            let session = saved_session(windows, workspaces, config);
            &&& session.len() == windows.len()
            &&& forall|i: int|
                0 <= i < windows.len() ==> {
                    &&& (#[trigger] session[i]).id == windows[i].id
                    &&& session[i].app_id == windows[i].app_id
                    &&& session[i].is_focused == windows[i].is_focused
                    &&& session[i].window_size == Some(windows[i].window_size)
                }
        }),
{
}

/// A saved window has a launch command exactly if it has an application id: the configured
/// command, and without one the id itself.
pub proof fn law_saved_command(
    window: WindowView,
    workspaces: Seq<WorkspaceView>,
    config: ConfigView,
)
    ensures
        ({
            let saved = saved_window(window, workspaces, config);
            &&& saved.launch_command is Some <==> window.app_id is Some
            &&& window.app_id matches Some(app_id) ==> {
                &&& config.launch.contains_key(app_id) ==> saved.launch_command == Some(
                    config.launch[app_id],
                )
                &&& !config.launch.contains_key(app_id) ==> saved.launch_command == Some(
                    LaunchCommandView::Shell(app_id),
                )
            }
        }),
{
}

/// Whether `w` is the first of `workspaces` whose id is `id`.
pub open spec fn first_of_id(id: u64, workspaces: Seq<WorkspaceView>, w: WorkspaceView) -> bool {
    exists|i: int|
        {
            &&& 0 <= i < workspaces.len()
            &&& #[trigger] workspaces[i] == w
            &&& w.id == id
            &&& forall|j: int| 0 <= j < i ==> (#[trigger] workspaces[j]).id != id
        }
}

/// The workspace that is found for a window is the first of the id that the window names, and
/// none is found only if there is none of that id.
pub proof fn law_workspace_of(id: Option<u64>, workspaces: Seq<WorkspaceView>)
    ensures
        workspace_of(id, workspaces) matches Some(w) ==> id is Some && first_of_id(
            id->0,
            workspaces,
            w,
        ),
        workspace_of(id, workspaces) is None ==> forall|i: int|
            0 <= i < workspaces.len() ==> id != Some((#[trigger] workspaces[i]).id),
    decreases workspaces.len(),
{
    if workspaces.len() > 0 {
        let rest = workspaces.drop_first();
        if id == Some(workspaces[0].id) {
            assert(first_of_id(id->0, workspaces, workspaces[0]));
        } else {
            law_workspace_of(id, rest);
            if let Some(w) = workspace_of(id, rest) {
                let k = choose|k: int|
                    {
                        &&& 0 <= k < rest.len()
                        &&& #[trigger] rest[k] == w
                        &&& w.id == id->0
                        &&& forall|j: int| 0 <= j < k ==> (#[trigger] rest[j]).id != id->0
                    };
                assert(workspaces[k + 1] == w);
                assert forall|j: int| 0 <= j < k + 1 implies (#[trigger] workspaces[j]).id
                    != id->0 by {
                    if j > 0 {
                        assert(workspaces[j] == rest[j - 1]);
                    }
                }
            } else {
                assert forall|i: int| 0 <= i < workspaces.len() implies id != Some(
                    (#[trigger] workspaces[i]).id,
                ) by {
                    if i > 0 {
                        assert(workspaces[i] == rest[i - 1]);
                    }
                }
            }
        }
    }
}

/// What is saved of each window, field by field: what the window itself says, the command that
/// is configured for its application or else the application id, and the place of the first
/// workspace with the id that the window names, or no place if there is none.
pub proof fn law_saved_entry(
    windows: Seq<WindowView>,
    workspaces: Seq<WorkspaceView>,
    config: ConfigView,
    i: int,
    k: int,
)
    requires
        0 <= i < windows.len(),
    ensures
        ({
            let saved = saved_session(windows, workspaces, config)[i];
            let window = windows[i];
            &&& saved_session(windows, workspaces, config).len() == windows.len()
            &&& saved.id == window.id
            &&& saved.app_id == window.app_id
            &&& saved.is_focused == window.is_focused
            &&& saved.window_size == Some(window.window_size)
            &&& window.app_id is None ==> saved.launch_command is None
            &&& window.app_id matches Some(app_id) ==> {
                &&& config.launch.contains_key(app_id) ==> saved.launch_command == Some(
                    config.launch[app_id],
                )
                &&& !config.launch.contains_key(app_id) ==> saved.launch_command == Some(
                    LaunchCommandView::Shell(app_id),
                )
            }
            &&& {
                &&& 0 <= k < workspaces.len()
                &&& window.workspace_id == Some(workspaces[k].id)
                &&& forall|j: int|
                    0 <= j < k ==> (#[trigger] workspaces[j]).id != workspaces[k].id
            } ==> {
                &&& saved.workspace_idx == Some(workspaces[k].idx)
                &&& saved.workspace_name == workspaces[k].name
                &&& saved.workspace_output == workspaces[k].output
            }
            &&& (forall|j: int|
                0 <= j < workspaces.len() ==> window.workspace_id != Some(
                    (#[trigger] workspaces[j]).id,
                )) ==> {
                &&& saved.workspace_idx is None
                &&& saved.workspace_name is None
                &&& saved.workspace_output is None
            }
        }),
{
    let id = windows[i].workspace_id;
    law_workspace_of(id, workspaces);
    if {
        &&& 0 <= k < workspaces.len()
        &&& id == Some(workspaces[k].id)
        &&& forall|j: int| 0 <= j < k ==> (#[trigger] workspaces[j]).id != workspaces[k].id
    } {
        let w = workspace_of(id, workspaces)->0;
        let n = choose|n: int|
            {
                &&& 0 <= n < workspaces.len()
                &&& #[trigger] workspaces[n] == w
                &&& w.id == id->0
                &&& forall|j: int| 0 <= j < n ==> (#[trigger] workspaces[j]).id != id->0
            };
        assert(n == k) by {
            if n < k {
                assert(workspaces[n].id != workspaces[k].id);
            }
            if k < n {
                assert(workspaces[k].id != id->0);
            }
        }
    }
}

/// The view of a saved window holds all that is saved of it.
pub proof fn law_saved_window_is_shown_whole(window: SessionWindow)
    ensures
        window@.id == window.id,
        window.app_id matches Some(text) ==> window@.app_id == Some(text@),
        window.app_id is None ==> window@.app_id is None,
        window.launch_command matches Some(text) ==> window@.launch_command == Some(text@),
        window.launch_command is None ==> window@.launch_command is None,
        window@.workspace_idx == window.workspace_idx,
        window.workspace_name matches Some(text) ==> window@.workspace_name == Some(text@),
        window.workspace_name is None ==> window@.workspace_name is None,
        window.workspace_output matches Some(text) ==> window@.workspace_output == Some(text@),
        window.workspace_output is None ==> window@.workspace_output is None,
        window@.is_focused == window.is_focused,
        window@.window_size == window.window_size,
        window.deep_view() == window@,
{
}

} // verus!
