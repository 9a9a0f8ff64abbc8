use nirinit::command::LaunchCommand;
use nirinit::config::{Config, Skip};
use nirinit::launch::{Event, LaunchError, LaunchJob, Task};
use nirinit::logger::{Level, Notice};
use nirinit::niri::{NiriError, Reply, Window, Workspace};
use nirinit::order::sort_for_restore;
use nirinit::restore::{
    plan_restore, restore_session, should_skip, RestoreError, RestoreEvent, RestoreStep,
    RestoreTask,
};
use nirinit::save::{save_session, SaveError, SaveEvent, SaveOptions, SaveTask, SessionSave};
use nirinit::session::SessionWindow;

fn saved<'a>(
    id: u64,
    app_id: Option<&str>,
    command: Option<&str>,
    output: Option<&'a str>,
    idx: Option<u8>,
) -> SessionWindow<'a> {
    SessionWindow {
        id,
        app_id: app_id.map(String::from),
        launch_command: command.map(|c| LaunchCommand::Shell(c.to_string())),
        workspace_idx: idx,
        workspace_name: None,
        workspace_output: output,
        is_focused: false,
        window_size: None,
    }
}

fn info(text: &str) -> Notice {
    Notice { level: Level::Info, text: text.to_string() }
}

fn list(apps: &[&str]) -> Vec<String> {
    apps.iter().map(|s| s.to_string()).collect()
}

/// A save that has been given the windows and the workspaces.
fn writing<'c>(
    config: &'c Config,
    skip_empty: bool,
    windows: Vec<Window>,
    workspaces: Vec<Workspace>,
) -> SessionSave<'c> {
    let save = save_session(SaveOptions { file_path: "/s.json", config, skip_empty });
    let (save, _) = save.handle(SaveEvent::Windows(Ok(windows)));
    save.handle(SaveEvent::Workspaces(Ok(workspaces))).0
}

#[test]
fn skipping_goes_by_id_command_or_program() {
    let command = LaunchCommand::Shell("ghostty -e tmux".to_string());
    assert!(!should_skip(&command, Some("com.ghostty"), &[]));
    assert!(should_skip(&command, Some("com.ghostty"), &list(&["com.ghostty"])));
    assert!(should_skip(&command, None, &list(&["kitty", "ghostty -e tmux"])));
    assert!(should_skip(&command, None, &list(&["ghostty"])));
    assert!(!should_skip(&command, None, &list(&["tmux", "ghostty -e"])));
    let args = LaunchCommand::Args(list(&["ghostty", "-e", "tmux"]));
    assert!(should_skip(&args, None, &list(&["ghostty -e tmux"])));
    assert!(should_skip(&LaunchCommand::Args(Vec::new()), None, &list(&[""])));
    assert!(!should_skip(&LaunchCommand::Shell(" ".to_string()), None, &list(&[""])));
}

#[test]
fn windows_are_sorted_as_the_standard_library_does() {
    let outputs = [Some("HDMI-A-1"), None, Some("DP-2"), Some("DP-10"), None, Some("DP-2")];
    let idxs = [Some(2), None, Some(1), Some(255), Some(0), None, Some(1)];
    let mut windows = Vec::new();
    let mut id = 0;
    for idx in idxs {
        for output in outputs {
            windows.push(saved(id, None, None, output, idx));
            id += 1;
        }
    }
    let mut expected: Vec<_> = windows
        .iter()
        .map(|w| (w.workspace_output, w.workspace_idx, w.id))
        .collect();
    expected.sort_by_key(|w| (w.0, w.1));
    let sorted: Vec<_> = sort_for_restore(windows)
        .iter()
        .map(|w| (w.workspace_output, w.workspace_idx, w.id))
        .collect();
    assert_eq!(sorted, expected);
    assert!(sort_for_restore(Vec::new()).is_empty());
}

#[test]
fn a_plan_has_what_is_started_and_skipped() {
    let session = vec![
        saved(1, Some("b"), Some("b"), Some("DP-1"), Some(2)),
        saved(2, Some("a"), Some("a --new"), Some("DP-1"), Some(1)),
        saved(3, None, None, None, None),
        saved(4, None, Some("kitty"), None, None),
        saved(5, None, Some("orphan"), None, None),
    ];
    let job = |app_id: &str, command: &str, idx| {
        RestoreStep::Launch(LaunchJob {
            launch_command: LaunchCommand::Shell(command.to_string()),
            app_id: app_id.to_string(),
            workspace_idx: Some(idx),
            workspace_name: None,
            workspace_output: Some("DP-1".to_string()),
            window_size: None,
        })
    };
    assert_eq!(
        plan_restore(session, &list(&["kitty"])),
        vec![RestoreStep::Skip("kitty".to_string()), job("a", "a --new", 1), job("b", "b", 2)]
    );
}

#[test]
fn what_was_saved_comes_back() {
    let mut config = Config::new(Skip { apps: list(&["skipped"]) });
    let mapped = LaunchCommand::Args(list(&["discord", "--tray"]));
    config.map_launch("chat".to_string(), mapped.clone());
    let workspaces = vec![Workspace {
        id: 3,
        idx: 4,
        name: Some("talk".to_string()),
        output: Some("eDP-1".to_string()),
    }];
    let window = |id, app_id: Option<&str>| Window {
        id,
        app_id: app_id.map(String::from),
        workspace_id: Some(3),
        is_focused: false,
        window_size: (300, 200),
    };
    let windows = vec![window(1, Some("chat")), window(2, None), window(3, Some("skipped"))];
    let save = writing(&config, false, windows, workspaces);
    let SaveTask::Write(session) = save.task() else {
        panic!("nothing was saved");
    };
    assert_eq!(
        plan_restore(session, config.skip_apps()),
        vec![
            RestoreStep::Launch(LaunchJob {
                launch_command: mapped,
                app_id: "chat".to_string(),
                workspace_idx: Some(4),
                workspace_name: Some("talk".to_string()),
                workspace_output: Some("eDP-1".to_string()),
                window_size: Some((300, 200)),
            }),
            RestoreStep::Skip("skipped".to_string()),
        ]
    );
}

#[test]
fn windows_of_one_program_all_come_back() {
    let config = Config::default();
    let window = |id, app_id: Option<&str>| Window {
        id,
        app_id: app_id.map(String::from),
        workspace_id: None,
        is_focused: false,
        window_size: (300, 200),
    };
    let windows =
        vec![window(1, Some("kitty")), window(2, Some("foot")), window(3, None), window(4, Some("kitty"))];
    let save = writing(&config, false, windows, Vec::new());
    let SaveTask::Write(session) = save.task() else {
        panic!("nothing was saved");
    };
    let started: Vec<String> = plan_restore(session, &[])
        .iter()
        .map(|step| match step {
            RestoreStep::Launch(job) => job.launch_command.display(),
            RestoreStep::Skip(_) => panic!("nothing is to be skipped"),
        })
        .collect();
    assert_eq!(started, list(&["kitty", "foot", "kitty"]));
}

#[test]
fn the_first_save_writes_an_empty_session() {
    let (restore, _) = restore_session("/s.json", &[]).handle(RestoreEvent::Checked(false));
    let RestoreTask::Save { skip_empty } = restore.task() else {
        panic!("the session is not saved");
    };
    let config = Config::default();
    let save = writing(&config, skip_empty, Vec::new(), Vec::new());
    assert_eq!(save.task(), SaveTask::Write(Vec::new()));
}

#[test]
fn without_a_file_the_session_is_saved() {
    let restore = restore_session("/s.json", &[]);
    assert_eq!(restore.task(), RestoreTask::Check);
    let (restore, told) = restore.handle(RestoreEvent::Checked(false));
    assert!(told.is_empty());
    assert_eq!(restore.task(), RestoreTask::Save { skip_empty: false });
    let (restore, told) = restore.handle(RestoreEvent::Saved(Ok(())));
    assert!(told.is_empty());
    assert_eq!(restore.task(), RestoreTask::Finish(Ok(())));

    let (restore, _) = restore_session("/s.json", &[]).handle(RestoreEvent::Checked(false));
    let failure = SaveError::Serialize("bad key".to_string());
    let (restore, _) = restore.handle(RestoreEvent::Saved(Err(failure.clone())));
    let err = RestoreError::Save(failure);
    assert_eq!(err.chain(), list(&["Failed to serialize session data", "bad key"]));
    assert_eq!(restore.task(), RestoreTask::Finish(Err(err)));
}

#[test]
fn an_empty_file_is_left_alone() {
    let (restore, told) = restore_session("/s.json", &[]).handle(RestoreEvent::Checked(true));
    assert_eq!(told, vec![info("restoring previous session")]);
    assert_eq!(restore.task(), RestoreTask::Read);
    let (restore, told) = restore.handle(RestoreEvent::Read(Ok("")));
    assert_eq!(told, vec![info("session file at /s.json is empty")]);
    assert_eq!(restore.task(), RestoreTask::Finish(Ok(())));
}

#[test]
fn unreadable_files_end_it() {
    let (restore, _) = restore_session("/s.json", &[]).handle(RestoreEvent::Checked(true));
    let (restore, _) = restore.handle(RestoreEvent::Read(Err("denied".to_string())));
    let err = RestoreError::Read("denied".to_string());
    assert_eq!(err.chain(), list(&["Failed to read session file", "denied"]));
    assert_eq!(restore.task(), RestoreTask::Finish(Err(err)));

    let (restore, _) = restore_session("/s.json", &[]).handle(RestoreEvent::Checked(true));
    let (restore, told) = restore.handle(RestoreEvent::Read(Ok("{")));
    assert!(told.is_empty());
    assert_eq!(restore.task(), RestoreTask::Load);
    let (restore, _) = restore.handle(RestoreEvent::Loaded(Err("EOF".to_string())));
    let err = RestoreError::Load("EOF".to_string());
    assert_eq!(err.chain(), list(&["Failed to load session data", "EOF"]));
    assert_eq!(restore.task(), RestoreTask::Finish(Err(err)));
}

#[test]
fn programs_are_started_one_after_the_other() {
    let apps = list(&["x", "y"]);
    let session = vec![
        saved(1, Some("x"), Some("x"), None, None),
        saved(2, Some("a"), Some("a"), None, None),
        saved(3, Some("y"), Some("y -n"), None, None),
        saved(4, Some("b"), Some("b"), None, None),
    ];
    let (restore, _) = restore_session("/s.json", &apps).handle(RestoreEvent::Checked(true));
    let (restore, _) = restore.handle(RestoreEvent::Read(Ok("[...]")));
    let (restore, told) = restore.handle(RestoreEvent::Loaded(Ok(session)));
    assert_eq!(told, vec![info("skipping command: x")]);
    assert_eq!(restore.task(), RestoreTask::Launch(Task::Connect));
    let (restore, _) = restore.handle(RestoreEvent::Launch(Event::Connected(Ok(()))));
    let (restore, told) = restore.handle(RestoreEvent::Launch(Event::Sent(Ok(Reply::Handled))));
    assert_eq!(told, vec![info("skipping command: y -n")]);
    assert_eq!(restore.task(), RestoreTask::Launch(Task::Connect));
    let (restore, _) = restore.handle(RestoreEvent::Launch(Event::Connected(Ok(()))));
    let (restore, told) = restore.handle(RestoreEvent::Launch(Event::Sent(Ok(Reply::Other))));
    let text = "failed to spawn command `b`".to_string();
    assert_eq!(told, vec![Notice { level: Level::Error, text }, info("restored session")]);
    assert_eq!(restore.task(), RestoreTask::Finish(Ok(())));
}

#[test]
fn the_first_failure_ends_it() {
    let session = vec![
        saved(1, Some("a"), Some("a"), None, None),
        saved(2, Some("b"), Some("b"), None, None),
    ];
    let (restore, _) = restore_session("/s.json", &[]).handle(RestoreEvent::Checked(true));
    let (restore, _) = restore.handle(RestoreEvent::Read(Ok("[...]")));
    let (restore, _) = restore.handle(RestoreEvent::Loaded(Ok(session)));
    let (restore, _) = restore.handle(RestoreEvent::Launch(Event::Connected(Ok(()))));
    let (restore, told) =
        restore.handle(RestoreEvent::Launch(Event::Sent(Err("broken pipe".to_string()))));
    assert!(told.is_empty());
    let err = RestoreError::Launch(LaunchError::Niri(NiriError::Send("broken pipe".to_string())));
    assert_eq!(err.chain(), list(&["Failed to send data to Niri's IPC socket: broken pipe"]));
    assert_eq!(restore.task(), RestoreTask::Finish(Err(err.clone())));
    let (restore, _) = restore.handle(RestoreEvent::Checked(true));
    assert_eq!(restore.task(), RestoreTask::Finish(Err(err)));
}

#[test]
fn a_session_without_windows_is_restored() {
    let (restore, _) = restore_session("/s.json", &[]).handle(RestoreEvent::Checked(true));
    let (restore, _) = restore.handle(RestoreEvent::Read(Ok("[]")));
    let (restore, told) = restore.handle(RestoreEvent::Loaded(Ok(Vec::new())));
    assert_eq!(told, vec![info("restored session")]);
    assert_eq!(restore.task(), RestoreTask::Finish(Ok(())));
}

#[test]
fn starting_a_program_takes_a_limited_number_of_tasks() {
    let session = vec![saved(1, Some("a"), Some("a"), None, Some(1))];
    let (restore, _) = restore_session("/s.json", &[]).handle(RestoreEvent::Checked(true));
    let (restore, _) = restore.handle(RestoreEvent::Read(Ok("[...]")));
    let (mut restore, _) = restore.handle(RestoreEvent::Loaded(Ok(session)));
    let mut tasks = 0;
    while let RestoreTask::Launch(task) = restore.task() {
        let event = match task {
            Task::Connect => Event::Connected(Ok(())),
            Task::Send(_) => Event::Sent(Ok(Reply::Handled)),
            Task::Sleep(_) => Event::Slept,
            Task::ListWindows => Event::Listed(Ok(Vec::new())),
            Task::Finish(_) => panic!("a finished program has a task"),
        };
        tasks += 1;
        let (next, _) = restore.handle(RestoreEvent::Launch(event));
        restore = next;
    }
    assert_eq!(tasks, 42);
    assert_eq!(restore.task(), RestoreTask::Finish(Ok(())));
}
