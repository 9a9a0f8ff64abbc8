use nirinit::command::LaunchCommand;
use nirinit::config::{config_or_default, Config, Skip};
use nirinit::logger::{Level, Notice};
use nirinit::niri::{niri_windows, niri_workspaces, Exchange, NiriError, Window, Workspace};
use nirinit::save::{
    save_session, SaveError, SaveEvent, SaveOptions, SaveTask, SessionSave, WriteFailure,
};
use nirinit::session::{find_workspace_for_window, SessionWindow};

fn window(id: u64, app_id: Option<&str>, workspace_id: Option<u64>) -> Window {
    Window {
        id,
        app_id: app_id.map(String::from),
        workspace_id,
        is_focused: id == 1,
        window_size: (800, 600),
    }
}

fn workspace(id: u64, idx: u8, name: Option<&str>, output: Option<&str>) -> Workspace {
    Workspace { id, idx, name: name.map(String::from), output: output.map(String::from) }
}

/// A save that has been given the windows and the workspaces, and what the user was told.
fn listed<'c>(
    config: &'c Config,
    skip_empty: bool,
    windows: Vec<Window>,
    workspaces: Vec<Workspace>,
) -> (SessionSave<'c>, Option<Notice>) {
    let save = save_session(SaveOptions { file_path: "/s.json", config, skip_empty });
    let (save, told) = save.handle(SaveEvent::Windows(Ok(windows)));
    assert_eq!(told, None);
    save.handle(SaveEvent::Workspaces(Ok(workspaces)))
}

fn debug(text: &str) -> Option<Notice> {
    Some(Notice { level: Level::Debug, text: text.to_string() })
}

#[test]
fn exchanges_become_results() {
    let windows = vec![window(1, Some("kitty"), None)];
    assert_eq!(
        niri_windows(Exchange::Answered(windows)),
        Ok(vec![window(1, Some("kitty"), None)])
    );
    assert_eq!(
        niri_windows(Exchange::ConnectFailed("no socket".to_string())),
        Err(NiriError::Connect("no socket".to_string()))
    );
    assert_eq!(
        niri_windows(Exchange::SendFailed("broken pipe".to_string())),
        Err(NiriError::Send("broken pipe".to_string()))
    );
    assert_eq!(
        niri_workspaces(Exchange::Refused("not now".to_string())),
        Err(NiriError::Reply("not now".to_string()))
    );
    assert_eq!(
        niri_workspaces(Exchange::Unexpected("Handled".to_string())),
        Err(NiriError::Reply("Unexpected response from Niri: Handled".to_string()))
    );
    assert_eq!(niri_workspaces(Exchange::Answered(Vec::new())), Ok(Vec::new()));
}

#[test]
fn errors_have_messages() {
    assert_eq!(
        NiriError::Reply("x".to_string()).message(),
        "Failed to communicate with Niri via IPC: x"
    );
    assert_eq!(
        NiriError::Connect("x".to_string()).message(),
        "Failed to connect to Niri's IPC socket: x"
    );
    assert_eq!(
        NiriError::Send("x".to_string()).message(),
        "Failed to send data to Niri's IPC socket: x"
    );
}

#[test]
fn the_first_workspace_of_the_id_is_found() {
    let workspaces = [
        workspace(7, 1, None, Some("DP-1")),
        workspace(9, 2, Some("web"), Some("DP-1")),
        workspace(9, 3, Some("other"), None),
    ];
    assert_eq!(
        find_workspace_for_window(&window(1, None, Some(9)), &workspaces),
        Some(&workspaces[1])
    );
    assert_eq!(find_workspace_for_window(&window(1, None, Some(8)), &workspaces), None);
    assert_eq!(find_workspace_for_window(&window(1, None, None), &workspaces), None);
}

#[test]
fn configuration_maps_commands() {
    let mut config = Config::default();
    let app_id = "thorium-discord.com__app-Default".to_string();
    assert_eq!(config.command_for(&app_id), LaunchCommand::Shell(app_id.clone()));
    config.map_launch(app_id.clone(), LaunchCommand::Shell("discord-web-app".to_string()));
    assert_eq!(config.command_for(&app_id), LaunchCommand::Shell("discord-web-app".to_string()));
    assert!(config.skip_apps().is_empty());
    let config = Config::new(Skip { apps: vec!["kitty".to_string()] });
    assert_eq!(config.skip_apps(), ["kitty".to_string()]);
}

#[test]
fn a_configuration_that_cannot_be_loaded_gives_way_to_the_default() {
    let loaded = Config::new(Skip { apps: vec!["kitty".to_string()] });
    let (config, told) = config_or_default(Ok(loaded));
    assert_eq!(config.skip_apps(), ["kitty".to_string()]);
    assert_eq!(told, None);
    let (config, told) = config_or_default(Err("no file".to_string()));
    assert!(config.skip_apps().is_empty());
    let text = "failed to load config, using default values (reason: no file)".to_string();
    assert_eq!(told, Some(Notice { level: Level::Warn, text }));
}

#[test]
fn every_window_is_saved() {
    let mut config = Config::default();
    let mapped = LaunchCommand::Args(vec!["ghostty".to_string(), "-e".to_string()]);
    config.map_launch("term".to_string(), mapped.clone());
    let workspaces = vec![workspace(5, 2, Some("web"), Some("DP-1")), workspace(6, 1, None, None)];
    let windows = vec![
        window(1, Some("term"), Some(5)),
        window(2, Some("kitty"), Some(6)),
        window(3, None, Some(99)),
    ];
    let expected = vec![
        SessionWindow {
            id: 1,
            app_id: Some("term".to_string()),
            launch_command: Some(mapped),
            workspace_idx: Some(2),
            workspace_name: Some("web"),
            workspace_output: Some("DP-1"),
            is_focused: true,
            window_size: Some((800, 600)),
        },
        SessionWindow {
            id: 2,
            app_id: Some("kitty".to_string()),
            launch_command: Some(LaunchCommand::Shell("kitty".to_string())),
            workspace_idx: Some(1),
            workspace_name: None,
            workspace_output: None,
            is_focused: false,
            window_size: Some((800, 600)),
        },
        SessionWindow {
            id: 3,
            app_id: None,
            launch_command: None,
            workspace_idx: None,
            workspace_name: None,
            workspace_output: None,
            is_focused: false,
            window_size: Some((800, 600)),
        },
    ];
    let (save, told) = listed(&config, true, windows, workspaces);
    assert_eq!(told, None);
    assert_eq!(save.task(), SaveTask::Write(expected));
    let (save, told) = save.handle(SaveEvent::Written(Ok(())));
    assert_eq!(told, debug("saved session to /s.json"));
    assert_eq!(save.task(), SaveTask::Finish(Ok(())));
}

#[test]
fn empty_lists_are_preserved_only_on_request() {
    let config = Config::default();
    let (save, told) = listed(&config, true, Vec::new(), Vec::new());
    let text = "no windows found during shutdown, preserving existing session file";
    assert_eq!(told, debug(text));
    assert_eq!(save.task(), SaveTask::Finish(Ok(())));
    let (save, told) = listed(&config, false, Vec::new(), Vec::new());
    assert_eq!(told, None);
    assert_eq!(save.task(), SaveTask::Write(Vec::new()));
}

#[test]
fn a_failed_question_ends_the_save() {
    let config = Config::default();
    let opts = || SaveOptions { file_path: "/s.json", config: &config, skip_empty: false };
    let err = || NiriError::Connect("gone".to_string());
    let failed = || SaveTask::Finish(Err(SaveError::Niri(err())));

    let save = save_session(opts());
    assert_eq!(save.task(), SaveTask::ListWindows);
    let (save, told) = save.handle(SaveEvent::Windows(Err(err())));
    assert_eq!(told, None);
    assert_eq!(save.task(), failed());
    let (save, _) = save.handle(SaveEvent::Workspaces(Ok(Vec::new())));
    assert_eq!(save.task(), failed());

    let (save, _) = save_session(opts()).handle(SaveEvent::Windows(Ok(Vec::new())));
    assert_eq!(save.task(), SaveTask::ListWorkspaces);
    let (save, _) = save.handle(SaveEvent::Workspaces(Err(err())));
    assert_eq!(save.task(), failed());
    assert_eq!(
        SaveError::Niri(err()).chain(),
        vec!["Failed to connect to Niri's IPC socket: gone"]
    );
}

#[test]
fn a_failed_write_ends_the_save() {
    let config = Config::default();
    let (save, _) = listed(&config, false, Vec::new(), Vec::new());
    let failure = WriteFailure::Serialize("bad key".to_string());
    let (save, told) = save.handle(SaveEvent::Written(Err(failure)));
    assert_eq!(told, None);
    let err = SaveError::Serialize("bad key".to_string());
    assert_eq!(err.chain(), vec!["Failed to serialize session data", "bad key"]);
    assert_eq!(err.message(), "Failed to serialize session data");
    assert_eq!(save.task(), SaveTask::Finish(Err(err)));

    let (save, _) = listed(&config, false, Vec::new(), Vec::new());
    let failure = WriteFailure::Write("disk full".to_string());
    let (save, _) = save.handle(SaveEvent::Written(Err(failure)));
    let err = SaveError::Write {
        file_path: "/s.json".to_string(),
        reason: "disk full".to_string(),
    };
    assert_eq!(err.chain(), vec!["Failed to write to session file: /s.json", "disk full"]);
    assert_eq!(save.task(), SaveTask::Finish(Err(err)));
}
