use nirinit::command::LaunchCommand;
use nirinit::launch::{
    find_window, spawn_and_move_window, Event, LaunchError, Task, WindowLaunch, WINDOW_POLLS,
    WINDOW_POLL_INTERVAL,
};
use nirinit::logger::{Level, Notice};
use nirinit::niri::{Action, NiriError, Reply, Window, WorkspaceReference};

fn window(id: u64, app_id: &str) -> Window {
    Window {
        id,
        app_id: Some(app_id.to_string()),
        workspace_id: None,
        is_focused: false,
        window_size: (1, 1),
    }
}

fn launch(
    idx: Option<u8>,
    name: Option<&str>,
    output: Option<&str>,
    size: Option<(i32, i32)>,
) -> WindowLaunch {
    spawn_and_move_window(
        LaunchCommand::Shell("ghostty -e tmux".to_string()),
        "ghostty".to_string(),
        idx,
        name.map(String::from),
        output.map(String::from),
        size,
    )
}

fn handled() -> Event {
    Event::Sent(Ok(Reply::Handled))
}

fn broken() -> Event {
    Event::Sent(Err("broken pipe".to_string()))
}

fn warning(text: &str) -> Option<Notice> {
    Some(Notice { level: Level::Warn, text: text.to_string() })
}

/// Brings a launch to its first look at the windows.
fn to_listing(launch: &mut WindowLaunch) {
    assert_eq!(launch.handle(Event::Connected(Ok(()))), None);
    assert_eq!(launch.handle(handled()), None);
    assert_eq!(launch.handle(Event::Slept), None);
    assert_eq!(launch.task(), Task::ListWindows);
}

#[test]
fn a_window_is_put_in_its_place() {
    let mut launch = launch(Some(3), Some("web"), Some("DP-1"), Some((640, 480)));
    assert_eq!(launch.task(), Task::Connect);
    assert_eq!(launch.handle(Event::Connected(Ok(()))), None);
    let command = vec!["ghostty".to_string(), "-e".to_string(), "tmux".to_string()];
    assert_eq!(launch.task(), Task::Send(Action::Spawn { command }));
    assert_eq!(launch.handle(handled()), None);
    assert_eq!(launch.task(), Task::Sleep(250));
    assert_eq!(launch.handle(Event::Slept), None);
    assert_eq!(launch.task(), Task::ListWindows);
    assert_eq!(launch.handle(Event::Listed(Ok(vec![window(1, "kitty")]))), None);
    assert_eq!(launch.task(), Task::Sleep(250));
    assert_eq!(launch.handle(Event::Slept), None);
    let windows = vec![window(1, "kitty"), window(42, "ghostty"), window(43, "ghostty")];
    assert_eq!(launch.handle(Event::Listed(Ok(windows))), None);
    let output = "DP-1".to_string();
    assert_eq!(launch.task(), Task::Send(Action::MoveWindowToMonitor { id: 42, output }));
    assert_eq!(launch.handle(handled()), None);
    assert_eq!(
        launch.task(),
        Task::Send(Action::MoveWindowToWorkspace {
            window_id: 42,
            reference: WorkspaceReference::Name("web".to_string()),
            focus: false,
        })
    );
    assert_eq!(launch.handle(handled()), None);
    assert_eq!(launch.task(), Task::Send(Action::SetWindowWidth { id: 42, width: 640 }));
    assert_eq!(launch.handle(handled()), None);
    assert_eq!(launch.task(), Task::Send(Action::SetWindowHeight { id: 42, height: 480 }));
    assert_eq!(launch.outcome(), None);
    assert_eq!(launch.handle(handled()), None);
    assert_eq!(launch.task(), Task::Finish(Ok(())));
    assert_eq!(launch.outcome(), Some(Ok(())));
}

#[test]
fn an_unnamed_workspace_is_meant_by_its_index() {
    let mut launch = launch(Some(3), None, None, None);
    to_listing(&mut launch);
    launch.handle(Event::Listed(Ok(vec![window(5, "ghostty")])));
    assert_eq!(
        launch.task(),
        Task::Send(Action::MoveWindowToWorkspace {
            window_id: 5,
            reference: WorkspaceReference::Index(3),
            focus: false,
        })
    );
    launch.handle(Event::Sent(Ok(Reply::Other)));
    assert_eq!(launch.task(), Task::Finish(Ok(())));
}

#[test]
fn without_a_workspace_the_program_is_only_started() {
    let mut launch = launch(None, None, Some("DP-1"), Some((1, 2)));
    launch.handle(Event::Connected(Ok(())));
    assert_eq!(launch.handle(handled()), None);
    assert_eq!(launch.task(), Task::Finish(Ok(())));
}

#[test]
fn a_program_that_does_not_start_is_told() {
    for reply in [Reply::Other, Reply::Refused("no".to_string())] {
        let mut launch = launch(Some(1), None, None, None);
        launch.handle(Event::Connected(Ok(())));
        let text = "failed to spawn command `ghostty -e tmux`".to_string();
        assert_eq!(
            launch.handle(Event::Sent(Ok(reply))),
            Some(Notice { level: Level::Error, text })
        );
        assert_eq!(launch.outcome(), Some(Ok(())));
    }
}

#[test]
fn a_window_that_does_not_come_is_given_up() {
    let mut launch = launch(Some(1), None, None, None);
    launch.handle(Event::Connected(Ok(())));
    launch.handle(handled());
    let mut waited = 0;
    for look in 1..=WINDOW_POLLS {
        assert_eq!(launch.task(), Task::Sleep(WINDOW_POLL_INTERVAL));
        waited += WINDOW_POLL_INTERVAL;
        launch.handle(Event::Slept);
        let told = launch.handle(Event::Listed(Ok(Vec::new())));
        if look < WINDOW_POLLS {
            assert_eq!(told, None);
        } else {
            assert_eq!(told, warning("window for `ghostty -e tmux` did not appear within 5s"));
        }
    }
    assert_eq!(waited, 5000);
    assert_eq!(launch.outcome(), Some(Ok(())));
}

#[test]
fn what_cannot_be_asked_ends_a_launch() {
    let mut a = launch(Some(1), None, None, None);
    a.handle(Event::Connected(Err("refused".to_string())));
    let err = LaunchError::Connect("refused".to_string());
    assert_eq!(err.chain(), vec!["Failed to connect to Niri IPC socket", "refused"]);
    assert_eq!(a.outcome(), Some(Err(err)));

    let mut b = launch(Some(1), None, None, None);
    b.handle(Event::Connected(Ok(())));
    b.handle(broken());
    let err = LaunchError::Niri(NiriError::Send("broken pipe".to_string()));
    assert_eq!(err.chain(), vec!["Failed to send data to Niri's IPC socket: broken pipe"]);
    assert_eq!(b.task(), Task::Finish(Err(err)));

    let mut c = launch(Some(1), None, None, None);
    to_listing(&mut c);
    c.handle(Event::Listed(Err(NiriError::Connect("gone".to_string()))));
    assert_eq!(c.outcome(), Some(Err(LaunchError::Niri(NiriError::Connect("gone".to_string())))));

    let mut d = launch(Some(1), None, None, None);
    to_listing(&mut d);
    d.handle(Event::Listed(Ok(vec![window(1, "ghostty")])));
    d.handle(Event::Sent(Ok(Reply::Refused("no such workspace".to_string()))));
    let err = LaunchError::Niri(NiriError::Reply("no such workspace".to_string()));
    assert_eq!(d.outcome(), Some(Err(err)));

    let mut e = launch(Some(1), None, None, None);
    to_listing(&mut e);
    e.handle(Event::Listed(Ok(vec![window(1, "ghostty")])));
    e.handle(broken());
    let err = LaunchError::Niri(NiriError::Send("broken pipe".to_string()));
    assert_eq!(e.outcome(), Some(Err(err)));
}

#[test]
fn output_and_size_are_tried_and_no_more() {
    let mut launch = launch(Some(1), None, Some("DP-1"), Some((1, 2)));
    to_listing(&mut launch);
    launch.handle(Event::Listed(Ok(vec![window(1, "ghostty")])));
    assert_eq!(
        launch.handle(broken()),
        warning("failed to move window (app_id: ghostty): broken pipe")
    );
    assert_eq!(launch.handle(handled()), None);
    assert_eq!(
        launch.handle(broken()),
        warning("failed to restore window width for ghostty: broken pipe")
    );
    assert_eq!(
        launch.handle(broken()),
        warning("failed to restore window height for ghostty: broken pipe")
    );
    assert_eq!(launch.outcome(), Some(Ok(())));
}

#[test]
fn an_event_out_of_place_changes_nothing() {
    let mut launch = launch(Some(1), None, None, None);
    assert_eq!(launch.handle(Event::Slept), None);
    assert_eq!(launch.handle(handled()), None);
    assert_eq!(launch.task(), Task::Connect);
}

#[test]
fn the_first_window_of_the_application_is_meant() {
    let windows = vec![window(4, "a"), window(2, "b"), window(9, "b")];
    assert_eq!(find_window(&windows, &"b".to_string()), Some(2));
    assert_eq!(find_window(&windows, &"c".to_string()), None);
}

#[test]
fn the_index_of_a_named_workspace_makes_no_difference() {
    let sent = |idx: Option<u8>| {
        let mut launch = launch(idx, Some("web"), Some("DP-1"), Some((1, 2)));
        to_listing(&mut launch);
        launch.handle(Event::Listed(Ok(vec![window(7, "ghostty")])));
        let mut sent = Vec::new();
        while let Task::Send(action) = launch.task() {
            sent.push(action);
            launch.handle(handled());
        }
        sent
    };
    assert_eq!(sent(Some(1)).len(), 4);
    assert_eq!(sent(Some(1)), sent(Some(9)));
    assert_eq!(sent(Some(1)), sent(None));
}
