use nirinit::daemon::{Daemon, DaemonEvent, DaemonTask};
use nirinit::logger::{Level, Notice};
use nirinit::niri::NiriError;
use nirinit::paths::{config_file, data_file, FilePlace, PathError, APP_NAME};
use nirinit::save::SaveError;

fn notice(level: Level, text: &str) -> Notice {
    Notice { level, text: text.to_string() }
}

fn write_error() -> SaveError {
    SaveError::Write { file_path: "/s.json".to_string(), reason: "disk full".to_string() }
}

/// A program that has brought the session back and waits for what comes.
fn running(save_interval: u64) -> Daemon {
    let (mut daemon, told) = Daemon::new(save_interval);
    assert_eq!(told, notice(Level::Info, "starting nirinit-manager"));
    assert_eq!(daemon.task(), DaemonTask::Restore);
    let text = format!("starting periodic save (interval: {save_interval}s)");
    assert_eq!(daemon.handle(DaemonEvent::Restored(true)), vec![notice(Level::Info, &text)]);
    assert_eq!(daemon.task(), DaemonTask::RestartClock);
    assert!(daemon.handle(DaemonEvent::Restarted).is_empty());
    assert_eq!(daemon.task(), DaemonTask::ReadTermination);
    daemon
}

/// Goes from one look at the termination flag to the clock.
fn to_clock(daemon: &mut Daemon) {
    daemon.handle(DaemonEvent::Termination(false));
    assert_eq!(daemon.task(), DaemonTask::Sleep(100));
    daemon.handle(DaemonEvent::Rested);
    assert_eq!(daemon.task(), DaemonTask::ReadClock);
}

#[test]
fn nothing_is_saved_before_the_interval_is_over() {
    let mut daemon = running(300);
    to_clock(&mut daemon);
    daemon.handle(DaemonEvent::Elapsed(299));
    assert_eq!(daemon.task(), DaemonTask::ReadTermination);
    to_clock(&mut daemon);
    daemon.handle(DaemonEvent::Elapsed(300));
    assert_eq!(daemon.task(), DaemonTask::Save { skip_empty: false });
    assert!(daemon.handle(DaemonEvent::Saved(Ok(()))).is_empty());
    assert_eq!(daemon.task(), DaemonTask::RestartClock);
}

#[test]
fn a_failed_save_is_told_and_the_clock_starts_anew() {
    let mut daemon = running(0);
    to_clock(&mut daemon);
    daemon.handle(DaemonEvent::Elapsed(0));
    assert_eq!(
        daemon.handle(DaemonEvent::Saved(Err(write_error()))),
        vec![notice(Level::Error, "failed to save session: Failed to write to session file: /s.json")]
    );
    assert_eq!(daemon.task(), DaemonTask::RestartClock);
}

#[test]
fn the_program_saves_once_more_and_ends() {
    let mut daemon = running(300);
    assert_eq!(
        daemon.handle(DaemonEvent::Termination(true)),
        vec![notice(Level::Info, "shutting down...")]
    );
    assert_eq!(daemon.task(), DaemonTask::Save { skip_empty: true });
    assert_eq!(
        daemon.handle(DaemonEvent::Saved(Ok(()))),
        vec![notice(Level::Info, "shutdown complete")]
    );
    assert_eq!(daemon.task(), DaemonTask::Exit);
    assert!(daemon.handle(DaemonEvent::Restored(true)).is_empty());
    assert_eq!(daemon.task(), DaemonTask::Exit);
}

#[test]
fn a_failed_last_save_is_told() {
    let mut daemon = running(300);
    daemon.handle(DaemonEvent::Termination(true));
    assert_eq!(
        daemon.handle(DaemonEvent::Saved(Err(SaveError::Niri(NiriError::Send("gone".to_string()))))),
        vec![
            notice(
                Level::Error,
                "error saving final session: Failed to send data to Niri's IPC socket: gone",
            ),
            notice(Level::Info, "shutdown complete"),
        ]
    );
}

#[test]
fn a_session_that_cannot_be_restored_ends_the_program() {
    let (mut daemon, _) = Daemon::new(300);
    assert!(daemon.handle(DaemonEvent::Saved(Ok(()))).is_empty());
    assert_eq!(daemon.task(), DaemonTask::Restore);
    assert!(daemon.handle(DaemonEvent::Restored(false)).is_empty());
    assert_eq!(daemon.task(), DaemonTask::Exit);
}

fn bytes(s: &str) -> Vec<u8> {
    s.as_bytes().to_vec()
}

fn given(path: &str) -> Result<FilePlace, PathError> {
    Ok(FilePlace { create_dir: None, path: bytes(path) })
}

#[test]
fn the_flag_comes_before_the_variable_before_the_directory() {
    let flag = Some(bytes("/flag.toml"));
    let variable = Some(bytes("relative.toml"));
    let dir = Some(bytes("/home/u/.config"));
    assert_eq!(config_file(flag.clone(), variable.clone(), dir.clone()), given("/flag.toml"));
    assert_eq!(config_file(flag, None, None), given("/flag.toml"));
    assert_eq!(config_file(None, variable, dir.clone()), given("relative.toml"));
    assert_eq!(
        config_file(None, None, dir),
        Ok(FilePlace {
            create_dir: Some(bytes("/home/u/.config/nirinit")),
            path: bytes("/home/u/.config/nirinit/config.toml"),
        })
    );
    assert_eq!(config_file(None, None, None), Err(PathError::NoConfigDir));
}

#[test]
fn the_session_is_under_the_data_directory() {
    assert_eq!(
        data_file(Some(bytes("/data"))),
        Ok(FilePlace {
            create_dir: Some(bytes("/data/nirinit")),
            path: bytes("/data/nirinit/session.json"),
        })
    );
    assert_eq!(data_file(None), Err(PathError::NoDataDir));
}

#[test]
fn paths_are_joined_as_the_standard_library_does() {
    for dir in ["", "/", "a", "a/", "/a/b", "/a//", "."] {
        let base = std::path::Path::new(dir).join(APP_NAME);
        let place = data_file(Some(bytes(dir))).unwrap();
        assert_eq!(place.create_dir, Some(bytes(base.to_str().unwrap())));
        assert_eq!(place.path, bytes(base.join("session.json").to_str().unwrap()));
    }
    assert_eq!(data_file(Some(vec![0xff, b'/'])).unwrap().path, b"\xff/nirinit/session.json");
}

#[test]
fn missing_directories_have_messages() {
    assert_eq!(
        PathError::NoConfigDir.message(),
        "Failed to locate the config directory ($XDG_CONFIG_HOME)"
    );
    assert_eq!(
        PathError::NoDataDir.message(),
        "Failed to locate the data directory ($XDG_DATA_HOME)"
    );
}
