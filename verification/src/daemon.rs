//! The course of the program: the session is brought back once, then saved again and again until
//! the program is told to end.
//!
//! Bringing it back, sleeping, looking at the clock and saving are done outside:
//! [`Daemon::task`] says what is to be done next, and [`Daemon::handle`] takes how it went.

use crate::logger::{Level, Notice, NoticeView};
use crate::save::{SaveError, SaveErrorView};
use crate::text::{joined, to_decimal};
use vstd::prelude::*;

verus! {

/// How long to rest between two looks at the clock, in milliseconds.
pub const REST_INTERVAL: u64 = 100;

/// Where the program is between its start and its end.
#[derive(Debug, Clone, Copy, PartialEq, Eq, Structural)]
pub enum DaemonPhase {
    /// The session is to be brought back.
    Restoring,
    /// It is to be found out whether the program is told to end.
    Watching,
    /// A short time is to pass.
    Resting,
    /// It is to be found out how long ago the last save was.
    Measuring,
    /// The session is to be saved.
    Saving,
    /// The clock is to be started anew.
    Restarting,
    /// The session is to be saved for the last time.
    Closing,
    /// The program is to end.
    Stopped,
}

/// What is to be done next.
#[derive(Debug, Clone, Copy, PartialEq, Eq, Structural)]
pub enum DaemonTask {
    /// Bring the session back.
    Restore,
    /// Find out whether the program is told to end.
    ReadTermination,
    /// Wait for so many milliseconds.
    Sleep(u64),
    /// Find out how long the clock has run.
    ReadClock,
    /// Save the session; `skip_empty` is the option of that name.
    Save { skip_empty: bool },
    /// Start the clock anew.
    RestartClock,
    /// End the program.
    Exit,
}

/// How a task went.
#[derive(Debug, PartialEq, Eq)]
pub enum DaemonEvent {
    /// Whether bringing the session back succeeded.
    Restored(bool),
    /// Whether the program is told to end.
    Termination(bool),
    /// The time is over.
    Rested,
    /// How many whole seconds the clock has run.
    Elapsed(u64),
    /// The session is saved, or could not be.
    Saved(Result<(), SaveError>),
    /// The clock runs anew.
    Restarted,
}

/// What a [`DaemonEvent`] says.
pub enum DaemonEventView {
    Restored(bool),
    Termination(bool),
    Rested,
    Elapsed(u64),
    Saved(Result<(), SaveErrorView>),
    Restarted,
}

impl View for DaemonEvent {
    type V = DaemonEventView;

    open spec fn view(&self) -> DaemonEventView {
        match self {
            DaemonEvent::Restored(succeeded) => DaemonEventView::Restored(*succeeded),
            DaemonEvent::Termination(told) => DaemonEventView::Termination(*told),
            DaemonEvent::Rested => DaemonEventView::Rested,
            DaemonEvent::Elapsed(seconds) => DaemonEventView::Elapsed(*seconds),
            DaemonEvent::Saved(Ok(())) => DaemonEventView::Saved(Ok(())),
            DaemonEvent::Saved(Err(err)) => DaemonEventView::Saved(Err(err@)),
            DaemonEvent::Restarted => DaemonEventView::Restarted,
        }
    }
}

/// What is to be done in a phase.
pub open spec fn daemon_task_of(phase: DaemonPhase) -> DaemonTask {
    match phase {
        DaemonPhase::Restoring => DaemonTask::Restore,
        DaemonPhase::Watching => DaemonTask::ReadTermination,
        DaemonPhase::Resting => DaemonTask::Sleep(REST_INTERVAL),
        DaemonPhase::Measuring => DaemonTask::ReadClock,
        DaemonPhase::Saving => DaemonTask::Save { skip_empty: false },
        DaemonPhase::Restarting => DaemonTask::RestartClock,
        DaemonPhase::Closing => DaemonTask::Save { skip_empty: true },
        DaemonPhase::Stopped => DaemonTask::Exit,
    }
}

/// The phase after an event, with `save_interval` seconds between two saves.
pub open spec fn daemon_after(
    save_interval: u64,
    phase: DaemonPhase,
    event: DaemonEventView,
) -> DaemonPhase {
    match (phase, event) {
        (DaemonPhase::Restoring, DaemonEventView::Restored(succeeded)) => if succeeded {
            DaemonPhase::Restarting
        } else {
            DaemonPhase::Stopped
        },
        (DaemonPhase::Watching, DaemonEventView::Termination(told)) => if told {
            DaemonPhase::Closing
        } else {
            DaemonPhase::Resting
        },
        (DaemonPhase::Resting, DaemonEventView::Rested) => DaemonPhase::Measuring,
        (DaemonPhase::Measuring, DaemonEventView::Elapsed(seconds)) => if seconds
            >= save_interval {
            DaemonPhase::Saving
        } else {
            DaemonPhase::Watching
        },
        (DaemonPhase::Saving, DaemonEventView::Saved(_)) => DaemonPhase::Restarting,
        (DaemonPhase::Restarting, DaemonEventView::Restarted) => DaemonPhase::Watching,
        (DaemonPhase::Closing, DaemonEventView::Saved(_)) => DaemonPhase::Stopped,
        _ => phase,
    }
}

/// What the user is told about an event, with `save_interval` seconds between two saves.
pub open spec fn daemon_notices(
    save_interval: u64,
    phase: DaemonPhase,
    event: DaemonEventView,
) -> Seq<NoticeView> {
    match (phase, event) {
        (DaemonPhase::Restoring, DaemonEventView::Restored(true)) => seq![
            NoticeView {
                level: Level::Info,
                text: "starting periodic save (interval: "@ + crate::text::decimal(
                    save_interval as nat,
                ) + "s)"@,
            },
        ],
        (DaemonPhase::Watching, DaemonEventView::Termination(true)) => seq![
            NoticeView { level: Level::Info, text: "shutting down..."@ },
        ],
        (DaemonPhase::Saving, DaemonEventView::Saved(Err(err))) => seq![
            NoticeView { level: Level::Error, text: "failed to save session: "@ + err.message() },
        ],
        (DaemonPhase::Closing, DaemonEventView::Saved(Ok(()))) => seq![
            NoticeView { level: Level::Info, text: "shutdown complete"@ },
        ],
        (DaemonPhase::Closing, DaemonEventView::Saved(Err(err))) => seq![
            NoticeView { level: Level::Error, text: "error saving final session: "@ + err.message() },
            NoticeView { level: Level::Info, text: "shutdown complete"@ },
        ],
        _ => Seq::empty(),
    }
}

/// The program on its way from its start to its end.
pub struct Daemon {
    /// Save interval in seconds.
    pub save_interval: u64,
    /// Where the program is.
    pub phase: DaemonPhase,
}

impl Daemon {
    /// The program at its start, to save every `save_interval` seconds, and what the user is told
    /// about it.
    pub fn new(save_interval: u64) -> (res: (Self, Notice))
        ensures
            res.0.save_interval == save_interval,
            res.0.phase == DaemonPhase::Restoring,
            res.1@ == (NoticeView { level: Level::Info, text: "starting nirinit-manager"@ }),
    {
        (
            Daemon { save_interval, phase: DaemonPhase::Restoring },
            Notice { level: Level::Info, text: "starting nirinit-manager".to_owned() },
        )
    }

    /// What is to be done next.
    pub fn task(&self) -> (res: DaemonTask)
        ensures
            res == daemon_task_of(self.phase),
    {
        match self.phase {
            DaemonPhase::Restoring => DaemonTask::Restore,
            DaemonPhase::Watching => DaemonTask::ReadTermination,
            DaemonPhase::Resting => DaemonTask::Sleep(REST_INTERVAL),
            DaemonPhase::Measuring => DaemonTask::ReadClock,
            DaemonPhase::Saving => DaemonTask::Save { skip_empty: false },
            DaemonPhase::Restarting => DaemonTask::RestartClock,
            DaemonPhase::Closing => DaemonTask::Save { skip_empty: true },
            DaemonPhase::Stopped => DaemonTask::Exit,
        }
    }

    /// Takes how the task went, and returns what the user is told about it. An event that does
    /// not belong to the task changes nothing.
    pub fn handle(&mut self, event: DaemonEvent) -> (res: Vec<Notice>)
        ensures
            final(self).save_interval == old(self).save_interval,
            final(self).phase == daemon_after(old(self).save_interval, old(self).phase, event@),
            res.deep_view() == daemon_notices(old(self).save_interval, old(self).phase, event@),
    {
        let mut res: Vec<Notice> = Vec::new();
        let ghost phase = self.phase;
        match (self.phase, event) {
            (DaemonPhase::Restoring, DaemonEvent::Restored(succeeded)) => {
                if succeeded {
                    let interval: String = to_decimal(self.save_interval);
                    let start: String = joined(
                        "starting periodic save (interval: ",
                        interval.as_str(),
                    );
                    let text: String = joined(start.as_str(), "s)");
                    res.push(Notice { level: Level::Info, text });
                    self.phase = DaemonPhase::Restarting;
                } else {
                    self.phase = DaemonPhase::Stopped;
                }
            },
            (DaemonPhase::Watching, DaemonEvent::Termination(told)) => {
                if told {
                    res.push(Notice { level: Level::Info, text: "shutting down...".to_owned() });
                    self.phase = DaemonPhase::Closing;
                } else {
                    self.phase = DaemonPhase::Resting;
                }
            },
            (DaemonPhase::Resting, DaemonEvent::Rested) => {
                self.phase = DaemonPhase::Measuring;
            },
            (DaemonPhase::Measuring, DaemonEvent::Elapsed(seconds)) => {
                if seconds >= self.save_interval {
                    self.phase = DaemonPhase::Saving;
                } else {
                    self.phase = DaemonPhase::Watching;
                }
            },
            (DaemonPhase::Saving, DaemonEvent::Saved(saved)) => {
                if let Err(err) = saved {
                    let text: String = joined("failed to save session: ", err.message().as_str());
                    res.push(Notice { level: Level::Error, text });
                }
                self.phase = DaemonPhase::Restarting;
            },
            (DaemonPhase::Restarting, DaemonEvent::Restarted) => {
                self.phase = DaemonPhase::Watching;
            },
            (DaemonPhase::Closing, DaemonEvent::Saved(saved)) => {
                if let Err(err) = saved {
                    let text: String = joined("error saving final session: ", err.message().as_str());
                    res.push(Notice { level: Level::Error, text });
                }
                res.push(Notice { level: Level::Info, text: "shutdown complete".to_owned() });
                self.phase = DaemonPhase::Stopped;
            },
            _ => {},
        }
        assert(res.deep_view() == daemon_notices(self.save_interval, phase, event@));
        res
    }
}

/// The phase after several events.
pub open spec fn daemon_after_all(
    save_interval: u64,
    phase: DaemonPhase,
    events: Seq<DaemonEventView>,
) -> DaemonPhase
    decreases events.len(),
{
    if events.len() == 0 {
        phase
    } else {
        daemon_after_all(
            save_interval,
            daemon_after(save_interval, phase, events[0]),
            events.drop_first(),
        )
    }
}

/// How often, on the way through `events`, the session is saved for the last time.
pub open spec fn last_saves(
    save_interval: u64,
    phase: DaemonPhase,
    events: Seq<DaemonEventView>,
) -> int
    decreases events.len(),
{
    if events.len() == 0 {
        0
    } else {
        let next = daemon_after(save_interval, phase, events[0]);
        last_saves(save_interval, next, events.drop_first()) + if phase == DaemonPhase::Closing
            && next != phase {
            1int
        } else {
            0
        }
    }
}

/// Once the session was brought back, a program that has ended has saved the session for the
/// last time exactly once, and before that never.
pub proof fn law_one_last_save(
    save_interval: u64,
    phase: DaemonPhase,
    events: Seq<DaemonEventView>,
)
    requires
        phase != DaemonPhase::Stopped,
        phase != DaemonPhase::Restoring,
    ensures
        last_saves(save_interval, phase, events) == if daemon_after_all(
            save_interval,
            phase,
            events,
        ) == DaemonPhase::Stopped {
            1int
        } else {
            0
        },
    decreases events.len(),
{
    if events.len() > 0 {
        let next = daemon_after(save_interval, phase, events[0]);
        if next == DaemonPhase::Stopped {
            lemma_stopped(save_interval, events.drop_first());
        } else {
            law_one_last_save(save_interval, next, events.drop_first());
        }
    }
}

/// Until the session was brought back the program comes to no save, neither one of the interval
/// nor the last: it waits for that, and if it fails, ends.
pub proof fn law_nothing_is_saved_before_restoring(
    save_interval: u64,
    events: Seq<DaemonEventView>,
)
    requires
        forall|i: int|
            0 <= i < events.len() ==> (#[trigger] events[i]) != DaemonEventView::Restored(true),
    ensures
        ({
            let phase = daemon_after_all(save_interval, DaemonPhase::Restoring, events);
            phase == DaemonPhase::Restoring || phase == DaemonPhase::Stopped
        }),
    decreases events.len(),
{
    if events.len() > 0 {
        let rest = events.drop_first();
        assert forall|i: int| 0 <= i < rest.len() implies (#[trigger] rest[i])
            != DaemonEventView::Restored(true) by {
            assert(rest[i] == events[i + 1]);
        }
        if daemon_after(save_interval, DaemonPhase::Restoring, events[0])
            == DaemonPhase::Restoring {
            law_nothing_is_saved_before_restoring(save_interval, rest);
        } else {
            lemma_stopped(save_interval, rest);
        }
    }
}

proof fn lemma_stopped(save_interval: u64, events: Seq<DaemonEventView>)
    ensures
        daemon_after_all(save_interval, DaemonPhase::Stopped, events) == DaemonPhase::Stopped,
        last_saves(save_interval, DaemonPhase::Stopped, events) == 0,
    decreases events.len(),
{
    if events.len() > 0 {
        lemma_stopped(save_interval, events.drop_first());
    }
}

/// The session is saved in between only once the interval is over, and then the clock starts
/// anew however the save went.
pub proof fn law_saves_keep_the_interval(
    save_interval: u64,
    phase: DaemonPhase,
    event: DaemonEventView,
    saved: Result<(), SaveErrorView>,
)
    ensures
        phase != DaemonPhase::Saving && daemon_after(save_interval, phase, event)
            == DaemonPhase::Saving ==> (event matches DaemonEventView::Elapsed(seconds) && seconds
            >= save_interval),
        daemon_after(save_interval, DaemonPhase::Saving, DaemonEventView::Saved(saved))
            == DaemonPhase::Restarting,
{
}

/// An empty window list is skipped by the last save and by no other.
pub proof fn law_only_the_last_save_skips_empty(phase: DaemonPhase, skip_empty: bool)
    requires
        daemon_task_of(phase) == (DaemonTask::Save { skip_empty }),
    ensures
        skip_empty <==> phase == DaemonPhase::Closing,
{
}

/// After each rest the session is saved exactly if the interval is over, whatever the interval;
/// otherwise the program goes on watching.
pub proof fn law_interval_decides_the_save(save_interval: u64, seconds: u64)
    ensures
        ({
            let next = daemon_after(
                save_interval,
                DaemonPhase::Measuring,
                DaemonEventView::Elapsed(seconds),
            );
            &&& next == DaemonPhase::Saving <==> seconds >= save_interval
            &&& next == DaemonPhase::Watching <==> seconds < save_interval
            &&& seconds >= save_interval ==> daemon_task_of(next) == (DaemonTask::Save {
                skip_empty: false,
            })
            &&& seconds < save_interval ==> daemon_task_of(next) == DaemonTask::ReadTermination
        }),
{
}

/// What is saved at some time is also saved at every later time, and at every shorter interval.
pub proof fn law_saving_is_not_put_off(
    save_interval: u64,
    shorter: u64,
    seconds: u64,
    later: u64,
)
    requires
        shorter <= save_interval,
        seconds <= later,
        daemon_after(save_interval, DaemonPhase::Measuring, DaemonEventView::Elapsed(seconds))
            == DaemonPhase::Saving,
    ensures
        daemon_after(shorter, DaemonPhase::Measuring, DaemonEventView::Elapsed(later))
            == DaemonPhase::Saving,
{
}

/// One round of a program that is not told to end: it rests for a tenth of a second, looks at the
/// clock, saves exactly if the interval is over, then starts the clock anew however the save
/// went, and watches again.
pub proof fn law_round_of_the_program(
    save_interval: u64,
    seconds: u64,
    saved: Result<(), SaveErrorView>,
)
    ensures
        daemon_task_of(DaemonPhase::Watching) == DaemonTask::ReadTermination,
        daemon_after(save_interval, DaemonPhase::Watching, DaemonEventView::Termination(false))
            == DaemonPhase::Resting,
        daemon_task_of(DaemonPhase::Resting) == DaemonTask::Sleep(100),
        daemon_after(save_interval, DaemonPhase::Resting, DaemonEventView::Rested)
            == DaemonPhase::Measuring,
        daemon_task_of(DaemonPhase::Measuring) == DaemonTask::ReadClock,
        daemon_task_of(DaemonPhase::Saving) == (DaemonTask::Save { skip_empty: false }),
        daemon_after(save_interval, DaemonPhase::Saving, DaemonEventView::Saved(saved))
            == DaemonPhase::Restarting,
        daemon_task_of(DaemonPhase::Restarting) == DaemonTask::RestartClock,
        daemon_after(save_interval, DaemonPhase::Restarting, DaemonEventView::Restarted)
            == DaemonPhase::Watching,
        ({
            let events = seq![
                DaemonEventView::Termination(false),
                DaemonEventView::Rested,
                DaemonEventView::Elapsed(seconds),
                DaemonEventView::Saved(saved),
                DaemonEventView::Restarted,
            ];
            daemon_after_all(save_interval, DaemonPhase::Watching, events) == DaemonPhase::Watching
        }),
{
    let events = seq![
        DaemonEventView::Termination(false),
        DaemonEventView::Rested,
        DaemonEventView::Elapsed(seconds),
        DaemonEventView::Saved(saved),
        DaemonEventView::Restarted,
    ];
    assert(events.drop_first()[0] == DaemonEventView::Rested);
    assert(events.drop_first().drop_first()[0] == DaemonEventView::Elapsed(seconds));
    reveal_with_fuel(daemon_after_all, 6);
}

/// The program starts with bringing the session back. If that succeeds the clock is started and
/// the program watches; if it fails the program ends.
pub proof fn law_program_starts_with_restoring(save_interval: u64)
    ensures
        daemon_task_of(DaemonPhase::Restoring) == DaemonTask::Restore,
        daemon_after(save_interval, DaemonPhase::Restoring, DaemonEventView::Restored(true))
            == DaemonPhase::Restarting,
        daemon_after(save_interval, DaemonPhase::Restoring, DaemonEventView::Restored(false))
            == DaemonPhase::Stopped,
        daemon_task_of(DaemonPhase::Stopped) == DaemonTask::Exit,
{
}

/// A program that is told to end saves once more, without replacing a session by an empty one,
/// and ends however that went.
pub proof fn law_program_ends_when_told(save_interval: u64, saved: Result<(), SaveErrorView>)
    ensures
        daemon_after(save_interval, DaemonPhase::Watching, DaemonEventView::Termination(true))
            == DaemonPhase::Closing,
        daemon_task_of(DaemonPhase::Closing) == (DaemonTask::Save { skip_empty: true }),
        daemon_after(save_interval, DaemonPhase::Closing, DaemonEventView::Saved(saved))
            == DaemonPhase::Stopped,
        daemon_task_of(DaemonPhase::Stopped) == DaemonTask::Exit,
{
}

/// What the user is told: when the regular saves begin and how far apart they are, which saves
/// failed and why, and the begin and the end of the shutdown. Of anything else nothing is told.
pub proof fn law_user_is_told_of_the_course(
    save_interval: u64,
    phase: DaemonPhase,
    event: DaemonEventView,
    err: SaveErrorView,
)
    ensures
        daemon_notices(save_interval, DaemonPhase::Restoring, DaemonEventView::Restored(true))
            == seq![
            NoticeView {
                level: Level::Info,
                text: "starting periodic save (interval: "@ + crate::text::decimal(
                    save_interval as nat,
                ) + "s)"@,
            },
        ],
        daemon_notices(save_interval, DaemonPhase::Watching, DaemonEventView::Termination(true))
            == seq![NoticeView { level: Level::Info, text: "shutting down..."@ }],
        daemon_notices(save_interval, DaemonPhase::Saving, DaemonEventView::Saved(Err(err)))
            == seq![
            NoticeView { level: Level::Error, text: "failed to save session: "@ + err.message() },
        ],
        daemon_notices(save_interval, DaemonPhase::Closing, DaemonEventView::Saved(Ok(())))
            == seq![NoticeView { level: Level::Info, text: "shutdown complete"@ }],
        daemon_notices(save_interval, DaemonPhase::Closing, DaemonEventView::Saved(Err(err)))
            == seq![
            NoticeView {
                level: Level::Error,
                text: "error saving final session: "@ + err.message(),
            },
            NoticeView { level: Level::Info, text: "shutdown complete"@ },
        ],
        ({
            ||| phase == DaemonPhase::Restoring && event == DaemonEventView::Restored(true)
            ||| phase == DaemonPhase::Watching && event == DaemonEventView::Termination(true)
            ||| phase == DaemonPhase::Saving && event is Saved && event != DaemonEventView::Saved(
                Ok(()),
            )
            ||| phase == DaemonPhase::Closing && event is Saved
        }) || daemon_notices(save_interval, phase, event).len() == 0,
{
}

/// An event that tells of something else than the task changes nothing, and a program that has
/// ended stays so.
pub proof fn law_daemon_events_out_of_place_change_nothing(
    save_interval: u64,
    phase: DaemonPhase,
    event: DaemonEventView,
)
    requires
        match daemon_task_of(phase) {
            DaemonTask::Restore => !(event is Restored),
            DaemonTask::ReadTermination => !(event is Termination),
            DaemonTask::Sleep(_) => !(event is Rested),
            DaemonTask::ReadClock => !(event is Elapsed),
            DaemonTask::Save { .. } => !(event is Saved),
            DaemonTask::RestartClock => !(event is Restarted),
            DaemonTask::Exit => true,
        },
    ensures
        daemon_after(save_interval, phase, event) == phase,
{
}

/// The view of an event holds all that the event says.
pub proof fn law_daemon_event_is_shown_whole(event: DaemonEvent)
    ensures
        event matches DaemonEvent::Restored(succeeded) ==> event@ == DaemonEventView::Restored(
            succeeded,
        ),
        event matches DaemonEvent::Termination(told) ==> event@ == DaemonEventView::Termination(
            told,
        ),
        event is Rested ==> event@ is Rested,
        event matches DaemonEvent::Elapsed(seconds) ==> event@ == DaemonEventView::Elapsed(seconds),
        event matches DaemonEvent::Saved(Ok(())) ==> event@ == DaemonEventView::Saved(Ok(())),
        event matches DaemonEvent::Saved(Err(err)) ==> event@ == DaemonEventView::Saved(Err(err@)),
        event is Restarted ==> event@ is Restarted,
{
}

} // verus!
