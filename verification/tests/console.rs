use task_console::channel::ChannelClosed;
use task_console::command::Command;
use task_console::job::{
    JobEvent, JobSpec, JobStep, LoopingJob, named_work_plan, LOOP_INTERVAL_SECS,
};
use task_console::keymap::{command_for_key, commands_for_keys, log_entry_for_key};
use task_console::scheduler::Scheduler;
use task_console::ui::UiSession;

fn named(label: &str, duration_secs: u64) -> Command {
    Command::StartNamedWork { label: label.to_owned(), duration_secs }
}

#[test]
fn key_table_maps_the_four_keys() {
    assert_eq!(command_for_key('1'), Some(named("Task 1", 10)));
    assert_eq!(command_for_key('2'), Some(named("Task 2", 12)));
    assert_eq!(command_for_key('3'), Some(Command::StartLoopingWork));
    assert_eq!(command_for_key('q'), Some(Command::Shutdown));
    assert_eq!(command_for_key('x'), None);
    assert_eq!(command_for_key('0'), None);
}

#[test]
fn log_entries_for_start_keys_only() {
    assert_eq!(log_entry_for_key('1'), Some("Task 1 triggered".to_owned()));
    assert_eq!(log_entry_for_key('2'), Some("Task 2 triggered".to_owned()));
    assert_eq!(log_entry_for_key('3'), Some("Looping Task triggered".to_owned()));
    assert_eq!(log_entry_for_key('q'), None);
    assert_eq!(log_entry_for_key('x'), None);
}

#[test]
fn one_command_per_recognized_key_in_order() {
    let keys = vec!['a', '1', 'b', '2', '2', 'z', '3', 'q'];
    let cmds = commands_for_keys(&keys);
    assert_eq!(
        cmds,
        vec![
            named("Task 1", 10),
            named("Task 2", 12),
            named("Task 2", 12),
            Command::StartLoopingWork,
            Command::Shutdown,
        ]
    );
    // exactly one command per recognized key: 5 of the 8 keys are recognized
    assert_eq!(cmds.len(), 5);
}

#[test]
fn empty_script_sends_nothing() {
    let cmds = commands_for_keys(&Vec::new());
    assert_eq!(cmds, Vec::new());
}

#[test]
fn session_sends_commands_in_press_order() {
    let (tx, mut rx) = tokio::sync::mpsc::unbounded_channel::<Command>();
    let mut session = UiSession::new(tx);
    assert_eq!(session.handle_key('1'), Ok(()));
    assert_eq!(session.handle_key('3'), Ok(()));
    assert_eq!(session.handle_key('q'), Ok(()));
    assert!(session.finished());
    assert_eq!(rx.try_recv(), Ok(named("Task 1", 10)));
    assert_eq!(rx.try_recv(), Ok(Command::StartLoopingWork));
    assert_eq!(rx.try_recv(), Ok(Command::Shutdown));
    assert!(rx.try_recv().is_err());
}

#[test]
fn session_ignores_keys_after_quit() {
    let (tx, mut rx) = tokio::sync::mpsc::unbounded_channel::<Command>();
    let mut session = UiSession::new(tx);
    assert_eq!(session.handle_key('q'), Ok(()));
    assert_eq!(session.handle_key('1'), Ok(()));
    assert_eq!(session.handle_key('2'), Ok(()));
    assert_eq!(rx.try_recv(), Ok(Command::Shutdown));
    assert!(rx.try_recv().is_err());
    assert_eq!(session.log_lines().len(), 0);
}

#[test]
fn unrecognized_key_changes_nothing() {
    let (tx, mut rx) = tokio::sync::mpsc::unbounded_channel::<Command>();
    let mut session = UiSession::new(tx);
    assert_eq!(session.handle_key('x'), Ok(()));
    assert!(!session.finished());
    assert_eq!(session.log_lines().len(), 0);
    assert!(rx.try_recv().is_err());
}

#[test]
fn display_log_grows_per_start_key() {
    let (tx, _rx) = tokio::sync::mpsc::unbounded_channel::<Command>();
    let mut session = UiSession::new(tx);
    assert_eq!(session.handle_key('1'), Ok(()));
    assert_eq!(session.handle_key('2'), Ok(()));
    assert_eq!(session.handle_key('3'), Ok(()));
    assert_eq!(
        session.log_lines(),
        &vec![
            "Task 1 triggered".to_owned(),
            "Task 2 triggered".to_owned(),
            "Looping Task triggered".to_owned(),
        ]
    );
}

#[test]
fn closed_channel_is_fatal_to_the_session() {
    let (tx, rx) = tokio::sync::mpsc::unbounded_channel::<Command>();
    drop(rx);
    let mut session = UiSession::new(tx);
    assert_eq!(session.handle_key('1'), Err(ChannelClosed));
    assert!(session.finished());
    // the failure is reported once; afterwards nothing further is dispatched
    assert_eq!(session.handle_key('2'), Ok(()));
}

#[test]
fn scheduler_maps_each_start_command_to_its_job() {
    let mut scheduler = Scheduler::new();
    assert_eq!(
        scheduler.step(Some(named("Task 1", 10))),
        Some(JobSpec::NamedWork { label: "Task 1".to_owned(), duration_secs: 10 })
    );
    assert_eq!(
        scheduler.step(Some(named("Task 2", 12))),
        Some(JobSpec::NamedWork { label: "Task 2".to_owned(), duration_secs: 12 })
    );
    assert_eq!(scheduler.step(Some(Command::StartLoopingWork)), Some(JobSpec::LoopingWork));
    assert!(scheduler.consuming());
}

#[test]
fn shutdown_stops_the_scheduler_in_one_step() {
    let mut scheduler = Scheduler::new();
    for _ in 0..100 {
        scheduler.step(Some(named("Task 1", 10)));
    }
    assert!(scheduler.consuming());
    assert_eq!(scheduler.step(Some(Command::Shutdown)), None);
    assert!(!scheduler.consuming());
    // a stopped scheduler consumes nothing further
    assert_eq!(scheduler.step(Some(Command::StartLoopingWork)), None);
}

#[test]
fn end_of_stream_stops_the_scheduler() {
    let mut scheduler = Scheduler::new();
    assert_eq!(scheduler.step(None), None);
    assert!(!scheduler.consuming());
}

#[test]
fn scenario_one_three_quit() {
    let keys = vec!['1', '3', 'q'];
    let cmds = commands_for_keys(&keys);
    assert_eq!(
        cmds,
        vec![named("Task 1", 10), Command::StartLoopingWork, Command::Shutdown]
    );
    let mut scheduler = Scheduler::new();
    let jobs = scheduler.consume_batch(cmds);
    assert_eq!(
        jobs,
        vec![
            JobSpec::NamedWork { label: "Task 1".to_owned(), duration_secs: 10 },
            JobSpec::LoopingWork,
        ]
    );
    assert!(!scheduler.consuming());
}

#[test]
fn commands_after_shutdown_stay_unconsumed() {
    let mut scheduler = Scheduler::new();
    let jobs = scheduler.consume_batch(vec![
        named("Task 1", 10),
        Command::Shutdown,
        Command::StartLoopingWork,
    ]);
    assert_eq!(
        jobs,
        vec![JobSpec::NamedWork { label: "Task 1".to_owned(), duration_secs: 10 }]
    );
    assert!(!scheduler.consuming());
}

#[test]
fn identical_commands_each_launch_their_own_job() {
    let mut scheduler = Scheduler::new();
    let jobs = scheduler.consume_batch(vec![named("Task 1", 10), named("Task 1", 10)]);
    assert_eq!(jobs.len(), 2);
    assert_eq!(jobs[0], jobs[1]);
    // each instance announces its own start and finish: two of each in all
    let mut starts = 0;
    let mut finishes = 0;
    for job in jobs {
        match job {
            JobSpec::NamedWork { label, duration_secs } => {
                for step in named_work_plan(label.clone(), duration_secs) {
                    match step {
                        JobStep::Emit(JobEvent::WorkStarted { label: l }) if l == label => {
                            starts += 1;
                        }
                        JobStep::Emit(JobEvent::WorkFinished { label: l }) if l == label => {
                            finishes += 1;
                        }
                        _ => {}
                    }
                }
            }
            JobSpec::LoopingWork => unreachable!(),
        }
    }
    assert_eq!(starts, 2);
    assert_eq!(finishes, 2);
}

#[test]
fn named_work_plan_is_start_sleep_finish() {
    let plan = named_work_plan("Task 2".to_owned(), 12);
    assert_eq!(
        plan,
        vec![
            JobStep::Emit(JobEvent::WorkStarted { label: "Task 2".to_owned() }),
            JobStep::Sleep(12),
            JobStep::Emit(JobEvent::WorkFinished { label: "Task 2".to_owned() }),
        ]
    );
}

#[test]
fn looping_job_is_periodic_and_never_finishes() {
    let mut job = LoopingJob::new();
    let n = 4u64;
    let mut running_events = 0u64;
    let mut slept = 0u64;
    for _ in 0..n {
        for step in job.next_cycle() {
            match step {
                JobStep::Emit(JobEvent::LoopRunning) => running_events += 1,
                JobStep::Sleep(d) => slept += d,
                JobStep::Emit(JobEvent::WorkStarted { .. })
                | JobStep::Emit(JobEvent::WorkFinished { .. }) => {
                    panic!("looping job must never start or finish named work")
                }
            }
        }
    }
    // at least n running events within LOOP_INTERVAL_SECS * n time units
    assert_eq!(running_events, n);
    assert_eq!(slept, LOOP_INTERVAL_SECS * n);
}
