use majin::desktop::{
    event_name, io_reply, DesktopAction, DesktopCommand, DesktopSlot, EVENT_EXIT,
    EVENT_OUTPUT, NO_SESSION,
};
use majin::protocol::TerminalSize;
use majin::pty::{PtyError, PtyEvent};

fn shell() -> String {
    String::from("/bin/zsh")
}

#[test]
fn writes_before_opening_are_refused_and_resizes_ignored() {
    let mut slot = DesktopSlot::new();
    assert!(!slot.is_open());
    match slot.on_command(DesktopCommand::Write(String::from("ls"))) {
        DesktopAction::Reply(Err(m)) => assert_eq!(m, NO_SESSION),
        _ => panic!("expected a refusal"),
    }
    assert!(matches!(
        slot.on_command(DesktopCommand::Resize { cols: 10, rows: 10 }),
        DesktopAction::Reply(Ok(()))
    ));
}

#[test]
fn opening_spawns_and_then_commands_reach_the_session() {
    let mut slot = DesktopSlot::new();
    match slot.on_command(DesktopCommand::Open { cols: 100, rows: 30 }) {
        DesktopAction::Spawn(size) => assert_eq!(size, TerminalSize::new(100, 30)),
        _ => panic!("expected a spawn"),
    }
    let r = slot.on_spawned(Ok(shell())).ok().expect("ready");
    assert_eq!((r.shell.as_str(), r.cols, r.rows), ("/bin/zsh", 100, 30));
    assert!(slot.is_open());
    assert!(matches!(
        slot.on_command(DesktopCommand::Write(String::from("ls\n"))),
        DesktopAction::Write(ref d) if d == "ls\n"
    ));
    assert!(matches!(
        slot.on_command(DesktopCommand::Resize { cols: 0, rows: 5 }),
        DesktopAction::Resize(s) if s == TerminalSize::new(0, 5)
    ));
    assert!(matches!(slot.on_command(DesktopCommand::Close), DesktopAction::Drop));
    assert!(!slot.is_open());
}

#[test]
fn a_failed_spawn_leaves_nothing_open_and_says_why() {
    let mut slot = DesktopSlot::new();
    slot.on_command(DesktopCommand::Open { cols: 80, rows: 24 });
    let err = slot
        .on_spawned(Err(PtyError::Spawn {
            shell: String::from("/bin/nope"),
            reason: String::from("No such file"),
        }))
        .err()
        .expect("error");
    assert_eq!(err, "failed to spawn `/bin/nope`: No such file");
    assert!(!slot.is_open());
}

#[test]
fn reopening_replaces_the_open_terminal() {
    let mut slot = DesktopSlot::new();
    slot.on_command(DesktopCommand::Open { cols: 80, rows: 24 });
    let _ = slot.on_spawned(Ok(shell()));
    assert!(matches!(
        slot.on_command(DesktopCommand::Open { cols: 80, rows: 24 }),
        DesktopAction::Spawn(_)
    ));
    assert!(!slot.is_open());
}

#[test]
fn io_failures_are_answered_with_their_message() {
    assert_eq!(io_reply(Ok(())), Ok(()));
    assert_eq!(
        io_reply(Err(PtyError::Write(String::from("closed")))),
        Err(String::from("failed to write to the pseudo terminal: closed"))
    );
}

#[test]
fn events_go_to_their_window_channels() {
    assert_eq!(event_name(&PtyEvent::Output(String::from("x"))), EVENT_OUTPUT);
    assert_eq!(event_name(&PtyEvent::Exit(0)), EVENT_EXIT);
    assert_eq!(EVENT_OUTPUT, "pty://output");
    assert_eq!(EVENT_EXIT, "pty://exit");
}

#[test]
fn the_ready_answer_carries_the_clamped_size() {
    let mut slot = DesktopSlot::new();
    slot.on_command(DesktopCommand::Open { cols: 0, rows: 5000 });
    let r = slot.on_spawned(Ok(shell())).ok().expect("ready");
    assert_eq!((r.shell.as_str(), r.cols, r.rows), ("/bin/zsh", 1, 1000));
}
