use majin::protocol::{
    TerminalSize, CLOSE_NORMAL, CLOSE_SESSION_LIMIT, CLOSE_SHELL_EXITED, CLOSE_UNAUTHORIZED,
    MAX_COLS, MAX_ROWS, PROTOCOL_VERSION,
};

#[test]
fn sizes_are_clamped_into_the_pty_accepted_range() {
    assert_eq!(TerminalSize::new(0, 0).clamped(), TerminalSize::new(1, 1));
    assert_eq!(
        TerminalSize::new(5000, 5000).clamped(),
        TerminalSize::new(MAX_COLS, MAX_ROWS)
    );
}

#[test]
fn sizes_inside_the_range_are_left_alone() {
    assert_eq!(TerminalSize::new(120, 40).clamped(), TerminalSize::new(120, 40));
    assert_eq!(TerminalSize::new(1, 1000).clamped(), TerminalSize::new(1, 1000));
    assert_eq!(TerminalSize::new(1001, 0).clamped(), TerminalSize::new(1000, 1));
}

#[test]
fn clamping_twice_is_clamping_once() {
    for (c, r) in [(0u16, 0u16), (80, 24), (999, 1001), (u16::MAX, 3)] {
        let once = TerminalSize::new(c, r).clamped();
        assert_eq!(once.clamped(), once);
    }
}

#[test]
fn the_default_size_is_eighty_by_twenty_four() {
    assert_eq!(TerminalSize::default(), TerminalSize::new(80, 24));
}

#[test]
fn close_codes_are_distinct_and_private_range() {
    assert_eq!(CLOSE_NORMAL, 1000);
    assert_eq!(CLOSE_UNAUTHORIZED, 4001);
    assert_eq!(CLOSE_SESSION_LIMIT, 4002);
    assert_eq!(CLOSE_SHELL_EXITED, 4004);
    assert_eq!(PROTOCOL_VERSION, 1);
}
