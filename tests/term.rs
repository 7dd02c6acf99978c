use raycast::term::{Term, TermCommand};

#[test]
fn new_terminal_has_nothing_queued() {
    let mut t = Term::new();
    assert!(t.take_pending().is_empty());
}

#[test]
fn write_buffer_queues_text_then_flush() {
    let mut t = Term::new();
    t.write_buffer("frame");
    let cmds = t.take_pending();
    assert_eq!(cmds.len(), 2);
    assert!(matches!(&cmds[0], TermCommand::Write(s) if s == "frame"));
    assert!(matches!(cmds[1], TermCommand::Flush));
    assert!(t.take_pending().is_empty());
}

#[test]
fn clear_all_queues_clear_purge_home_flush() {
    let mut t = Term::new();
    t.clear_all();
    let cmds = t.take_pending();
    assert_eq!(cmds.len(), 4);
    assert!(matches!(cmds[0], TermCommand::ClearAll));
    assert!(matches!(cmds[1], TermCommand::ClearPurge));
    assert!(matches!(cmds[2], TermCommand::MoveTo(0, 0)));
    assert!(matches!(cmds[3], TermCommand::Flush));
}

#[test]
fn execute_flushes_after_the_command() {
    let mut t = Term::new();
    t.queue(TermCommand::SavePosition);
    t.execute(TermCommand::HideCursor);
    let cmds = t.take_pending();
    assert_eq!(cmds.len(), 3);
    assert!(matches!(cmds[0], TermCommand::SavePosition));
    assert!(matches!(cmds[1], TermCommand::HideCursor));
    assert!(matches!(cmds[2], TermCommand::Flush));
}
