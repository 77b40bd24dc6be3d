use grizld::command::executor::{buffer_message, format_buffer_list, plan_command, CommandPlan};
use grizld::command::{parse_command, Command, SeekTarget};

fn reply(plan: CommandPlan) -> Result<String, String> {
    match plan {
        CommandPlan::Reply(r) => r,
        _ => panic!("expected a reply"),
    }
}

#[test]
fn commands_without_a_buffer_get_replies() {
    assert_eq!(reply(plan_command(Command::Play, false)), Err("No buffer open. Use :open <file> first".to_string()));
    assert_eq!(reply(plan_command(Command::Pause, false)), Err("No buffer open".to_string()));
    assert_eq!(
        reply(plan_command(Command::Seek(SeekTarget::Percentage(50)), false)),
        Err("No buffer open".to_string())
    );
    assert_eq!(reply(plan_command(Command::OpenDialog, true)), Ok("Opening file dialog...".to_string()));
    assert_eq!(reply(plan_command(Command::Quit, true)), Ok("Quit command received".to_string()));
    assert_eq!(reply(plan_command(Command::NoOp, true)), Ok(String::new()));
}

#[test]
fn commands_with_a_buffer_are_planned() {
    assert!(matches!(plan_command(Command::Play, true), CommandPlan::PlayActive));
    assert!(matches!(plan_command(Command::Pause, true), CommandPlan::PauseActive));
    assert!(matches!(
        plan_command(Command::Seek(SeekTarget::Relative("+5".to_string())), true),
        CommandPlan::SeekActive(SeekTarget::Relative(t)) if t == "+5"
    ));
    assert!(matches!(plan_command(Command::Open("/v.mp4".to_string()), false), CommandPlan::OpenFile(p) if p == "/v.mp4"));
    assert!(matches!(plan_command(Command::Buffer(3), false), CommandPlan::SwitchTo(3)));
    assert!(matches!(plan_command(Command::BufferDelete(2), true), CommandPlan::DeleteBuffer(2)));
    assert!(matches!(plan_command(Command::BufferNext, true), CommandPlan::NextBuffer));
    assert!(matches!(plan_command(Command::BufferPrev, true), CommandPlan::PrevBuffer));
    assert!(matches!(plan_command(Command::BufferList, true), CommandPlan::ListBuffers));
}

#[test]
fn replies_name_buffers() {
    assert_eq!(buffer_message("Playing buffer ", 12, ""), "Playing buffer 12");
    assert_eq!(buffer_message("Switched to buffer ", 0, ": a.mp4"), "Switched to buffer 0: a.mp4");
    assert_eq!(format_buffer_list(&vec![]), "No buffers open");
    let list = format_buffer_list(&vec![
        (1, "a.mp4".to_string(), "Paused".to_string(), false),
        (2, "b.mkv".to_string(), "Playing".to_string(), true),
    ]);
    assert_eq!(list, "Buffers:\n  1  a.mp4  [Paused]\n *2  b.mkv  [Playing]\n");
}

#[test]
fn written_buffer_ids_read_back() {
    for id in [0usize, 7, 10, 42, 1000, usize::MAX] {
        let typed = buffer_message(":b ", id, "");
        assert!(matches!(parse_command(&typed), Ok(Command::Buffer(n)) if n == id));
        let typed = buffer_message(":bd ", id, "");
        assert!(matches!(parse_command(&typed), Ok(Command::BufferDelete(n)) if n == id));
    }
}
