use grizld::command::Command;
use grizld::editor::{
    command_suggestions, matching_suggestions, suggestion_matches, CommandStep, EditorState,
    KeyAction, KeysPressed, ToggleAction,
};
use grizld::platform::{MetalBridgeError, MetalError};
use grizld::types::PlaybackState;

#[test]
fn palette_lists_every_command() {
    let s = command_suggestions();
    assert_eq!(s.len(), 11);
    assert_eq!(s[0].command, "open");
    assert_eq!(s[0].example, ":open");
    assert_eq!(s[4].description, "Seek to time (seconds, +/-, or %)");
    assert_eq!(s[10].command, "quit");
    assert_eq!(s[10].example, ":quit or :q");
}

#[test]
fn palette_filters_ignoring_case() {
    let s = command_suggestions();
    assert_eq!(matching_suggestions(&s, ""), (0..11).collect::<Vec<usize>>());
    assert_eq!(matching_suggestions(&s, "buf"), vec![5, 6, 7, 8, 9]);
    assert_eq!(matching_suggestions(&s, "PLAY"), vec![2, 3]);
    assert_eq!(matching_suggestions(&s, "Exit"), vec![10]);
    assert_eq!(matching_suggestions(&s, "zzz"), Vec::<usize>::new());
}

#[test]
fn suggestion_text_matching() {
    assert!(suggestion_matches("bnext", "switch to next buffer", ""));
    assert!(suggestion_matches("bnext", "switch to next buffer", "next"));
    assert!(suggestion_matches("bnext", "switch to next buffer", "buffer"));
    assert!(!suggestion_matches("bnext", "switch to next buffer", "prev"));
    assert!(!suggestion_matches("b", "x", "bb"));
}

#[test]
fn normal_mode_keys() {
    let mut state = EditorState::new();
    assert_eq!(state.status_message, "Ready. Press ':' to enter command mode.");
    let none = KeysPressed::default();
    assert_eq!(state.key_action(none), KeyAction::NoAction);
    assert_eq!(state.key_action(KeysPressed { h: true, ..none }), KeyAction::SeekRelative(-5));
    assert_eq!(state.key_action(KeysPressed { l: true, ..none }), KeyAction::SeekRelative(5));
    assert_eq!(state.key_action(KeysPressed { j: true, ..none }), KeyAction::SeekRelative(-1));
    assert_eq!(state.key_action(KeysPressed { k: true, ..none }), KeyAction::SeekRelative(1));
    assert_eq!(state.key_action(KeysPressed { space: true, h: true, ..none }), KeyAction::TogglePlayPause);
    assert_eq!(state.key_action(KeysPressed { colon: true, space: true, ..none }), KeyAction::EnterCommandMode);
    state.enter_command_mode();
    assert!(state.command_mode);
    assert_eq!(state.key_action(KeysPressed { space: true, ..none }), KeyAction::NoAction);
    state.exit_command_mode();
    assert!(!state.command_mode);
}

#[test]
fn submitting_commands() {
    let mut state = EditorState::new();
    state.enter_command_mode();
    state.command_input = "play".to_string();
    match state.submit_command() {
        CommandStep::Execute(Command::Play) => {}
        _ => panic!("expected play"),
    }
    assert_eq!(state.command_history, vec!["play".to_string()]);
    assert!(state.command_mode);
    state.finish_command(Ok("Playing buffer 1".to_string()));
    assert!(!state.command_mode);
    assert_eq!(state.command_input, "");
    assert_eq!(state.status_message, "Playing buffer 1");
    assert_eq!(state.error_message, None);

    state.enter_command_mode();
    state.command_input = "pause".to_string();
    assert!(matches!(state.submit_command(), CommandStep::Execute(Command::Pause)));
    state.finish_command(Err("No buffer open".to_string()));
    assert_eq!(state.error_message, Some("No buffer open".to_string()));
    assert_eq!(state.status_message, "Playing buffer 1");
    assert_eq!(state.command_history.len(), 2);
}

#[test]
fn submitting_special_lines() {
    let mut state = EditorState::new();
    state.enter_command_mode();
    assert!(matches!(state.submit_command(), CommandStep::Done));
    assert!(!state.command_mode);
    assert!(state.command_history.is_empty());

    state.enter_command_mode();
    state.command_input = "open".to_string();
    assert!(matches!(state.submit_command(), CommandStep::ShowFilePicker));
    assert!(!state.command_mode);

    state.enter_command_mode();
    state.command_input = "bogus".to_string();
    assert!(matches!(state.submit_command(), CommandStep::Done));
    assert_eq!(state.error_message, Some("Unknown command: bogus".to_string()));
    assert!(!state.command_mode);

    state.enter_command_mode();
    state.command_input = "q".to_string();
    assert!(matches!(state.submit_command(), CommandStep::Done));
    assert!(state.should_quit);
    assert!(state.command_mode);
}

#[test]
fn file_picker_outcomes() {
    let mut state = EditorState::new();
    state.finish_file_picker(None);
    assert_eq!(state.status_message, "File selection cancelled");
    state.finish_file_picker(Some(Err("File not found: x".to_string())));
    assert_eq!(state.error_message, Some("File not found: x".to_string()));
    state.finish_file_picker(Some(Ok("Opened buffer 1".to_string())));
    assert_eq!(state.status_message, "Opened buffer 1");
    assert_eq!(state.error_message, None);
}

#[test]
fn toggling_playback() {
    let mut state = EditorState::new();
    assert_eq!(state.toggle_play_pause(None), ToggleAction::NoPlayer);
    assert_eq!(state.error_message, Some("No file loaded".to_string()));
    assert_eq!(state.toggle_play_pause(Some(PlaybackState::Playing)), ToggleAction::Pause);
    assert_eq!(state.status_message, "Paused");
    assert_eq!(state.toggle_play_pause(Some(PlaybackState::Paused)), ToggleAction::Play);
    assert_eq!(state.status_message, "Playing");
    assert_eq!(state.toggle_play_pause(Some(PlaybackState::Stopped)), ToggleAction::Play);
}

#[test]
fn platform_error_messages() {
    assert_eq!(MetalError::NoDevice.message(), "No Metal-capable GPU device found");
    assert_eq!(MetalError::InvalidWindowHandle.message(), "Window handle is not a macOS AppKit window");
    assert_eq!(MetalBridgeError::NoRootLayer.message(), "Failed to get root layer");
}
