use grizld::command::{parse_command, resolve_seek_time, Command, SeekTarget};

fn seek_seconds(target: &SeekTarget) -> Result<f64, String> {
    match target {
        SeekTarget::Absolute(text) => {
            let parsed = text.parse::<f64>().ok().map(f64::to_bits);
            resolve_seek_time(false, parsed).map(f64::from_bits)
        }
        SeekTarget::Relative(text) => {
            let parsed = text.parse::<f64>().ok().map(f64::to_bits);
            resolve_seek_time(true, parsed).map(f64::from_bits)
        }
        SeekTarget::Percentage(p) => Ok(*p as f64),
    }
}

#[test]
fn test_parse_open() {
    // Open with path
    let cmd = parse_command(":open /path/to/video.mp4").unwrap();
    match cmd {
        Command::Open(path) => assert_eq!(path, "/path/to/video.mp4"),
        _ => panic!("Expected Open command"),
    }

    // Open without path (should trigger file dialog)
    let cmd = parse_command(":open").unwrap();
    assert!(matches!(cmd, Command::OpenDialog));
}

#[test]
fn test_parse_play_pause() {
    assert!(matches!(parse_command(":play").unwrap(), Command::Play));
    assert!(matches!(parse_command(":pause").unwrap(), Command::Pause));
}

#[test]
fn test_parse_seek() {
    // Absolute
    match parse_command(":seek 10.5").unwrap() {
        Command::Seek(t @ SeekTarget::Absolute(_)) => assert_eq!(seek_seconds(&t).unwrap(), 10.5),
        _ => panic!("Expected Seek Absolute"),
    }

    // Relative forward
    match parse_command(":seek +5").unwrap() {
        Command::Seek(t @ SeekTarget::Relative(_)) => assert_eq!(seek_seconds(&t).unwrap(), 5.0),
        _ => panic!("Expected Seek Relative"),
    }

    // Relative backward
    match parse_command(":seek -3").unwrap() {
        Command::Seek(t @ SeekTarget::Relative(_)) => assert_eq!(seek_seconds(&t).unwrap(), -3.0),
        _ => panic!("Expected Seek Relative"),
    }

    // Percentage
    match parse_command(":seek 50%").unwrap() {
        Command::Seek(SeekTarget::Percentage(p)) => assert_eq!(p, 50),
        _ => panic!("Expected Seek Percentage"),
    }
}

#[test]
fn test_parse_quit() {
    assert!(matches!(parse_command(":quit").unwrap(), Command::Quit));
    assert!(matches!(parse_command(":q").unwrap(), Command::Quit));
}

#[test]
fn test_parse_errors() {
    assert!(parse_command("invalid").is_err());
    assert!(parse_command(":seek").is_err()); // seek requires an argument
    assert!(parse_command(":unknown").is_err()); // unknown command
}

#[test]
fn parse_error_messages() {
    assert_eq!(parse_command("invalid").err().unwrap(), "Commands must start with ':'");
    assert_eq!(parse_command(":unknown").err().unwrap(), "Unknown command: unknown");
    assert_eq!(
        parse_command(":seek").err().unwrap(),
        "Usage: :seek <target> (e.g., :seek 10.5, :seek +5, :seek 50%)"
    );
    assert_eq!(parse_command(":seek 101%").err().unwrap(), "Percentage must be 0-100");
    assert_eq!(parse_command(":seek 256%").err().unwrap(), "Invalid percentage");
    assert_eq!(parse_command(":seek x%").err().unwrap(), "Invalid percentage");
    assert_eq!(parse_command(":b").err().unwrap(), "Usage: :buffer <id> (e.g., :buffer 1)");
    assert_eq!(parse_command(":bd").err().unwrap(), "Usage: :bdelete <id> (e.g., :bdelete 1)");
    assert_eq!(parse_command(":buffer x").err().unwrap(), "Invalid buffer ID");
    assert_eq!(parse_command(":bd -1").err().unwrap(), "Invalid buffer ID");
}

#[test]
fn parse_whitespace_and_empty() {
    assert!(matches!(parse_command("").unwrap(), Command::NoOp));
    assert!(matches!(parse_command("   \t ").unwrap(), Command::NoOp));
    assert!(matches!(parse_command(" :   ").unwrap(), Command::NoOp));
    assert!(matches!(parse_command("\u{3000}:play\u{a0}").unwrap(), Command::Play));
    match parse_command(":o  my   video\tfile.mp4 ").unwrap() {
        Command::Open(p) => assert_eq!(p, "my video file.mp4"),
        _ => panic!("Expected Open command"),
    }
}

#[test]
fn parse_buffer_commands() {
    assert!(matches!(parse_command(":buffer 3").unwrap(), Command::Buffer(3)));
    assert!(matches!(parse_command(":b +7").unwrap(), Command::Buffer(7)));
    assert!(matches!(parse_command(":bd 2").unwrap(), Command::BufferDelete(2)));
    assert!(matches!(parse_command(":bn").unwrap(), Command::BufferNext));
    assert!(matches!(parse_command(":bprev").unwrap(), Command::BufferPrev));
    assert!(matches!(parse_command(":ls").unwrap(), Command::BufferList));
    assert!(matches!(
        parse_command(":buffer 18446744073709551615").unwrap(),
        Command::Buffer(18446744073709551615)
    ));
    assert!(parse_command(":buffer 18446744073709551616").is_err());
}

#[test]
fn seek_time_checks() {
    assert_eq!(resolve_seek_time(false, Some((-1.0f64).to_bits())).err().unwrap(), "Seek time cannot be negative");
    assert_eq!(resolve_seek_time(false, Some((-0.0f64).to_bits())), Ok((-0.0f64).to_bits()));
    assert!(resolve_seek_time(false, Some(f64::NAN.to_bits())).is_ok());
    assert_eq!(resolve_seek_time(true, Some((-1.0f64).to_bits())), Ok((-1.0f64).to_bits()));
    assert_eq!(resolve_seek_time(true, None).err().unwrap(), "Invalid seek offset");
    assert_eq!(resolve_seek_time(false, None).err().unwrap(), "Invalid seek time");
    assert_eq!(resolve_seek_time(false, Some(f64::NEG_INFINITY.to_bits())).err().unwrap(), "Seek time cannot be negative");
}

#[test]
fn seek_rejects_text_that_is_not_a_number() {
    assert_eq!(parse_command(":seek abc").err().unwrap(), "Invalid seek time");
    assert_eq!(parse_command(":seek +abc").err().unwrap(), "Invalid seek offset");
    assert_eq!(parse_command(":seek -").err().unwrap(), "Invalid seek offset");
    assert_eq!(parse_command(":seek 1.2.3").err().unwrap(), "Invalid seek time");
    assert!(parse_command(":seek -1").is_ok());
    assert!(parse_command(":seek -2.5e1").is_ok());
}

#[test]
fn seek_text_is_a_number_exactly_when_f64_reads_it() {
    let tokens = [
        "0", "10", "10.5", ".5", "5.", ".", "1e3", "1E3", "1e+3", "1e-3", "1e", "e3", "1.5e2.0",
        "inf", "INF", "Infinity", "infinity", "infinit", "nan", "NaN", "nAn", "+inf", "-nan",
        "+5", "-3", "+", "-", "+-1", "1_000", "0x10", "1,5", "١", "1e١", "12abc", "abc", "..1",
        "1..", "-.5", "+.5e-7", "00012.3400", "9999999999999999999999999",
    ];
    for tok in tokens {
        let line = format!(":seek {}", tok);
        let expected = tok.parse::<f64>().is_ok();
        assert_eq!(parse_command(&line).is_ok(), expected, "token {:?}", tok);
    }
}
