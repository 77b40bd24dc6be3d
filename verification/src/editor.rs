//! The editor's modes and messages: normal-mode keys, the command line and
//! its history, the command palette's suggestions, and what the status line
//! says after each command.

use vstd::prelude::*;
use vstd::string::{StrSliceExecFns, StringExecFns};

use crate::command::text::chars_of;
use crate::command::{parse_command, spec_parse_command, Command, CommandView};
use crate::types::PlaybackState;

verus! {

/// A command the palette offers, with what it does and an example.
pub struct CommandSuggestion {
    pub command: String,
    pub description: String,
    pub example: String,
}

/// The palette's entries: command, description and example of each.
pub open spec fn suggestion_table() -> Seq<(Seq<char>, Seq<char>, Seq<char>)> {
    seq![
        ("open"@, "Open video file (shows file picker)"@, ":open"@),
        ("open <path>"@, "Open video from path"@, ":open /path/to/video.mp4"@),
        ("play"@, "Start playback"@, ":play"@),
        ("pause"@, "Pause playback"@, ":pause"@),
        ("seek <time>"@, "Seek to time (seconds, +/-, or %)"@, ":seek 10.5 or :seek +5 or :seek 50%"@),
        ("buffer <id>"@, "Switch to buffer by ID"@, ":buffer 1 or :b 1"@),
        ("bnext"@, "Switch to next buffer"@, ":bnext or :bn"@),
        ("bprev"@, "Switch to previous buffer"@, ":bprev or :bp"@),
        ("buffers"@, "List all open buffers"@, ":buffers or :ls"@),
        ("bdelete <id>"@, "Close buffer by ID"@, ":bdelete 1 or :bd 1"@),
        ("quit"@, "Exit editor"@, ":quit or :q"@),
    ]
}

/// The suggestion as plain values.
pub open spec fn suggestion_view(s: &CommandSuggestion) -> (Seq<char>, Seq<char>, Seq<char>) {
    (s.command@, s.description@, s.example@)
}

fn suggestion(command: &str, description: &str, example: &str) -> (r: CommandSuggestion)
    ensures
        suggestion_view(&r) == (command@, description@, example@),
{
    CommandSuggestion {
        command: String::from_str(command),
        description: String::from_str(description),
        example: String::from_str(example),
    }
}

/// The command palette's suggestions, in the order shown.
pub fn command_suggestions() -> (r: Vec<CommandSuggestion>)
    ensures
        r@.len() == suggestion_table().len(),
        forall|i: int| 0 <= i < r@.len() ==> suggestion_view(&r@[i]) == suggestion_table()[i],
{
    let mut v: Vec<CommandSuggestion> = Vec::new();
    v.push(suggestion("open", "Open video file (shows file picker)", ":open"));
    v.push(suggestion("open <path>", "Open video from path", ":open /path/to/video.mp4"));
    v.push(suggestion("play", "Start playback", ":play"));
    v.push(suggestion("pause", "Pause playback", ":pause"));
    v.push(
        suggestion(
            "seek <time>",
            "Seek to time (seconds, +/-, or %)",
            ":seek 10.5 or :seek +5 or :seek 50%",
        ),
    );
    v.push(suggestion("buffer <id>", "Switch to buffer by ID", ":buffer 1 or :b 1"));
    v.push(suggestion("bnext", "Switch to next buffer", ":bnext or :bn"));
    v.push(suggestion("bprev", "Switch to previous buffer", ":bprev or :bp"));
    v.push(suggestion("buffers", "List all open buffers", ":buffers or :ls"));
    v.push(suggestion("bdelete <id>", "Close buffer by ID", ":bdelete 1 or :bd 1"));
    v.push(suggestion("quit", "Exit editor", ":quit or :q"));
    v
}

/// What `str::to_lowercase` gives for these characters.
pub uninterp spec fn lowercase(s: Seq<char>) -> Seq<char>;

/// `str::to_lowercase`: the characters mapped to lower case by Unicode's rules.
#[verifier::external_body]
fn to_lowercase(s: &str) -> (r: String)
    ensures
        r@ == lowercase(s@),
{
    s.to_lowercase()
}

/// `needle` occurs in `hay` as a run of consecutive characters.
pub open spec fn contains_seq(hay: Seq<char>, needle: Seq<char>) -> bool {
    exists|i: int|
        0 <= i && i + needle.len() <= hay.len() && #[trigger] hay.subrange(i, i + needle.len())
            == needle
}

/// Whether `needle` occurs at position `at` of `hay`.
fn occurs_at(hay: &Vec<char>, needle: &Vec<char>, at: usize) -> (r: bool)
    requires
        at + needle@.len() <= hay@.len(),
    ensures
        r == (hay@.subrange(at as int, at + needle@.len()) == needle@),
{
    let hay_len = hay.len();
    let mut k: usize = 0;
    while k < needle.len()
        invariant
            hay_len == hay@.len(),
            at + needle@.len() <= hay@.len(),
            k <= needle@.len(),
            forall|j: int| 0 <= j < k ==> hay@[at + j] == needle@[j],
        decreases needle@.len() - k,
    {
        if hay[at + k] != needle[k] {
            assert(hay@.subrange(at as int, at + needle@.len())[k as int] != needle@[k as int]);
            return false;
        }
        k = k + 1;
    }
    assert(hay@.subrange(at as int, at + needle@.len()) == needle@);
    true
}

/// Whether `needle` occurs in `hay`.
fn contains_chars(hay: &Vec<char>, needle: &Vec<char>) -> (r: bool)
    ensures
        r == contains_seq(hay@, needle@),
{
    if needle.len() > hay.len() {
        return false;
    }
    if needle.len() == 0 {
        assert(hay@.subrange(0int, 0int + needle@.len()) =~= needle@);
        return true;
    }
    let hay_len = hay.len();
    let last = hay_len - needle.len();
    let mut at: usize = 0;
    while at <= last
        invariant
            hay_len == hay@.len(),
            last + needle@.len() == hay@.len(),
            needle@.len() > 0,
            forall|i: int|
                0 <= i < at ==> #[trigger] hay@.subrange(i, i + needle@.len()) != needle@,
        decreases last + 1 - at,
    {
        if occurs_at(hay, needle, at) {
            return true;
        }
        at = at + 1;
    }
    false
}

/// A suggestion is shown for the typed text (all three in lower case) when
/// the text is empty or occurs in its command or its description.
pub open spec fn spec_suggestion_matches(
    command: Seq<char>,
    description: Seq<char>,
    input: Seq<char>,
) -> bool {
    input.len() == 0 || contains_seq(command, input) || contains_seq(description, input)
}

/// Whether a suggestion is shown, given its command, its description and the
/// typed text, each already in lower case.
pub fn suggestion_matches(command: &str, description: &str, input: &str) -> (r: bool)
    ensures
        r == spec_suggestion_matches(command@, description@, input@),
{
    let needle = chars_of(input);
    if needle.len() == 0 {
        return true;
    }
    contains_chars(&chars_of(command), &needle) || contains_chars(&chars_of(description), &needle)
}

/// The suggestion is shown for the typed text, compared without case.
pub open spec fn spec_shown(s: &CommandSuggestion, input: Seq<char>) -> bool {
    spec_suggestion_matches(lowercase(s.command@), lowercase(s.description@), lowercase(input))
}

/// The positions of the suggestions shown for the typed text `input`, in
/// order: all of them for empty text, else those whose command or
/// description contains the text, ignoring case.
pub fn matching_suggestions(suggestions: &Vec<CommandSuggestion>, input: &str) -> (r: Vec<usize>)
    ensures
        forall|k: int| 0 <= k < r@.len() ==> r@[k] < suggestions@.len(),
        forall|k: int| 0 <= k < r@.len() ==> spec_shown(&suggestions@[r@[k] as int], input@),
        forall|a: int, b: int| 0 <= a < b < r@.len() ==> r@[a] < r@[b],
        forall|i: int|
            0 <= i < suggestions@.len() && spec_shown(&suggestions@[i], input@) ==> r@.contains(
                i as usize,
            ),
{
    let input_lower = to_lowercase(input);
    let mut out: Vec<usize> = Vec::new();
    let mut i: usize = 0;
    while i < suggestions.len()
        invariant
            i <= suggestions@.len(),
            input_lower@ == lowercase(input@),
            forall|k: int| 0 <= k < out@.len() ==> out@[k] < i,
            forall|k: int|
                0 <= k < out@.len() ==> spec_shown(&suggestions@[out@[k] as int], input@),
            forall|a: int, b: int| 0 <= a < b < out@.len() ==> out@[a] < out@[b],
            forall|j: int|
                0 <= j < i && spec_shown(&suggestions@[j], input@) ==> out@.contains(j as usize),
        decreases suggestions@.len() - i,
    {
        let s = &suggestions[i];
        let command_lower = to_lowercase(s.command.as_str());
        let description_lower = to_lowercase(s.description.as_str());
        if suggestion_matches(
            command_lower.as_str(),
            description_lower.as_str(),
            input_lower.as_str(),
        ) {
            let ghost before = out@;
            out.push(i);
            assert forall|j: int|
                0 <= j < i + 1 && spec_shown(&suggestions@[j], input@) implies out@.contains(
                j as usize,
            ) by {
                if j < i {
                    assert(before.contains(j as usize));
                    let w = choose|w: int| 0 <= w < before.len() && before[w] == j as usize;
                    assert(out@[w] == j as usize);
                } else {
                    assert(out@[before.len() as int] == i);
                }
            }
        }
        i = i + 1;
    }
    out
}

/// Keys pressed during one frame of normal mode.
#[derive(Debug, Clone, Copy, PartialEq, Eq, Structural, Default)]
pub struct KeysPressed {
    pub colon: bool,
    pub space: bool,
    pub h: bool,
    pub l: bool,
    pub j: bool,
    pub k: bool,
}

/// What a frame's keys ask for.
#[derive(Debug, Clone, Copy, PartialEq, Eq, Structural)]
pub enum KeyAction {
    NoAction,
    EnterCommandMode,
    TogglePlayPause,
    /// Seek by this many seconds from the current time.
    SeekRelative(i64),
}

/// What the status line and the player do when playback is toggled.
#[derive(Debug, Clone, Copy, PartialEq, Eq, Structural)]
pub enum ToggleAction {
    Pause,
    Play,
    NoPlayer,
}

/// What comes after a command line is submitted.
pub enum CommandStep {
    /// Nothing more to do.
    Done,
    /// The file picker is to be shown.
    ShowFilePicker,
    /// The command is to be run by the executor, whose outcome then goes to
    /// `finish_command`.
    Execute(Command),
}

/// The editor's state outside the player: its mode, the command line, the
/// command history and the messages shown.
pub struct EditorState {
    pub command_mode: bool,
    pub command_input: String,
    pub command_history: Vec<String>,
    pub history_index: Option<usize>,
    pub status_message: String,
    pub error_message: Option<String>,
    pub should_quit: bool,
}

/// An optional message as plain values.
pub open spec fn message_view(m: Option<String>) -> Option<Seq<char>> {
    match m {
        Some(s) => Some(s@),
        None => None,
    }
}

/// The commands the history keeps, oldest first.
pub open spec fn history_view(h: Seq<String>) -> Seq<Seq<char>> {
    h.map_values(|s: String| s@)
}

/// The action of the keys of a frame in normal mode, the first of colon,
/// space, `h`, `l`, `j`, `k` that is pressed deciding.
pub open spec fn spec_key_action(keys: KeysPressed) -> KeyAction {
    if keys.colon {
        KeyAction::EnterCommandMode
    } else if keys.space {
        KeyAction::TogglePlayPause
    } else if keys.h {
        KeyAction::SeekRelative(-5i64)
    } else if keys.l {
        KeyAction::SeekRelative(5i64)
    } else if keys.j {
        KeyAction::SeekRelative(-1i64)
    } else if keys.k {
        KeyAction::SeekRelative(1i64)
    } else {
        KeyAction::NoAction
    }
}

impl EditorState {
    pub fn new() -> (r: Self)
        ensures
            !r.command_mode,
            r.command_input@.len() == 0,
            r.command_history@.len() == 0,
            r.history_index.is_none(),
            r.status_message@ == "Ready. Press ':' to enter command mode."@,
            r.error_message.is_none(),
            !r.should_quit,
    {
        EditorState {
            command_mode: false,
            command_input: String::new(),
            command_history: Vec::new(),
            history_index: None,
            status_message: String::from_str("Ready. Press ':' to enter command mode."),
            error_message: None,
            should_quit: false,
        }
    }

    /// The action of a frame's keys: none in command mode, where the text
    /// field takes the keys.
    pub fn key_action(&self, keys: KeysPressed) -> (r: KeyAction)
        ensures
            self.command_mode ==> r == KeyAction::NoAction,
            !self.command_mode ==> r == spec_key_action(keys),
    {
        if self.command_mode {
            KeyAction::NoAction
        } else if keys.colon {
            KeyAction::EnterCommandMode
        } else if keys.space {
            KeyAction::TogglePlayPause
        } else if keys.h {
            KeyAction::SeekRelative(-5)
        } else if keys.l {
            KeyAction::SeekRelative(5)
        } else if keys.j {
            KeyAction::SeekRelative(-1)
        } else if keys.k {
            KeyAction::SeekRelative(1)
        } else {
            KeyAction::NoAction
        }
    }

    /// Enter command mode with an empty command line.
    pub fn enter_command_mode(&mut self)
        ensures
            final(self).command_mode,
            final(self).command_input@.len() == 0,
            final(self).history_index.is_none(),
            final(self).error_message.is_none(),
            final(self).status_message@ == old(self).status_message@,
            final(self).command_history@ == old(self).command_history@,
            final(self).should_quit == old(self).should_quit,
    {
        self.command_mode = true;
        self.command_input = String::new();
        self.history_index = None;
        self.error_message = None;
    }

    /// Leave command mode, clearing the command line.
    pub fn exit_command_mode(&mut self)
        ensures
            !final(self).command_mode,
            final(self).command_input@.len() == 0,
            final(self).history_index == old(self).history_index,
            message_view(final(self).error_message) == message_view(old(self).error_message),
            final(self).status_message@ == old(self).status_message@,
            final(self).command_history@ == old(self).command_history@,
            final(self).should_quit == old(self).should_quit,
    {
        self.command_mode = false;
        self.command_input = String::new();
    }

    /// Submit the command line: it is read as `:` followed by what was typed.
    ///
    /// A parse error is shown and command mode ends. `quit` asks to close
    /// and leaves everything else as it is. `open` without a path ends
    /// command mode and asks for the file picker; an empty command only ends
    /// command mode. Any other command is added to the history (unless the
    /// line was empty) and handed back to be run, in command mode still.
    pub fn submit_command(&mut self) -> (r: CommandStep)
        ensures
            final(self).status_message@ == old(self).status_message@,
            final(self).history_index == old(self).history_index,
            ({
                let parsed = spec_parse_command(seq![':'] + old(self).command_input@);
                match parsed {
                    Err(e) => {
                        &&& r is Done
                        &&& message_view(final(self).error_message) == Some(e)
                        &&& !final(self).command_mode
                        &&& final(self).command_input@.len() == 0
                        &&& final(self).command_history@ == old(self).command_history@
                        &&& final(self).should_quit == old(self).should_quit
                    },
                    Ok(CommandView::Quit) => {
                        &&& r is Done
                        &&& final(self).should_quit
                        &&& final(self).command_mode == old(self).command_mode
                        &&& final(self).command_input@ == old(self).command_input@
                        &&& final(self).command_history@ == old(self).command_history@
                        &&& message_view(final(self).error_message) == message_view(
                            old(self).error_message,
                        )
                    },
                    Ok(CommandView::OpenDialog) => {
                        &&& r is ShowFilePicker
                        &&& !final(self).command_mode
                        &&& final(self).command_input@.len() == 0
                        &&& final(self).command_history@ == old(self).command_history@
                        &&& message_view(final(self).error_message) == message_view(
                            old(self).error_message,
                        )
                        &&& final(self).should_quit == old(self).should_quit
                    },
                    Ok(CommandView::NoOp) => {
                        &&& r is Done
                        &&& !final(self).command_mode
                        &&& final(self).command_input@.len() == 0
                        &&& final(self).command_history@ == old(self).command_history@
                        &&& message_view(final(self).error_message) == message_view(
                            old(self).error_message,
                        )
                        &&& final(self).should_quit == old(self).should_quit
                    },
                    Ok(c) => {
                        &&& r matches CommandStep::Execute(cmd) && cmd@ == c
                        &&& final(self).command_mode == old(self).command_mode
                        &&& final(self).command_input@ == old(self).command_input@
                        &&& history_view(final(self).command_history@) == if old(
                            self,
                        ).command_input@.len() == 0 {
                            history_view(old(self).command_history@)
                        } else {
                            history_view(old(self).command_history@).push(
                                old(self).command_input@,
                            )
                        }
                        &&& message_view(final(self).error_message) == message_view(
                            old(self).error_message,
                        )
                        &&& final(self).should_quit == old(self).should_quit
                    },
                }
            }),
    {
        let mut line = String::from_str(":");
        line.append(self.command_input.as_str());
        assert(line@ == seq![':'] + self.command_input@) by {
            reveal_strlit(":");
        }
        match parse_command(line.as_str()) {
            Err(e) => {
                self.error_message = Some(e);
                self.exit_command_mode();
                CommandStep::Done
            },
            Ok(Command::Quit) => {
                self.should_quit = true;
                CommandStep::Done
            },
            Ok(Command::OpenDialog) => {
                self.exit_command_mode();
                CommandStep::ShowFilePicker
            },
            Ok(Command::NoOp) => {
                self.exit_command_mode();
                CommandStep::Done
            },
            Ok(cmd) => {
                if self.command_input.as_str().unicode_len() > 0 {
                    let ghost before = self.command_history@;
                    self.command_history.push(self.command_input.clone());
                    assert(history_view(self.command_history@) == history_view(before).push(
                        self.command_input@,
                    ));
                }
                CommandStep::Execute(cmd)
            },
        }
    }

    /// Show what running a submitted command gave, and leave command mode.
    pub fn finish_command(&mut self, outcome: Result<String, String>)
        ensures
            !final(self).command_mode,
            final(self).history_index == old(self).history_index,
            final(self).command_input@.len() == 0,
            final(self).command_history@ == old(self).command_history@,
            final(self).should_quit == old(self).should_quit,
            outcome matches Ok(msg) ==> final(self).status_message@ == msg@
                && final(self).error_message.is_none(),
            outcome matches Err(e) ==> message_view(final(self).error_message) == Some(e@)
                && final(self).status_message@ == old(self).status_message@,
    {
        match outcome {
            Ok(msg) => {
                self.status_message = msg;
                self.error_message = None;
            },
            Err(e) => {
                self.error_message = Some(e);
            },
        }
        self.exit_command_mode();
    }

    /// Show what the file picker gave: `None` when it was cancelled, else
    /// what opening the chosen file gave.
    pub fn finish_file_picker(&mut self, outcome: Option<Result<String, String>>)
        ensures
            final(self).command_mode == old(self).command_mode,
            final(self).history_index == old(self).history_index,
            final(self).command_input@ == old(self).command_input@,
            final(self).command_history@ == old(self).command_history@,
            final(self).should_quit == old(self).should_quit,
            outcome is None ==> final(self).status_message@ == "File selection cancelled"@
                && message_view(final(self).error_message) == message_view(
                old(self).error_message,
            ),
            outcome matches Some(Ok(msg)) ==> final(self).status_message@ == msg@
                && final(self).error_message.is_none(),
            outcome matches Some(Err(e)) ==> message_view(final(self).error_message) == Some(e@)
                && final(self).status_message@ == old(self).status_message@,
    {
        match outcome {
            Some(Ok(msg)) => {
                self.status_message = msg;
                self.error_message = None;
            },
            Some(Err(e)) => {
                self.error_message = Some(e);
            },
            None => {
                self.status_message = String::from_str("File selection cancelled");
            },
        }
    }

    /// Toggle playback of the active player, in state `state` (`None` when
    /// no file is open): a playing player pauses, any other plays.
    pub fn toggle_play_pause(&mut self, state: Option<PlaybackState>) -> (r: ToggleAction)
        ensures
            final(self).command_mode == old(self).command_mode,
            final(self).history_index == old(self).history_index,
            final(self).command_input@ == old(self).command_input@,
            final(self).command_history@ == old(self).command_history@,
            final(self).should_quit == old(self).should_quit,
            state is None ==> r == ToggleAction::NoPlayer && message_view(
                final(self).error_message,
            ) == Some("No file loaded"@) && final(self).status_message@ == old(
                self,
            ).status_message@,
            state == Some(PlaybackState::Playing) ==> r == ToggleAction::Pause
                && final(self).status_message@ == "Paused"@ && message_view(
                final(self).error_message,
            ) == message_view(old(self).error_message),
            (state == Some(PlaybackState::Paused) || state == Some(PlaybackState::Stopped)) ==> r
                == ToggleAction::Play && final(self).status_message@ == "Playing"@ && message_view(
                final(self).error_message,
            ) == message_view(old(self).error_message),
    {
        match state {
            Some(PlaybackState::Playing) => {
                self.status_message = String::from_str("Paused");
                ToggleAction::Pause
            },
            Some(_) => {
                self.status_message = String::from_str("Playing");
                ToggleAction::Play
            },
            None => {
                self.error_message = Some(String::from_str("No file loaded"));
                ToggleAction::NoPlayer
            },
        }
    }
}

} // verus!
