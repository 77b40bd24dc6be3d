use vstd::prelude::*;
use vstd::string::StringExecFns;

use super::text::{
    chars_eq_str, chars_of, decimal, is_ws, join_words, lemma_decimal_reads_back,
    lemma_one_word, lemma_trim_unchanged, lemma_two_words, parse_unsigned, spec_parse_unsigned, split_words,
    string_from_chars, trim, trim_bounds, unsigned_digits, words,
};
use super::float_text::{float_text, is_float_text};

verus! {

/// Seek target specification.
///
/// Times are kept as the text the user typed, which the parser has checked
/// to be a number; `resolve_seek_time` turns the value a decimal parser
/// reads from it into the time to seek to.
pub enum SeekTarget {
    /// Absolute time in seconds
    Absolute(String),
    /// Relative offset in seconds (positive or negative)
    Relative(String),
    /// Percentage of total duration (0-100)
    Percentage(u8),
}

/// Commands that can be executed in the editor
pub enum Command {
    /// Open a video file (:open <path>)
    Open(String),
    /// Open file dialog (:open with no args)
    OpenDialog,
    /// Start playback (:play)
    Play,
    /// Pause playback (:pause)
    Pause,
    /// Seek to a position (:seek <target>)
    Seek(SeekTarget),
    /// Switch to buffer by ID (:buffer <id> or :b <id>)
    Buffer(usize),
    /// Next buffer (:bnext or :bn)
    BufferNext,
    /// Previous buffer (:bprev or :bp)
    BufferPrev,
    /// List all buffers (:buffers or :ls)
    BufferList,
    /// Delete buffer by ID (:bdelete <id> or :bd <id>)
    BufferDelete(usize),
    /// Quit the editor (:quit or :q)
    Quit,
    /// No operation (empty command)
    NoOp,
}

/// A seek target as plain values.
pub ghost enum SeekView {
    Absolute(Seq<char>),
    Relative(Seq<char>),
    Percentage(u8),
}

/// A command as plain values.
pub ghost enum CommandView {
    Open(Seq<char>),
    OpenDialog,
    Play,
    Pause,
    Seek(SeekView),
    Buffer(usize),
    BufferNext,
    BufferPrev,
    BufferList,
    BufferDelete(usize),
    Quit,
    NoOp,
}

impl View for SeekTarget {
    type V = SeekView;

    open spec fn view(&self) -> SeekView {
        match self {
            SeekTarget::Absolute(s) => SeekView::Absolute(s@),
            SeekTarget::Relative(s) => SeekView::Relative(s@),
            SeekTarget::Percentage(p) => SeekView::Percentage(*p),
        }
    }
}

impl View for Command {
    type V = CommandView;

    open spec fn view(&self) -> CommandView {
        match self {
            Command::Open(p) => CommandView::Open(p@),
            Command::OpenDialog => CommandView::OpenDialog,
            Command::Play => CommandView::Play,
            Command::Pause => CommandView::Pause,
            Command::Seek(t) => CommandView::Seek(t@),
            Command::Buffer(id) => CommandView::Buffer(*id),
            Command::BufferNext => CommandView::BufferNext,
            Command::BufferPrev => CommandView::BufferPrev,
            Command::BufferList => CommandView::BufferList,
            Command::BufferDelete(id) => CommandView::BufferDelete(*id),
            Command::Quit => CommandView::Quit,
            Command::NoOp => CommandView::NoOp,
        }
    }
}

/// The target of `:seek <token>`.
pub open spec fn spec_seek_target(tok: Seq<char>) -> Result<CommandView, Seq<char>> {
    if tok.len() > 0 && tok.last() == '%' {
        match spec_parse_unsigned(tok.drop_last(), 255) {
            None => Err("Invalid percentage"@),
            Some(p) => if p > 100 {
                Err("Percentage must be 0-100"@)
            } else {
                Ok(CommandView::Seek(SeekView::Percentage(p as u8)))
            },
        }
    } else if tok.len() > 0 && (tok[0] == '+' || tok[0] == '-') {
        if float_text(tok) {
            Ok(CommandView::Seek(SeekView::Relative(tok)))
        } else {
            Err("Invalid seek offset"@)
        }
    } else if float_text(tok) {
        Ok(CommandView::Seek(SeekView::Absolute(tok)))
    } else {
        Err("Invalid seek time"@)
    }
}

/// The command named by the first of the words `ps`, with its arguments.
pub open spec fn spec_dispatch(ps: Seq<Seq<char>>) -> Result<CommandView, Seq<char>>
    recommends
        ps.len() > 0,
{
    let c = ps[0];
    if c == "open"@ || c == "o"@ {
        if ps.len() < 2 {
            Ok(CommandView::OpenDialog)
        } else {
            Ok(CommandView::Open(join_words(ps.subrange(1, ps.len() as int))))
        }
    } else if c == "play"@ {
        Ok(CommandView::Play)
    } else if c == "pause"@ {
        Ok(CommandView::Pause)
    } else if c == "seek"@ || c == "s"@ {
        if ps.len() < 2 {
            Err("Usage: :seek <target> (e.g., :seek 10.5, :seek +5, :seek 50%)"@)
        } else {
            spec_seek_target(ps[1])
        }
    } else if c == "buffer"@ || c == "b"@ {
        if ps.len() < 2 {
            Err("Usage: :buffer <id> (e.g., :buffer 1)"@)
        } else {
            match spec_parse_unsigned(ps[1], usize::MAX as nat) {
                None => Err("Invalid buffer ID"@),
                Some(id) => Ok(CommandView::Buffer(id as usize)),
            }
        }
    } else if c == "bnext"@ || c == "bn"@ {
        Ok(CommandView::BufferNext)
    } else if c == "bprev"@ || c == "bp"@ {
        Ok(CommandView::BufferPrev)
    } else if c == "buffers"@ || c == "ls"@ {
        Ok(CommandView::BufferList)
    } else if c == "bdelete"@ || c == "bd"@ {
        if ps.len() < 2 {
            Err("Usage: :bdelete <id> (e.g., :bdelete 1)"@)
        } else {
            match spec_parse_unsigned(ps[1], usize::MAX as nat) {
                None => Err("Invalid buffer ID"@),
                Some(id) => Ok(CommandView::BufferDelete(id as usize)),
            }
        }
    } else if c == "quit"@ || c == "q"@ {
        Ok(CommandView::Quit)
    } else {
        Err("Unknown command: "@ + c)
    }
}

/// What `parse_command` gives for an input line.
pub open spec fn spec_parse_command(input: Seq<char>) -> Result<CommandView, Seq<char>> {
    let t = trim(input);
    if t.len() == 0 {
        Ok(CommandView::NoOp)
    } else if t[0] != ':' {
        Err("Commands must start with ':'"@)
    } else {
        let ps = words(t.drop_first());
        if ps.len() == 0 {
            Ok(CommandView::NoOp)
        } else {
            spec_dispatch(ps)
        }
    }
}

fn message(lit: &str) -> (r: String)
    ensures
        r@ == lit@,
{
    String::from_str(lit)
}

/// Result type of the parser, viewed as plain values.
pub open spec fn result_view(r: Result<Command, String>) -> Result<CommandView, Seq<char>> {
    match r {
        Ok(c) => Ok(c@),
        Err(e) => Err(e@),
    }
}

fn parse_seek_target(tok: &Vec<char>) -> (r: Result<Command, String>)
    ensures
        result_view(r) == spec_seek_target(tok@),
{
    let n = tok.len();
    if n > 0 && tok[n - 1] == '%' {
        let mut digits: Vec<char> = Vec::new();
        let mut i: usize = 0;
        while i < n - 1
            invariant
                n == tok@.len(),
                n > 0,
                0 <= i <= n - 1,
                digits@ == tok@.subrange(0, i as int),
            decreases n - 1 - i,
        {
            digits.push(tok[i]);
            assert(tok@.subrange(0, i + 1) == tok@.subrange(0, i as int).push(tok@[i as int]));
            i = i + 1;
        }
        assert(digits@ == tok@.drop_last());
        match parse_unsigned(&digits, 255) {
            None => Err(message("Invalid percentage")),
            Some(p) => {
                if p > 100 {
                    Err(message("Percentage must be 0-100"))
                } else {
                    Ok(Command::Seek(SeekTarget::Percentage(p as u8)))
                }
            },
        }
    } else if n > 0 && (tok[0] == '+' || tok[0] == '-') {
        if is_float_text(tok) {
            Ok(Command::Seek(SeekTarget::Relative(string_from_chars(tok))))
        } else {
            Err(message("Invalid seek offset"))
        }
    } else if is_float_text(tok) {
        Ok(Command::Seek(SeekTarget::Absolute(string_from_chars(tok))))
    } else {
        Err(message("Invalid seek time"))
    }
}

fn parse_buffer_id(tok: &Vec<char>) -> (r: Option<usize>)
    ensures
        match r {
            Some(id) => spec_parse_unsigned(tok@, usize::MAX as nat) == Some(id as nat),
            None => spec_parse_unsigned(tok@, usize::MAX as nat).is_none(),
        },
{
    match parse_unsigned(tok, usize::MAX as u64) {
        Some(v) => Some(v as usize),
        None => None,
    }
}

fn join_from(parts: &Vec<Vec<char>>, Ghost(ps): Ghost<Seq<Seq<char>>>, from: usize) -> (r: Vec<
    char,
>)
    requires
        ps.len() == parts@.len(),
        forall|k: int| 0 <= k < parts@.len() ==> #[trigger] parts@[k]@ == ps[k],
        from < ps.len(),
    ensures
        r@ == join_words(ps.subrange(from as int, ps.len() as int)),
{
    let n = parts.len();
    let mut out: Vec<char> = Vec::new();
    let mut k: usize = from;
    while k < n
        invariant
            from <= k <= n,
            n == ps.len(),
            ps.len() == parts@.len(),
            forall|j: int| 0 <= j < parts@.len() ==> #[trigger] parts@[j]@ == ps[j],
            out@ == join_words(ps.subrange(from as int, k as int)),
        decreases n - k,
    {
        let ghost prev = ps.subrange(from as int, k as int);
        let ghost next = ps.subrange(from as int, k + 1);
        assert(next.drop_last() == prev);
        assert(next.last() == parts@[k as int]@);
        if k > from {
            out.push(' ');
        }
        let w = &parts[k];
        let mut i: usize = 0;
        let ghost base = out@;
        while i < w.len()
            invariant
                0 <= i <= w@.len(),
                out@ == base + w@.subrange(0, i as int),
            decreases w@.len() - i,
        {
            out.push(w[i]);
            assert(w@.subrange(0, i + 1) == w@.subrange(0, i as int).push(w@[i as int]));
            i = i + 1;
        }
        assert(w@.subrange(0, w@.len() as int) == w@);
        proof {
            if k == from {
                assert(prev.len() == 0);
                assert(out@ == next[0]);
            }
        }
        k = k + 1;
    }
    out
}

fn dispatch(parts: &Vec<Vec<char>>, Ghost(ps): Ghost<Seq<Seq<char>>>) -> (r: Result<
    Command,
    String,
>)
    requires
        ps.len() == parts@.len(),
        ps.len() > 0,
        forall|k: int| 0 <= k < parts@.len() ==> #[trigger] parts@[k]@ == ps[k],
    ensures
        result_view(r) == spec_dispatch(ps),
{
    let c = &parts[0];
    assert(c@ == ps[0]);
    let has_arg = parts.len() >= 2;
    if chars_eq_str(c, "open") || chars_eq_str(c, "o") {
        if !has_arg {
            Ok(Command::OpenDialog)
        } else {
            let path = join_from(parts, Ghost(ps), 1);
            Ok(Command::Open(string_from_chars(&path)))
        }
    } else if chars_eq_str(c, "play") {
        Ok(Command::Play)
    } else if chars_eq_str(c, "pause") {
        Ok(Command::Pause)
    } else if chars_eq_str(c, "seek") || chars_eq_str(c, "s") {
        if !has_arg {
            Err(message("Usage: :seek <target> (e.g., :seek 10.5, :seek +5, :seek 50%)"))
        } else {
            assert(parts@[1]@ == ps[1]);
            parse_seek_target(&parts[1])
        }
    } else if chars_eq_str(c, "buffer") || chars_eq_str(c, "b") {
        if !has_arg {
            Err(message("Usage: :buffer <id> (e.g., :buffer 1)"))
        } else {
            assert(parts@[1]@ == ps[1]);
            match parse_buffer_id(&parts[1]) {
                None => Err(message("Invalid buffer ID")),
                Some(id) => Ok(Command::Buffer(id)),
            }
        }
    } else if chars_eq_str(c, "bnext") || chars_eq_str(c, "bn") {
        Ok(Command::BufferNext)
    } else if chars_eq_str(c, "bprev") || chars_eq_str(c, "bp") {
        Ok(Command::BufferPrev)
    } else if chars_eq_str(c, "buffers") || chars_eq_str(c, "ls") {
        Ok(Command::BufferList)
    } else if chars_eq_str(c, "bdelete") || chars_eq_str(c, "bd") {
        if !has_arg {
            Err(message("Usage: :bdelete <id> (e.g., :bdelete 1)"))
        } else {
            assert(parts@[1]@ == ps[1]);
            match parse_buffer_id(&parts[1]) {
                None => Err(message("Invalid buffer ID")),
                Some(id) => Ok(Command::BufferDelete(id)),
            }
        }
    } else if chars_eq_str(c, "quit") || chars_eq_str(c, "q") {
        Ok(Command::Quit)
    } else {
        let mut m = message("Unknown command: ");
        let w = string_from_chars(c);
        m.append(w.as_str());
        Err(m)
    }
}

/// Parse a vim-style command string
///
/// Examples:
/// - `:open /path/to/video.mp4`
/// - `:play`
/// - `:pause`
/// - `:seek 10.5` (absolute)
/// - `:seek +5` (relative forward)
/// - `:seek -5` (relative backward)
/// - `:seek 50%` (percentage)
/// - `:quit` or `:q`
pub fn parse_command(input: &str) -> (r: Result<Command, String>)
    ensures
        result_view(r) == spec_parse_command(input@),
{
    let v = chars_of(input);
    let (a, b) = trim_bounds(&v);
    let ghost t = v@.subrange(a as int, b as int);
    // Empty input
    if a == b {
        return Ok(Command::NoOp);
    }
    assert(t[0] == v@[a as int]);
    // Must start with ':'
    if v[a] != ':' {
        return Err(message("Commands must start with ':'"));
    }
    let parts = split_words(&v, a + 1, b);
    let ghost ps = words(v@.subrange(a + 1, b as int));
    assert(t.drop_first() == v@.subrange(a + 1, b as int));
    if parts.len() == 0 {
        return Ok(Command::NoOp);
    }
    dispatch(&parts, Ghost(ps))
}

/// A float's bits stand for a value below zero: the sign is set, the value is
/// not `-0.0`, and it is not a NaN.
pub open spec fn below_zero(bits: u64) -> bool {
    &&& bits > 0x8000_0000_0000_0000
    &&& bits - 0x8000_0000_0000_0000 <= 0x7FF0_0000_0000_0000
}

/// What `:seek` does with the number read from its argument (as the bits of
/// an `f64`, or `None` when the text is not a number).
pub open spec fn spec_resolve_seek_time(relative: bool, parsed: Option<u64>) -> Result<
    u64,
    Seq<char>,
> {
    match parsed {
        None => if relative {
            Err("Invalid seek offset"@)
        } else {
            Err("Invalid seek time"@)
        },
        Some(bits) => if !relative && below_zero(bits) {
            Err("Seek time cannot be negative"@)
        } else {
            Ok(bits)
        },
    }
}

/// Checks the number read from a `:seek` argument: an offset may be any
/// number, an absolute time may not be negative.
pub fn resolve_seek_time(relative: bool, parsed: Option<u64>) -> (r: Result<u64, String>)
    ensures
        match r {
            Ok(b) => spec_resolve_seek_time(relative, parsed) == Ok::<u64, Seq<char>>(b),
            Err(e) => spec_resolve_seek_time(relative, parsed) == Err::<u64, Seq<char>>(e@),
        },
{
    match parsed {
        None => {
            if relative {
                Err(message("Invalid seek offset"))
            } else {
                Err(message("Invalid seek time"))
            }
        },
        Some(bits) => {
            if !relative && bits > 0x8000_0000_0000_0000 && bits - 0x8000_0000_0000_0000
                <= 0x7FF0_0000_0000_0000 {
                Err(message("Seek time cannot be negative"))
            } else {
                Ok(bits)
            }
        },
    }
}

/// Each command word names its own command, whatever surrounds it: on any
/// line whose first word after the `:` is `bnext` or `bn` the parse is
/// `BufferNext`, on `bprev` or `bp` it is `BufferPrev`, and likewise for
/// `play`, `pause`, `buffers`/`ls`, `quit`/`q`, and `open`/`o` without a
/// path. Words after these commands are ignored.
pub proof fn lemma_command_words(line: Seq<char>)
    requires
        trim(line).len() > 0,
        trim(line)[0] == ':',
        words(trim(line).drop_first()).len() > 0,
    ensures
        ({
            let ps = words(trim(line).drop_first());
            let w = ps[0];
            let r = spec_parse_command(line);
            &&& (w == seq!['b', 'n', 'e', 'x', 't'] || w == seq!['b', 'n']) ==> r == Ok::<
                CommandView,
                Seq<char>,
            >(CommandView::BufferNext)
            &&& (w == seq!['b', 'p', 'r', 'e', 'v'] || w == seq!['b', 'p']) ==> r == Ok::<
                CommandView,
                Seq<char>,
            >(CommandView::BufferPrev)
            &&& w == seq!['p', 'l', 'a', 'y'] ==> r == Ok::<CommandView, Seq<char>>(
                CommandView::Play,
            )
            &&& w == seq!['p', 'a', 'u', 's', 'e'] ==> r == Ok::<CommandView, Seq<char>>(
                CommandView::Pause,
            )
            &&& (w == seq!['b', 'u', 'f', 'f', 'e', 'r', 's'] || w == seq!['l', 's']) ==> r
                == Ok::<CommandView, Seq<char>>(CommandView::BufferList)
            &&& (w == seq!['q', 'u', 'i', 't'] || w == seq!['q']) ==> r == Ok::<
                CommandView,
                Seq<char>,
            >(CommandView::Quit)
            &&& (w == seq!['o', 'p', 'e', 'n'] || w == seq!['o']) && ps.len() == 1 ==> r == Ok::<
                CommandView,
                Seq<char>,
            >(CommandView::OpenDialog)
        }),
{
    reveal_strlit("open");
    reveal_strlit("o");
    reveal_strlit("play");
    reveal_strlit("pause");
    reveal_strlit("seek");
    reveal_strlit("s");
    reveal_strlit("buffer");
    reveal_strlit("b");
    reveal_strlit("bnext");
    reveal_strlit("bn");
    reveal_strlit("bprev");
    reveal_strlit("bp");
    reveal_strlit("buffers");
    reveal_strlit("ls");
    reveal_strlit("bdelete");
    reveal_strlit("bd");
    reveal_strlit("quit");
    reveal_strlit("q");
    let ps = words(trim(line).drop_first());
    let w = ps[0];
    assert(spec_parse_command(line) == spec_dispatch(ps));
    let open1 = "open"@;
    let o = "o"@;
    let play = "play"@;
    let pause = "pause"@;
    let seek = "seek"@;
    let s1 = "s"@;
    let buffer = "buffer"@;
    let b = "b"@;
    let bnext = "bnext"@;
    let bn = "bn"@;
    let bprev = "bprev"@;
    let bp = "bp"@;
    let buffers = "buffers"@;
    let ls = "ls"@;
    let bdelete = "bdelete"@;
    let bd = "bd"@;
    if w == seq!['b', 'n', 'e', 'x', 't'] || w == seq!['b', 'n'] {
        assert(w != open1 && w != o && w != play && w != pause && w != seek && w != s1 && w
            != buffer && w != b) by {
            assert(w[0] == 'b');
            assert(open1[0] == 'o' && play[0] == 'p' && pause[0] == 'p' && seek[0] == 's');
            assert(w.len() != o.len() && w.len() != s1.len() && w.len() != b.len());
            assert(w.len() != buffer.len());
        }
        assert(w == bnext || w == bn);
    }
    if w == seq!['b', 'p', 'r', 'e', 'v'] || w == seq!['b', 'p'] {
        assert(w != open1 && w != o && w != play && w != pause && w != seek && w != s1 && w
            != buffer && w != b && w != bnext && w != bn) by {
            assert(w[0] == 'b' && w[1] == 'p');
            assert(open1[0] == 'o' && play[0] == 'p' && pause[0] == 'p' && seek[0] == 's');
            assert(bnext[1] == 'n' && bn[1] == 'n');
            assert(w.len() != o.len() && w.len() != s1.len() && w.len() != b.len());
            assert(w.len() != buffer.len());
        }
        assert(w == bprev || w == bp);
    }
    if w == seq!['p', 'l', 'a', 'y'] {
        assert(w != open1 && w != o) by {
            assert(w[0] == 'p' && open1[0] == 'o' && o.len() == 1);
        }
        assert(w == play);
    }
    if w == seq!['p', 'a', 'u', 's', 'e'] {
        assert(w != open1 && w != o && w != play) by {
            assert(w[0] == 'p' && open1[0] == 'o' && o.len() == 1 && play.len() == 4);
        }
        assert(w == pause);
    }
    if w == seq!['b', 'u', 'f', 'f', 'e', 'r', 's'] || w == seq!['l', 's'] {
        assert(w != open1 && w != o && w != play && w != pause && w != seek && w != s1 && w
            != buffer && w != b && w != bnext && w != bn && w != bprev && w != bp) by {
            assert(w.len() == 7 || w.len() == 2);
            assert(w.len() == 2 ==> w[0] == 'l');
            assert(w.len() == 7 ==> w[0] == 'b');
            assert(open1.len() == 4 && o.len() == 1 && play.len() == 4 && pause.len() == 5);
            assert(seek.len() == 4 && s1.len() == 1 && buffer.len() == 6 && b.len() == 1);
            assert(bnext.len() == 5 && bprev.len() == 5 && bn[0] == 'b' && bp[0] == 'b');
        }
        assert(w == buffers || w == ls);
    }
    if w == seq!['q', 'u', 'i', 't'] || w == seq!['q'] {
        assert(w != open1 && w != o && w != play && w != pause && w != seek && w != s1 && w
            != buffer && w != b && w != bnext && w != bn && w != bprev && w != bp && w != buffers
            && w != ls && w != bdelete && w != bd) by {
            assert(w[0] == 'q');
            assert(open1[0] == 'o' && o[0] == 'o' && play[0] == 'p' && pause[0] == 'p');
            assert(seek[0] == 's' && s1[0] == 's' && buffer[0] == 'b' && b[0] == 'b');
            assert(bnext[0] == 'b' && bn[0] == 'b' && bprev[0] == 'b' && bp[0] == 'b');
            assert(buffers[0] == 'b' && ls[0] == 'l' && bdelete[0] == 'b' && bd[0] == 'b');
        }
        assert(w == "quit"@ || w == "q"@);
    }
    if w == seq!['o', 'p', 'e', 'n'] || w == seq!['o'] {
        assert(w == open1 || w == o);
    }
}

/// The commands as typed on their own, `:` and the word: `:bnext` and `:bn`
/// go to the next buffer, `:bprev` and `:bp` to the previous one, and so on.
pub proof fn lemma_command_lines()
    ensures
        spec_parse_command(":bnext"@) == Ok::<CommandView, Seq<char>>(CommandView::BufferNext),
        spec_parse_command(":bn"@) == Ok::<CommandView, Seq<char>>(CommandView::BufferNext),
        spec_parse_command(":bprev"@) == Ok::<CommandView, Seq<char>>(CommandView::BufferPrev),
        spec_parse_command(":bp"@) == Ok::<CommandView, Seq<char>>(CommandView::BufferPrev),
        spec_parse_command(":play"@) == Ok::<CommandView, Seq<char>>(CommandView::Play),
        spec_parse_command(":pause"@) == Ok::<CommandView, Seq<char>>(CommandView::Pause),
        spec_parse_command(":buffers"@) == Ok::<CommandView, Seq<char>>(CommandView::BufferList),
        spec_parse_command(":ls"@) == Ok::<CommandView, Seq<char>>(CommandView::BufferList),
        spec_parse_command(":quit"@) == Ok::<CommandView, Seq<char>>(CommandView::Quit),
        spec_parse_command(":q"@) == Ok::<CommandView, Seq<char>>(CommandView::Quit),
        spec_parse_command(":open"@) == Ok::<CommandView, Seq<char>>(CommandView::OpenDialog),
{
    reveal_strlit(":bnext");
    assert(":bnext"@ =~= seq![':'] + seq!['b', 'n', 'e', 'x', 't']);
    one_word_line(":bnext"@, seq!['b', 'n', 'e', 'x', 't']);
    lemma_command_words(":bnext"@);
    reveal_strlit(":bn");
    assert(":bn"@ =~= seq![':'] + seq!['b', 'n']);
    one_word_line(":bn"@, seq!['b', 'n']);
    lemma_command_words(":bn"@);
    reveal_strlit(":bprev");
    assert(":bprev"@ =~= seq![':'] + seq!['b', 'p', 'r', 'e', 'v']);
    one_word_line(":bprev"@, seq!['b', 'p', 'r', 'e', 'v']);
    lemma_command_words(":bprev"@);
    reveal_strlit(":bp");
    assert(":bp"@ =~= seq![':'] + seq!['b', 'p']);
    one_word_line(":bp"@, seq!['b', 'p']);
    lemma_command_words(":bp"@);
    reveal_strlit(":play");
    assert(":play"@ =~= seq![':'] + seq!['p', 'l', 'a', 'y']);
    one_word_line(":play"@, seq!['p', 'l', 'a', 'y']);
    lemma_command_words(":play"@);
    reveal_strlit(":pause");
    assert(":pause"@ =~= seq![':'] + seq!['p', 'a', 'u', 's', 'e']);
    one_word_line(":pause"@, seq!['p', 'a', 'u', 's', 'e']);
    lemma_command_words(":pause"@);
    reveal_strlit(":buffers");
    assert(":buffers"@ =~= seq![':'] + seq!['b', 'u', 'f', 'f', 'e', 'r', 's']);
    one_word_line(":buffers"@, seq!['b', 'u', 'f', 'f', 'e', 'r', 's']);
    lemma_command_words(":buffers"@);
    reveal_strlit(":ls");
    assert(":ls"@ =~= seq![':'] + seq!['l', 's']);
    one_word_line(":ls"@, seq!['l', 's']);
    lemma_command_words(":ls"@);
    reveal_strlit(":quit");
    assert(":quit"@ =~= seq![':'] + seq!['q', 'u', 'i', 't']);
    one_word_line(":quit"@, seq!['q', 'u', 'i', 't']);
    lemma_command_words(":quit"@);
    reveal_strlit(":q");
    assert(":q"@ =~= seq![':'] + seq!['q']);
    one_word_line(":q"@, seq!['q']);
    lemma_command_words(":q"@);
    reveal_strlit(":open");
    assert(":open"@ =~= seq![':'] + seq!['o', 'p', 'e', 'n']);
    one_word_line(":open"@, seq!['o', 'p', 'e', 'n']);
    lemma_command_words(":open"@);
}

/// A line that is `:` and one ASCII-letter word parses by that word.
proof fn one_word_line(line: Seq<char>, w: Seq<char>)
    requires
        line == seq![':'] + w,
        w.len() > 0,
        forall|k: int| 0 <= k < w.len() ==> 'a' <= #[trigger] w[k] <= 'z',
    ensures
        trim(line) == line,
        words(trim(line).drop_first()) == seq![w],
        line.drop_first() == w,
{
    assert forall|k: int| 0 <= k < w.len() implies !is_ws(#[trigger] w[k]) by {
        assert('a' <= w[k] <= 'z');
    }
    assert(line.last() == w.last());
    assert(!is_ws(w.last()));
    lemma_trim_unchanged(line);
    assert(line.drop_first() =~= w);
    lemma_one_word(w);
}

/// Buffer ids as the editor writes them, in decimal, read back as the same
/// ids: `:b <id>` selects and `:bd <id>` closes exactly the buffer named.
pub proof fn lemma_buffer_id_round_trip(id: usize)
    ensures
        spec_parse_command(":b "@ + decimal(id as nat)) == Ok::<CommandView, Seq<char>>(
            CommandView::Buffer(id),
        ),
        spec_parse_command(":bd "@ + decimal(id as nat)) == Ok::<CommandView, Seq<char>>(
            CommandView::BufferDelete(id),
        ),
{
    reveal_strlit(":b ");
    reveal_strlit(":bd ");
    reveal_strlit("open");
    reveal_strlit("o");
    reveal_strlit("play");
    reveal_strlit("pause");
    reveal_strlit("seek");
    reveal_strlit("s");
    reveal_strlit("buffer");
    reveal_strlit("b");
    reveal_strlit("bnext");
    reveal_strlit("bn");
    reveal_strlit("bprev");
    reveal_strlit("bp");
    reveal_strlit("buffers");
    reveal_strlit("ls");
    reveal_strlit("bdelete");
    reveal_strlit("bd");
    let d = decimal(id as nat);
    lemma_decimal_reads_back(id as nat);
    assert forall|k: int| 0 <= k < d.len() implies !is_ws(#[trigger] d[k]) by {
        assert('0' <= d[k] <= '9');
    }
    assert(unsigned_digits(d) == d);
    assert(spec_parse_unsigned(d, usize::MAX as nat) == Some(id as nat));
    let wb = seq!['b'];
    let wbd = seq!['b', 'd'];
    assert forall|k: int| 0 <= k < wbd.len() implies !is_ws(#[trigger] wbd[k]) by {}
    lemma_two_words(wb, d);
    lemma_two_words(wbd, d);
    let lb = ":b "@ + d;
    let lbd = ":bd "@ + d;
    assert(lb =~= seq![':'] + (wb + seq![' '] + d));
    assert(lbd =~= seq![':'] + (wbd + seq![' '] + d));
    assert(lb.last() == d.last());
    assert(lbd.last() == d.last());
    lemma_trim_unchanged(lb);
    lemma_trim_unchanged(lbd);
    assert(lb.drop_first() =~= wb + seq![' '] + d);
    assert(lbd.drop_first() =~= wbd + seq![' '] + d);
    assert(seq![wb, d][0] == wb);
    assert(seq![wbd, d][0] == wbd);
    assert(seq![wb, d][1] == d);
    assert(seq![wbd, d][1] == d);
    assert(wb.len() == 1 && wbd.len() == 2);
    assert(wb != "open"@ && wb != "o"@ && wb != "play"@ && wb != "pause"@ && wb != "seek"@
        && wb != "s"@);
    assert(wb == "b"@);
    assert(wbd != "open"@ && wbd != "o"@ && wbd != "play"@ && wbd != "pause"@ && wbd
        != "seek"@ && wbd != "s"@ && wbd != "buffer"@ && wbd != "b"@ && wbd != "bnext"@ && wbd
        != "bn"@ && wbd != "bprev"@ && wbd != "bp"@ && wbd != "buffers"@ && wbd != "ls"@);
    assert(wbd == "bd"@);
    assert(spec_dispatch(seq![wb, d]) == Ok::<CommandView, Seq<char>>(CommandView::Buffer(id)));
    assert(spec_dispatch(seq![wbd, d]) == Ok::<CommandView, Seq<char>>(
        CommandView::BufferDelete(id),
    ));
    assert(trim(lb)[0] == ':');
    assert(trim(lbd)[0] == ':');
}

} // verus!
