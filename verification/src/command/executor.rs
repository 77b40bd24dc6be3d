//! What running a command on the buffers asks for, and the replies that
//! carry only buffer ids and names.

use vstd::prelude::*;
use vstd::string::StringExecFns;

use super::parser::{Command, SeekTarget};
use super::text::{decimal, decimal_chars, string_from_chars};
use crate::buffer_manager::BufferId;

verus! {

/// The step a command takes.
pub enum CommandPlan {
    /// Reply at once with this outcome.
    Reply(Result<String, String>),
    /// Open the file at this path as a new buffer.
    OpenFile(String),
    /// Play the active buffer.
    PlayActive,
    /// Pause the active buffer.
    PauseActive,
    /// Seek the active buffer.
    SeekActive(SeekTarget),
    /// Switch to the buffer with this id.
    SwitchTo(BufferId),
    /// Switch to the next buffer.
    NextBuffer,
    /// Switch to the previous buffer.
    PrevBuffer,
    /// List the buffers.
    ListBuffers,
    /// Close the buffer with this id.
    DeleteBuffer(BufferId),
}

/// An outcome as plain values.
pub open spec fn outcome_view(r: Result<String, String>) -> Result<Seq<char>, Seq<char>> {
    match r {
        Ok(m) => Ok(m@),
        Err(e) => Err(e@),
    }
}

fn reply_ok(lit: &str) -> (r: CommandPlan)
    ensures
        r matches CommandPlan::Reply(o) && outcome_view(o) == Ok::<Seq<char>, Seq<char>>(lit@),
{
    CommandPlan::Reply(Ok(String::from_str(lit)))
}

fn reply_err(lit: &str) -> (r: CommandPlan)
    ensures
        r matches CommandPlan::Reply(o) && outcome_view(o) == Err::<Seq<char>, Seq<char>>(lit@),
{
    CommandPlan::Reply(Err(String::from_str(lit)))
}

/// What a command asks for, when `has_active` says whether a buffer is
/// active. The file dialog and quitting are the editor's business: their
/// commands only get a reply, as does the empty command. Playing, pausing
/// and seeking need an active buffer.
pub fn plan_command(cmd: Command, has_active: bool) -> (r: CommandPlan)
    ensures
        match cmd {
            Command::Open(p) => r matches CommandPlan::OpenFile(q) && q@ == p@,
            Command::OpenDialog => r matches CommandPlan::Reply(o) && outcome_view(o) == Ok::<
                Seq<char>,
                Seq<char>,
            >("Opening file dialog..."@),
            Command::Play => if has_active {
                r is PlayActive
            } else {
                r matches CommandPlan::Reply(o) && outcome_view(o) == Err::<Seq<char>, Seq<char>>(
                    "No buffer open. Use :open <file> first"@,
                )
            },
            Command::Pause => if has_active {
                r is PauseActive
            } else {
                r matches CommandPlan::Reply(o) && outcome_view(o) == Err::<Seq<char>, Seq<char>>(
                    "No buffer open"@,
                )
            },
            Command::Seek(t) => if has_active {
                r matches CommandPlan::SeekActive(u) && u@ == t@
            } else {
                r matches CommandPlan::Reply(o) && outcome_view(o) == Err::<Seq<char>, Seq<char>>(
                    "No buffer open"@,
                )
            },
            Command::Buffer(id) => r == CommandPlan::SwitchTo(id),
            Command::BufferNext => r is NextBuffer,
            Command::BufferPrev => r is PrevBuffer,
            Command::BufferList => r is ListBuffers,
            Command::BufferDelete(id) => r == CommandPlan::DeleteBuffer(id),
            Command::Quit => r matches CommandPlan::Reply(o) && outcome_view(o) == Ok::<
                Seq<char>,
                Seq<char>,
            >("Quit command received"@),
            Command::NoOp => r matches CommandPlan::Reply(o) && outcome_view(o) == Ok::<
                Seq<char>,
                Seq<char>,
            >(Seq::empty()),
        },
{
    match cmd {
        Command::Open(path) => CommandPlan::OpenFile(path),
        Command::OpenDialog => reply_ok("Opening file dialog..."),
        Command::Play => if has_active {
            CommandPlan::PlayActive
        } else {
            reply_err("No buffer open. Use :open <file> first")
        },
        Command::Pause => if has_active {
            CommandPlan::PauseActive
        } else {
            reply_err("No buffer open")
        },
        Command::Seek(target) => if has_active {
            CommandPlan::SeekActive(target)
        } else {
            reply_err("No buffer open")
        },
        Command::Buffer(id) => CommandPlan::SwitchTo(id),
        Command::BufferNext => CommandPlan::NextBuffer,
        Command::BufferPrev => CommandPlan::PrevBuffer,
        Command::BufferList => CommandPlan::ListBuffers,
        Command::BufferDelete(id) => CommandPlan::DeleteBuffer(id),
        Command::Quit => reply_ok("Quit command received"),
        Command::NoOp => CommandPlan::Reply(Ok(String::new())),
    }
}

/// `prefix`, the id in decimal, and `suffix`.
pub open spec fn id_message(prefix: Seq<char>, id: BufferId, suffix: Seq<char>) -> Seq<char> {
    prefix + decimal(id as nat) + suffix
}

/// `prefix`, the id in decimal, and `suffix`.
pub fn buffer_message(prefix: &str, id: BufferId, suffix: &str) -> (r: String)
    ensures
        r@ == id_message(prefix@, id, suffix@),
{
    let mut m = String::from_str(prefix);
    let digits = string_from_chars(&decimal_chars(id));
    m.append(digits.as_str());
    m.append(suffix);
    m
}

/// One line of the buffer list: a star for the active buffer, the id, the
/// file name and the playback state.
pub open spec fn list_line(id: BufferId, name: Seq<char>, state: Seq<char>, active: bool) -> Seq<
    char,
> {
    (if active {
        " *"@
    } else {
        "  "@
    }) + decimal(id as nat) + "  "@ + name + "  ["@ + state + "]\n"@
}

/// The lines of `entries` from the first `n`, one after another.
pub open spec fn list_lines(entries: Seq<(BufferId, Seq<char>, Seq<char>, bool)>, n: nat) -> Seq<
    char,
>
    decreases n,
{
    if n == 0 || n > entries.len() {
        Seq::empty()
    } else {
        let e = entries[n - 1];
        list_lines(entries, (n - 1) as nat) + list_line(e.0, e.1, e.2, e.3)
    }
}

/// Buffer entries as plain values.
pub open spec fn entries_view(entries: Seq<(BufferId, String, String, bool)>) -> Seq<
    (BufferId, Seq<char>, Seq<char>, bool),
> {
    entries.map_values(|e: (BufferId, String, String, bool)| (e.0, e.1@, e.2@, e.3))
}

/// The reply to `:buffers`: each buffer's id, file name, state and whether
/// it is the active one, under a heading; a short note when there are none.
pub fn format_buffer_list(entries: &Vec<(BufferId, String, String, bool)>) -> (r: String)
    ensures
        entries@.len() == 0 ==> r@ == "No buffers open"@,
        entries@.len() > 0 ==> r@ == "Buffers:\n"@ + list_lines(
            entries_view(entries@),
            entries@.len(),
        ),
{
    if entries.len() == 0 {
        return String::from_str("No buffers open");
    }
    let ghost ev = entries_view(entries@);
    let mut out = String::from_str("Buffers:\n");
    let mut i: usize = 0;
    while i < entries.len()
        invariant
            i <= entries@.len(),
            ev == entries_view(entries@),
            out@ == "Buffers:\n"@ + list_lines(ev, i as nat),
        decreases entries@.len() - i,
    {
        let e = &entries[i];
        assert(ev[i as int] == (e.0, e.1@, e.2@, e.3));
        if e.3 {
            out.append(" *");
        } else {
            out.append("  ");
        }
        let digits = string_from_chars(&decimal_chars(e.0));
        out.append(digits.as_str());
        out.append("  ");
        out.append(e.1.as_str());
        out.append("  [");
        out.append(e.2.as_str());
        out.append("]\n");
        assert(list_lines(ev, (i + 1) as nat) == list_lines(ev, i as nat) + list_line(
            e.0,
            e.1@,
            e.2@,
            e.3,
        ));
        i = i + 1;
    }
    out
}

} // verus!
