//! Vim-style command line: parsing `:open`, `:seek`, `:buffer`, ... commands.

pub mod text;
pub mod float_text;

mod parser;

pub mod executor;

pub use parser::{
    below_zero, lemma_buffer_id_round_trip, parse_command, resolve_seek_time, spec_dispatch,
    spec_parse_command,
    spec_resolve_seek_time, spec_seek_target, Command, CommandView, SeekTarget, SeekView,
};
