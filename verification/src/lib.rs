//! A verified reader for Value Change Dump (VCD) waveform traces.
//!
//! The library turns the text of a VCD file into structured data: the
//! header metadata (date, version, timescale), a flat table of the declared
//! variables, and — on request — the last known value of every signal
//! together with the final simulation time.
//!
//! The pipeline has five stages, each in a module of its own:
//! a lexer that splits the input into tokens ([`lex`]), a header builder
//! that assembles the scope tree ([`header`]), a flattener that turns the
//! tree into a variable table ([`flatten`]), an event processor that folds
//! the value-change stream into a value table ([`events`]), and a result
//! assembler that packs everything into one record ([`record`]). The
//! shared data model lives in [`model`], and the decimal-token parser
//! that widths and timestamps use lives in [`digits`].
//!
//! Every stage is specified by a spec-level function on the view of its
//! input, and the executable code is proved to return exactly that
//! function's result, so the whole parse is deterministic by contract.

pub mod digits;
pub mod flatten;
pub mod events;
pub mod header;
pub mod lex;
pub mod model;
pub mod record;
