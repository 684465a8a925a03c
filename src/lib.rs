//! Command-line tokenizing, line editing and terminal input decoding for an
//! interactive shell.
//!
//! Positions inside the library, such as the cursor of a line, count
//! characters, so a position always lies on a character boundary. The
//! offsets that the tokenizers and the command parser report count bytes,
//! as indices into a `str` do.

mod args;
mod buffer;
mod chars;
mod command;
mod common;
mod context;
mod edit;
mod exes;
mod history;
pub mod input;
mod laws;
mod lexer;
mod line;
mod quote;
mod scan;
mod summary;
mod text;
mod theme;
mod token;
mod value;
mod vars;

pub use args::{tokenize, Arg, Args};
pub use buffer::{space_right_pos, Buffer};
pub use chars::Chars;
pub use command::{tokenize_vars, var_items, command_args, command_offset, command_program, command_values, command_vars, kept_var, parse_command, scan_vars, values_of, Command, CommandError};
pub use context::{action_for, action_of, pos_down, pos_up, shows_history, suggestion, suggestion_of, Action, ActionModel, Context, Prompt};
pub use edit::{backspaced, deleted, first_boundary, last_boundary, last_lexeme, next_word_pos, prev_word_pos, put, typed, typed_all, Edit};
pub use exes::{bytes_lt, can_execute, encoded_names, first_summary, prefix_listing, strictly_sorted, summaries, summarize, summary_of, Exes};
pub use history::History;
pub use input::{decoded, decoded_byte, input_opt_view, lossy_text, mods_of, tag_name, tag_of, Input, InputModel, Modifiers, Tag};
pub use laws::{is_var_error, joined_sources, joined_texts, joined_var_sources, lemma_vars_reproduce_prefix, var_source, lemma_quote_steps_over, lemma_space_never_doubled, lemma_tokens_reproduce_input, lemma_typing_keeps_single_spaces, lemma_unknown_sequences, no_double_space, quote_free};
pub use lexer::{closer, ident_cont, ident_start, lex_step, lexme_display, lexme_opt_view, run_end, Lexer, Lexme, LexmeModel};
pub use line::{decimal, Line};
pub use quote::{is_quote_char, quote_char, quote_of, Quote};
pub use scan::{lexeme_at, lexeme_end, lexemes, lexemes_from};
pub use summary::{Summary, SummaryModel};
pub use text::{char_width, chars_of, is_space, is_whitespace, len_utf8, utf8_len};
pub use theme::{color_code, color_index, index_digits, sgr, Color, Style};
pub use token::Token;
pub use value::{lexeme_quote, lexeme_source, lexeme_text, Lexeme, Value};
pub use vars::{var_opt_view, var_step, Var, VarModel, Vars};
