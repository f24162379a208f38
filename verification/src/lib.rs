//! Filtering of four-letter terminal codes by a pattern with `-` wildcards,
//! the loading of the code list from text, the reading of the command-line
//! prompt, and the state of the filter window.

pub mod hotkey;
pub mod load;
pub mod pattern;
pub mod prompt;
pub mod text;
pub mod window;

pub use hotkey::HotkeyOption;
pub use load::{clean_line, keep_nonempty_words, load_words_from_str, loaded_words, lowercase, string_views, kept_lines, stripped_line, word_list, ascii_lowercase, ascii_word_list, join_lines, LoadError};
pub use pattern::{is_wildcard, match_pattern, matching_words, word_matches};
pub use prompt::{classify_prompt_pattern, prompt_pattern, read_prompt_input, PromptInput};
pub use text::{
    is_byte_order_mark, is_white_space, strip_byte_order_marks, strip_carriage_return,
    text_lines, trim,
};
pub use window::{CodeFilterApp, FilterStatus, FilterView, HotkeyPlan, WindowCommand};
