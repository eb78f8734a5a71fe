//! A verified text-counting library: byte, line, word, and character counts
//! over a string, together with argument parsing and output rendering for a
//! small command-line counting tool.

pub mod config;
pub mod counts;
pub mod model;
pub mod render;

pub use config::Config;
pub use config::CountType;
pub use counts::count_bytes;
pub use counts::count_characters;
pub use counts::count_lines;
pub use counts::count_words;
pub use render::format_result;
pub use render::render_output;
