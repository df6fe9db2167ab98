//! A dice-rolling library: parsing of textual dice expressions such as
//! `2d6+1`, random evaluation of the parsed dice, and rendering of the
//! results as text lines, with optional coloring, summation and
//! success/failure counting.

pub mod dice;
pub mod digits;
pub mod error;
pub mod eval;
pub mod parser;
pub mod render;
pub mod roll;

pub use dice::Args;
pub use dice::Config;
pub use dice::DiceSet;
pub use dice::Die;
pub use dice::Profile;
pub use error::DiceError;
pub use error::ErrKind;
pub use eval::eval_counts;
pub use eval::eval_sum;
pub use parser::parse;
pub use parser::parse_die;
pub use parser::validate;
pub use render::die_format;
pub use render::displayed_value;
pub use render::header_line;
pub use render::render_rolls;
pub use render::reroll_notice;
pub use roll::reroll_happens;
pub use roll::roll_die;
pub use roll::roll_pool;
pub use roll::RollReport;
