//! A motion engine for modal text editing.
//!
//! Given a cursor in a text, a motion (to the next word, to the matching
//! bracket, to a character on the line, ...) and a count, the engine says
//! where the cursor lands, and what an operator that follows the motion is
//! to act on: whole lines or characters, with or without the character
//! under the landing place. Nothing here changes a text.
//!
//! A text is held as a [`display::DisplaySnapshot`]: its characters, cut
//! into lines, together with the rows that the lines are shown in once long
//! lines are wrapped. The rows are made by wrapping at a width, or given as
//! a display has laid them out. Positions are counted in characters. A
//! position in the text is a [`buffer::Point`] or an offset; a position on
//! the display is a [`display::DisplayPoint`]. What only a syntax layer
//! knows about a text (which brackets pair up, where functions and comments
//! lie, which excerpts a text is composed of) is handed to the snapshot as
//! plain lists.
//!
//! [`motion::Motion`] names the motions. `Motion::move_point` applies one
//! to a cursor, and `Motion::range` gives the text acted on. The modules
//! whose names end in `laws` state, and prove, what holds of the motions
//! whatever the text.

pub mod actions;
pub mod bracket;
pub mod bracket_laws;
pub mod buffer;
pub mod chars;
pub mod display;
pub mod document;
pub mod find;
pub mod find_laws;
pub mod horizontal;
pub mod landing_laws;
pub mod laws;
pub mod line;
pub mod memory;
pub mod motion;
pub mod movement;
pub mod paragraph_laws;
pub mod range;
pub mod range_laws;
pub mod repeat;
pub mod repeat_laws;
pub mod scan;
pub mod selection;
pub mod sentence;
pub mod session;
pub mod sneak_laws;
pub mod structure;
pub mod structure_laws;
pub mod syntax;
pub mod vertical;
pub mod window;
pub mod word;
