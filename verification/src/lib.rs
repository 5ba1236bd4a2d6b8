//! Editing core of a terminal text editor.
//!
//! A document is a rope of characters. Cursors move over it by line and
//! column, several cursors can edit it in one stroke, a window follows the
//! primary cursor, and a renderer says what has to be written to the terminal
//! to show the window.
//!
//! - [`lines`]: the line structure of a text, as a function of its characters.
//! - [`rope`]: the contracts that the rope is trusted to meet.
//! - [`buffer`]: line-indexed reading of the document.
//! - [`cursor`]: a cursor and its movements; [`motion`]: the laws of movement.
//! - [`edits`]: what an edit does to text and cursors; [`retype`]: the law of
//!   typing and taking back.
//! - [`input`]: keys and mouse events.
//! - [`editor`]: the editor, which owns the document and the cursors.
//! - [`term`]: the escape sequences that the terminal is trusted to get.
//! - [`draw`]: a row of the screen; [`render`]: the window and the frame.

pub mod lines;
pub mod rope;
pub mod buffer;
pub mod cursor;
pub mod motion;
pub mod edits;
pub mod retype;
pub mod input;
pub mod editor;
pub mod term;
pub mod draw;
pub mod render;
