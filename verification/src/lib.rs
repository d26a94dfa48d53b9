//! A vim-like modal text editor core: documents made of rows, an undo stack,
//! cursor motions, key decoding and key-binding lookup, and a glyph bitmap
//! renderer. Every item here carries a contract that Verus checks.

pub mod types;
pub mod classify;
pub mod row;
pub mod undo;
pub mod doc;
pub mod word_laws;
pub mod text;
pub mod error;
pub mod noun;
pub mod rel;
pub mod mode;
pub mod key;
pub mod view;
pub mod keygen;
pub mod target;
pub mod variant;
pub mod status;
pub mod message;
pub mod dk;
pub mod command;
pub mod sel;
pub mod textobj;
pub mod read;
pub mod bindings;
pub mod trie;
pub mod color;
pub mod format;
pub mod buf;
pub mod glyph;
pub mod bitmap;
pub mod plugin;
pub mod docview;
pub mod view_laws;
pub mod consts;
pub mod commandline;
pub mod vstack;
pub mod editor;
pub mod view_map;
pub mod layout;
pub mod pump;
pub mod screen;
pub mod line;
pub mod raster;
pub mod trigger;
pub mod settings;
