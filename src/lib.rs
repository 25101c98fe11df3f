//! Backs up Steam screenshots into a destination tree organised by game name.
//!
//! The library holds the decisions of a backup run: the sanitising of game
//! names into directory names, the freshness policy of the cached app
//! catalog, the reading of that catalog into an id-to-name table, the
//! recognition of screenshot folders, and the choice of the files that a pass
//! still has to copy. Reading and writing files, the network and the terminal
//! are left to the program around it.

mod text;
pub mod sanitize;
pub mod cache;
pub mod catalog;
pub mod table;
pub mod locate;
pub mod copy;
