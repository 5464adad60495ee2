//! Sorts audio files into `Artist - Album` folders by their tags.
//!
//! The library plans the moves and says how each is carried out; it moves
//! nothing itself. A caller scans a folder, reads the tags of each file and
//! hands them over:
//!
//! - [`sanitize`] makes a name safe for every common file system.
//! - [`planner`] says where a file goes: into the folder of its artist and
//!   album, named by track number and title, or into `_Unsorted`.
//! - [`resolver`] gives every move of a batch a destination of its own.
//! - [`mover`] carries out one move step by step: a rename, and a checked
//!   copy only across file systems.
//!
//! Paths are text with `/` between the components; [`path`] says what their
//! parts are. [`scan`] tells which files are audio files, [`summary`] counts
//! a batch, and [`install`] puts the sorter into the menus of the file
//! managers. The modules whose names end in `_laws` hold what is proved of
//! all this.

pub mod install;
pub mod mover;
pub mod path;
pub mod path_laws;
pub mod planner;
pub mod planner_laws;
pub mod resolver;
pub mod resolver_laws;
pub mod sanitize;
pub mod sanitize_laws;
pub mod scan;
pub mod summary;
pub mod text;
