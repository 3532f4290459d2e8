//! The logic of a wrapper that keeps vestige memory stores of several machines
//! in step through a shared sync directory: export formats and file names,
//! filename templates, the export cycle, the choice of files to import, and
//! the child process's arguments and exit code.  Paths are text, read as
//! Unix paths.


pub mod text;
pub mod path;
pub mod order;
pub mod cli;
pub mod template;
pub mod export;
pub mod import;
pub mod proxy;

