//! Book records from comic-book archives and PDF documents: which kind of
//! container a file is, how many pages it has, and the title, authors and
//! keywords that it names. Reading files is left to the caller, who hands
//! over what was read.

pub mod archives;
pub mod laws;
pub mod text;
pub mod utils;
