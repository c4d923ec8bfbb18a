pub mod path;
pub mod search;
pub mod search_laws;
pub mod pty;
pub mod terminal;
pub mod pump;
pub mod drives;
