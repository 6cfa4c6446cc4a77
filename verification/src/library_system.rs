//! A lending library: books, members, the loans between them, and the
//! library that holds all three.
pub mod books;
pub mod members;
pub mod loans;
pub mod library;
