//! Books.
use vstd::prelude::*;

verus! {

/// A book.  Its ISBN cannot be changed once the book exists.
#[derive(Debug, Clone)]
pub struct Book {
    pub title: String,
    pub author: String,
    isbn: String,
    pub available: bool,
}

/// What a `Book` says.
pub struct BookModel {
    pub title: Seq<char>,
    pub author: Seq<char>,
    pub isbn: Seq<char>,
    pub available: bool,
}

impl View for Book {
    type V = BookModel;

    closed spec fn view(&self) -> BookModel {
        BookModel { title: self.title@, author: self.author@, isbn: self.isbn@, available: self.available }
    }
}

impl Book {
    /// A book that is available for loan.
    pub fn new(title: String, author: String, isbn: String) -> (book: Book)
        ensures
            book@ == (BookModel { title: title@, author: author@, isbn: isbn@, available: true }),
    {
        Book { title, author, isbn, available: true }
    }

    /// The book's ISBN.
    pub fn isbn(&self) -> (isbn: &str)
        ensures
            isbn@ == self@.isbn,
    {
        self.isbn.as_str()
    }

    /// Whether the book is available for loan.
    pub fn is_available(&self) -> (available: bool)
        ensures
            available == self@.available,
    {
        self.available
    }

    /// Records that the book is out on loan.
    pub(crate) fn mark_unavailable(&mut self)
        ensures
            final(self)@ == (BookModel { available: false, ..old(self)@ }),
    {
        self.available = false;
    }

    /// Records that the book is back.
    pub(crate) fn mark_available(&mut self)
        ensures
            final(self)@ == (BookModel { available: true, ..old(self)@ }),
    {
        self.available = true;
    }
}

} // verus!
