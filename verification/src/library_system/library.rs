//! The library: its books, its members and its loans.
use vstd::prelude::*;
use crate::library_system::books::{Book, BookModel};
use crate::library_system::loans::{with_loan, Loan, LoanManager, LoanModel};
use crate::library_system::members::{Member, MemberModel};
use crate::lookup::{lemma_position_found, lemma_position_missing, position};
use crate::text::str_eq;

verus! {

/// A library.
pub struct Library {
    pub books: Vec<Book>,
    pub members: Vec<Member>,
    pub loan_manager: LoanManager,
}

/// What a `Library` holds.
#[verifier::ext_equal]
pub struct LibraryModel {
    pub books: Seq<BookModel>,
    pub members: Seq<MemberModel>,
    pub loans: Seq<LoanModel>,
}

impl View for Library {
    type V = LibraryModel;

    open spec fn view(&self) -> LibraryModel {
        LibraryModel {
            books: self.books@.map_values(|b: Book| b@),
            members: self.members@.map_values(|m: Member| m@),
            loans: self.loan_manager@,
        }
    }
}

/// The ISBNs of a list of books.
pub open spec fn book_isbns(books: Seq<BookModel>) -> Seq<Seq<char>> {
    books.map_values(|b: BookModel| b.isbn)
}

/// The place of the first member with the number `id`, if there is one.
pub open spec fn member_at(members: Seq<MemberModel>, id: u32, at: int) -> bool {
    &&& 0 <= at < members.len()
    &&& members[at].id == id
    &&& forall|j: int| 0 <= j < at ==> members[j].id != id
}

/// Whether some member has the number `id` and is active.
pub open spec fn has_active_member(members: Seq<MemberModel>, id: u32) -> bool {
    exists|at: int| 0 <= at < members.len() && members[at].id == id && members[at].active
}

/// What lending the book `isbn` to the member `member_id` does: it is
/// refused where no active member has that number, where the library has
/// no such book, and where the book is out; otherwise the loan is recorded
/// and the first book with that ISBN is marked as out.
pub open spec fn lend(library: LibraryModel, isbn: Seq<char>, member_id: u32, due_date: Seq<char>) -> Result<
    LibraryModel,
    Seq<char>,
> {
    if !has_active_member(library.members, member_id) {
        Err("Member not found or inactive"@)
    } else {
        match position(book_isbns(library.books), isbn) {
            None => Err("Book not found"@),
            Some(at) => if !library.books[at].available {
                Err("Book is not available"@)
            } else {
                Ok(
                    LibraryModel {
                        books: library.books.update(
                            at,
                            BookModel { available: false, ..library.books[at] },
                        ),
                        loans: with_loan(
                            library.loans,
                            LoanModel { member_id, book_isbn: isbn, due_date },
                        ),
                        ..library
                    },
                )
            },
        }
    }
}

impl Library {
    /// A library without books, members or loans.
    pub fn new() -> (library: Library)
        ensures
            library.loan_manager.wf(),
            library@ == (LibraryModel {
                books: Seq::empty(),
                members: Seq::empty(),
                loans: Seq::empty(),
            }),
    {
        let library = Library { books: Vec::new(), members: Vec::new(), loan_manager: LoanManager::new() };
        assert(library@ =~= (LibraryModel {
            books: Seq::empty(),
            members: Seq::empty(),
            loans: Seq::empty(),
        }));
        library
    }

    /// Adds a book.
    pub fn add_book(&mut self, book: Book)
        ensures
            final(self)@ == (LibraryModel { books: old(self)@.books.push(book@), ..old(self)@ }),
    {
        self.books.push(book);
        assert(self@ =~= (LibraryModel { books: old(self)@.books.push(book@), ..old(self)@ }));
    }

    /// Adds a member.
    pub fn add_member(&mut self, member: Member)
        ensures
            final(self)@ == (LibraryModel { members: old(self)@.members.push(member@), ..old(self)@ }),
    {
        self.members.push(member);
        assert(self@ =~= (LibraryModel { members: old(self)@.members.push(member@), ..old(self)@ }));
    }

    /// The place of the first book with the ISBN `isbn`.
    fn find_book(&self, isbn: &str) -> (found: Option<usize>)
        ensures
            match found {
                Some(at) => position(book_isbns(self@.books), isbn@) == Some(at as int) && at
                    < self.books.len(),
                None => position(book_isbns(self@.books), isbn@) is None,
            },
    {
        let ghost names = book_isbns(self@.books);
        let mut i: usize = 0;
        while i < self.books.len()
            invariant
                i <= self.books.len(),
                names == book_isbns(self@.books),
                names.len() == self.books.len(),
                forall|j: int| 0 <= j < i ==> names[j] != isbn@,
            decreases self.books.len() - i,
        {
            if str_eq(self.books[i].isbn(), isbn) {
                proof {
                    assert(names[i as int] == isbn@);
                    lemma_position_found(names, isbn@, i as int);
                }
                return Some(i);
            }
            i = i + 1;
        }
        proof {
            lemma_position_missing(names, isbn@);
        }
        None
    }

    /// The first book with the ISBN `isbn`, to be changed in place.
    pub fn find_book_mut(&mut self, isbn: &str) -> (found: Option<&mut Book>)
        ensures
            match position(book_isbns(old(self)@.books), isbn@) {
                Some(at) => {
                    &&& found matches Some(book)
                    &&& book@ == old(self)@.books[at]
                    &&& final(self)@ == (LibraryModel {
                        books: old(self)@.books.update(at, final(book)@),
                        ..old(self)@
                    })
                },
                None => found is None && final(self)@ == old(self)@,
            },
    {
        match self.find_book(isbn) {
            Some(at) => Some(&mut self.books[at]),
            None => None,
        }
    }

    /// The first member with the number `id`.
    pub fn find_member(&self, id: u32) -> (found: Option<&Member>)
        ensures
            match found {
                Some(member) => exists|at: int| member_at(self@.members, id, at) && member@
                    == self@.members[at],
                None => forall|at: int| 0 <= at < self@.members.len() ==> self@.members[at].id != id,
            },
    {
        let mut i: usize = 0;
        while i < self.members.len()
            invariant
                i <= self.members.len(),
                forall|j: int| 0 <= j < i ==> self@.members[j].id != id,
            decreases self.members.len() - i,
        {
            if self.members[i].id() == id {
                assert(member_at(self@.members, id, i as int));
                return Some(&self.members[i]);
            }
            i = i + 1;
        }
        None
    }

    /// Whether some member has the number `id` and is active.
    fn member_is_active(&self, id: u32) -> (active: bool)
        ensures
            active == has_active_member(self@.members, id),
    {
        let mut i: usize = 0;
        while i < self.members.len()
            invariant
                i <= self.members.len(),
                forall|j: int| 0 <= j < i ==> !(self@.members[j].id == id && self@.members[j].active),
            decreases self.members.len() - i,
        {
            if self.members[i].id() == id && self.members[i].is_active() {
                assert(self@.members[i as int].id == id && self@.members[i as int].active);
                return true;
            }
            i = i + 1;
        }
        false
    }

    /// Lends the book `isbn` to the member `member_id` until `due_date`.
    /// Where the loan is refused nothing changes.
    pub fn checkout_book_to_member(&mut self, isbn: &str, member_id: u32, due_date: String) -> (outcome:
        Result<(), String>)
        requires
            old(self).loan_manager.wf(),
        ensures
            final(self).loan_manager.wf(),
            match lend(old(self)@, isbn@, member_id, due_date@) {
                Ok(after) => outcome is Ok && final(self)@ == after,
                Err(reason) => (outcome matches Err(words) && words@ == reason) && final(self)@ == old(
                    self,
                )@,
            },
    {
        if !self.member_is_active(member_id) {
            return Err("Member not found or inactive".to_string());
        }
        match self.find_book(isbn) {
            Some(at) => {
                if !self.books[at].is_available() {
                    return Err("Book is not available".to_string());
                }
                let loan = Loan { member_id, book_isbn: isbn.to_string(), due_date };
                self.loan_manager.record(loan);
                self.books[at].mark_unavailable();
                assert(self@ =~= lend(old(self)@, isbn@, member_id, due_date@)->Ok_0);
                Ok(())
            },
            None => Err("Book not found".to_string()),
        }
    }
}

} // verus!
