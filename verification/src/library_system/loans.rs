//! Loans: which member has which book, and until when.
use vstd::prelude::*;
use crate::library_system::books::{Book, BookModel};
use crate::library_system::members::Member;
use crate::lookup::{
    lemma_position_found, lemma_position_meaning, lemma_position_missing,
    lemma_push_keeps_distinct, lemma_remove_keeps_distinct, position,
};
use crate::text::str_eq;

verus! {

/// One loan.
pub struct Loan {
    pub member_id: u32,
    pub book_isbn: String,
    pub due_date: String,
}

/// What a `Loan` says.
pub struct LoanModel {
    pub member_id: u32,
    pub book_isbn: Seq<char>,
    pub due_date: Seq<char>,
}

impl View for Loan {
    type V = LoanModel;

    open spec fn view(&self) -> LoanModel {
        LoanModel { member_id: self.member_id, book_isbn: self.book_isbn@, due_date: self.due_date@ }
    }
}

/// What each loan of a list says.
pub open spec fn loan_models(loans: Seq<Loan>) -> Seq<LoanModel> {
    loans.map_values(|loan: Loan| loan@)
}

/// What each borrowed loan of a list says.
pub open spec fn borrowed_loan_models(loans: Seq<&Loan>) -> Seq<LoanModel> {
    loans.map_values(|loan: &Loan| loan@)
}

/// The ISBNs of the books that are out, in the order the loans were made.
pub open spec fn loan_isbns(loans: Seq<LoanModel>) -> Seq<Seq<char>> {
    loans.map_values(|loan: LoanModel| loan.book_isbn)
}

/// The loans after `loan` was recorded: it replaces the loan of the same
/// book, or is added where the book was not out.
pub open spec fn with_loan(loans: Seq<LoanModel>, loan: LoanModel) -> Seq<LoanModel> {
    match position(loan_isbns(loans), loan.book_isbn) {
        Some(at) => loans.update(at, loan),
        None => loans.push(loan),
    }
}

/// The loans after the loan of the book `isbn` ended.
pub open spec fn without_loan(loans: Seq<LoanModel>, isbn: Seq<char>) -> Seq<LoanModel> {
    match position(loan_isbns(loans), isbn) {
        Some(at) => loans.remove(at),
        None => loans,
    }
}

/// The loans of one member, in the order they were made.
pub open spec fn loans_of(loans: Seq<LoanModel>, member_id: u32) -> Seq<LoanModel>
    decreases loans.len(),
{
    if loans.len() == 0 {
        Seq::<LoanModel>::empty()
    } else if loans.last().member_id == member_id {
        loans_of(loans.drop_last(), member_id).push(loans.last())
    } else {
        loans_of(loans.drop_last(), member_id)
    }
}

/// What a checkout does: it is refused for a book that is out and for a
/// member who is inactive; otherwise the loan is recorded.
pub open spec fn checkout(
    loans: Seq<LoanModel>,
    book: BookModel,
    member_id: u32,
    member_active: bool,
    due_date: Seq<char>,
) -> Result<(Seq<LoanModel>, BookModel), Seq<char>> {
    if !book.available {
        Err("Book is not available"@)
    } else if !member_active {
        Err("Member is not active"@)
    } else {
        Ok(
            (
                with_loan(loans, LoanModel { member_id, book_isbn: book.isbn, due_date }),
                BookModel { available: false, ..book },
            ),
        )
    }
}

/// Keeps the loans of a library, at most one for each book.
pub struct LoanManager {
    pub(crate) loans: Vec<Loan>,
}

impl View for LoanManager {
    type V = Seq<LoanModel>;

    closed spec fn view(&self) -> Seq<LoanModel> {
        loan_models(self.loans@)
    }
}

/// Recording a loan leaves a list with at most one loan for each book such
/// a list.
pub proof fn lemma_with_loan_keeps_distinct(loans: Seq<LoanModel>, loan: LoanModel)
    requires
        loan_isbns(loans).no_duplicates(),
    ensures
        loan_isbns(with_loan(loans, loan)).no_duplicates(),
{
    let names = loan_isbns(loans);
    lemma_position_meaning(names, loan.book_isbn);
    match position(names, loan.book_isbn) {
        Some(at) => {
            assert(loan_isbns(with_loan(loans, loan)) =~= names);
        },
        None => {
            lemma_push_keeps_distinct(names, loan.book_isbn);
            assert(loan_isbns(with_loan(loans, loan)) =~= names.push(loan.book_isbn));
        },
    }
}

/// Ending a loan leaves a list with at most one loan for each book such a
/// list, and the book is out no more.
pub proof fn lemma_without_loan_keeps_distinct(loans: Seq<LoanModel>, isbn: Seq<char>)
    requires
        loan_isbns(loans).no_duplicates(),
    ensures
        loan_isbns(without_loan(loans, isbn)).no_duplicates(),
        position(loan_isbns(without_loan(loans, isbn)), isbn) is None,
{
    let names = loan_isbns(loans);
    lemma_position_meaning(names, isbn);
    match position(names, isbn) {
        Some(at) => {
            lemma_remove_keeps_distinct(names, at);
            assert(loan_isbns(loans.remove(at)) =~= names.remove(at));
            lemma_position_missing(names.remove(at), isbn);
        },
        None => {},
    }
}

impl LoanManager {
    /// No book is out on two loans.
    pub open spec fn wf(&self) -> bool {
        loan_isbns(self@).no_duplicates()
    }

    /// A manager without loans.
    pub fn new() -> (manager: LoanManager)
        ensures
            manager.wf(),
            manager@ == Seq::<LoanModel>::empty(),
    {
        let manager = LoanManager { loans: Vec::new() };
        assert(manager@ =~= Seq::<LoanModel>::empty());
        manager
    }

    /// The place of the loan of the book `isbn`.
    fn find_loan(&self, isbn: &str) -> (found: Option<usize>)
        ensures
            match found {
                Some(at) => position(loan_isbns(self@), isbn@) == Some(at as int),
                None => position(loan_isbns(self@), isbn@) is None,
            },
    {
        let ghost names = loan_isbns(self@);
        let mut i: usize = 0;
        while i < self.loans.len()
            invariant
                i <= self.loans.len(),
                names == loan_isbns(self@),
                names.len() == self.loans.len(),
                forall|j: int| 0 <= j < i ==> names[j] != isbn@,
            decreases self.loans.len() - i,
        {
            if str_eq(self.loans[i].book_isbn.as_str(), isbn) {
                proof {
                    assert(names[i as int] == isbn@);
                    lemma_position_found(names, isbn@, i as int);
                }
                return Some(i);
            }
            i = i + 1;
        }
        proof {
            lemma_position_missing(names, isbn@);
        }
        None
    }

    /// Records `loan`, in place of the loan of the same book if there is
    /// one.
    pub(crate) fn record(&mut self, loan: Loan)
        requires
            old(self).wf(),
        ensures
            final(self).wf(),
            final(self)@ == with_loan(old(self)@, loan@),
    {
        proof {
            lemma_with_loan_keeps_distinct(self@, loan@);
        }
        match self.find_loan(loan.book_isbn.as_str()) {
            Some(at) => {
                self.loans.set(at, loan);
            },
            None => {
                self.loans.push(loan);
            },
        }
        assert(self@ =~= with_loan(old(self)@, loan@));
    }

    /// Lends `book` to `member` until `due_date`.  A book that is out and
    /// an inactive member are refused, and nothing changes.
    pub fn checkout_book(&mut self, book: &mut Book, member: &Member, due_date: String) -> (outcome:
        Result<(), String>)
        requires
            old(self).wf(),
        ensures
            final(self).wf(),
            match checkout(old(self)@, old(book)@, member@.id, member@.active, due_date@) {
                Ok((loans, lent)) => outcome is Ok && final(self)@ == loans && final(book)@ == lent,
                Err(reason) => (outcome matches Err(words) && words@ == reason) && final(self)@ == old(
                    self,
                )@ && final(book)@ == old(book)@,
            },
    {
        if !book.is_available() {
            return Err("Book is not available".to_string());
        }
        if !member.is_active() {
            return Err("Member is not active".to_string());
        }
        let loan = Loan { member_id: member.id(), book_isbn: book.isbn().to_string(), due_date };
        self.record(loan);
        book.mark_unavailable();
        Ok(())
    }

    /// Takes `book` back.  A book that was not out is refused, and nothing
    /// changes.
    pub fn return_book(&mut self, book: &mut Book) -> (outcome: Result<(), String>)
        requires
            old(self).wf(),
        ensures
            final(self).wf(),
            match position(loan_isbns(old(self)@), old(book)@.isbn) {
                Some(at) => {
                    &&& outcome is Ok
                    &&& final(self)@ == without_loan(old(self)@, old(book)@.isbn)
                    &&& final(book)@ == (BookModel { available: true, ..old(book)@ })
                },
                None => {
                    &&& outcome matches Err(words) && words@ == "Book was not loaned out"@
                    &&& final(self)@ == old(self)@
                    &&& final(book)@ == old(book)@
                },
            },
    {
        proof {
            lemma_without_loan_keeps_distinct(self@, book@.isbn);
        }
        match self.find_loan(book.isbn()) {
            Some(at) => {
                self.loans.remove(at);
                assert(self@ =~= without_loan(old(self)@, old(book)@.isbn));
                book.mark_available();
                Ok(())
            },
            None => Err("Book was not loaned out".to_string()),
        }
    }

    /// The loans of the member `member_id`, in the order they were made.
    pub fn get_member_loans(&self, member_id: u32) -> (found: Vec<&Loan>)
        ensures
            borrowed_loan_models(found@) == loans_of(self@, member_id),
    {
        let mut found: Vec<&Loan> = Vec::new();
        let mut i: usize = 0;
        assert(self@.take(0) =~= Seq::<LoanModel>::empty());
        assert(borrowed_loan_models(found@) =~= Seq::<LoanModel>::empty());
        while i < self.loans.len()
            invariant
                i <= self.loans.len(),
                self@.len() == self.loans.len(),
                borrowed_loan_models(found@) == loans_of(self@.take(i as int), member_id),
            decreases self.loans.len() - i,
        {
            let ghost before = borrowed_loan_models(found@);
            proof {
                assert(self@.take(i as int + 1).drop_last() =~= self@.take(i as int));
                assert(self@.take(i as int + 1).last() == self.loans@[i as int]@);
            }
            if self.loans[i].member_id == member_id {
                found.push(&self.loans[i]);
                assert(borrowed_loan_models(found@) =~= before.push(self.loans@[i as int]@));
            }
            i = i + 1;
        }
        assert(self@.take(self.loans.len() as int) =~= self@);
        found
    }
}

/// After a checkout that was accepted the book is out, on loan to that
/// member; after its return the book is available again.
pub proof fn lemma_checkout_records_the_loan(
    loans: Seq<LoanModel>,
    book: BookModel,
    member_id: u32,
    due_date: Seq<char>,
)
    requires
        book.available,
    ensures
        checkout(loans, book, member_id, true, due_date) matches Ok((after, lent)) && !lent.available
            && (position(loan_isbns(after), book.isbn) matches Some(at) && after[at] == (LoanModel {
            member_id,
            book_isbn: book.isbn,
            due_date,
        })),
{
    let loan = LoanModel { member_id, book_isbn: book.isbn, due_date };
    let names = loan_isbns(loans);
    let after = with_loan(loans, loan);
    crate::lookup::lemma_position_meaning(names, book.isbn);
    match position(names, book.isbn) {
        Some(at) => {
            assert(loan_isbns(after) =~= names);
        },
        None => {
            assert(loan_isbns(after) =~= names.push(book.isbn));
            assert(crate::lookup::first_at(loan_isbns(after), book.isbn, names.len() as int));
            lemma_position_found(loan_isbns(after), book.isbn, names.len() as int);
        },
    }
}

} // verus!
