use sensor_telemetry::library_system::books::Book;
use sensor_telemetry::library_system::library::Library;
use sensor_telemetry::library_system::loans::LoanManager;
use sensor_telemetry::library_system::members::Member;

fn book(isbn: &str) -> Book {
    Book::new("Title".to_string(), "Author".to_string(), isbn.to_string())
}

#[test]
fn books_and_members() {
    let b = book("111");
    assert_eq!(b.isbn(), "111");
    assert!(b.available);
    assert!(b.is_available());
    let mut m = Member::new(7, "Ann".to_string(), "ann@example.com".to_string());
    assert_eq!(m.email(), "ann@example.com");
    assert_eq!(m.id(), 7);
    assert!(m.active);
    m.deactivate();
    assert!(!m.is_active());
}

#[test]
fn loan_manager_lends_and_takes_back() {
    let mut manager = LoanManager::new();
    let mut first = book("111");
    let mut second = book("222");
    let ann = Member::new(1, "Ann".to_string(), "ann@example.com".to_string());
    let mut bob = Member::new(2, "Bob".to_string(), "bob@example.com".to_string());
    assert_eq!(manager.checkout_book(&mut first, &ann, "2030-01-01".to_string()), Ok(()));
    assert!(!first.available);
    assert_eq!(
        manager.checkout_book(&mut first, &ann, "2030-01-02".to_string()),
        Err("Book is not available".to_string())
    );
    bob.deactivate();
    assert_eq!(
        manager.checkout_book(&mut second, &bob, "2030-01-03".to_string()),
        Err("Member is not active".to_string())
    );
    assert!(second.available);
    assert_eq!(manager.checkout_book(&mut second, &ann, "2030-01-04".to_string()), Ok(()));
    let loans = manager.get_member_loans(1);
    assert_eq!(loans.len(), 2);
    assert_eq!(loans[0].book_isbn, "111");
    assert_eq!(loans[0].due_date, "2030-01-01");
    assert_eq!(loans[1].book_isbn, "222");
    assert_eq!(manager.get_member_loans(2).len(), 0);
    assert_eq!(manager.return_book(&mut first), Ok(()));
    assert!(first.available);
    assert_eq!(manager.return_book(&mut first), Err("Book was not loaned out".to_string()));
    assert_eq!(manager.get_member_loans(1).len(), 1);
}

#[test]
fn library_lends_by_isbn_and_member_number() {
    let mut library = Library::new();
    library.add_book(book("111"));
    library.add_book(book("222"));
    library.add_member(Member::new(1, "Ann".to_string(), "ann@example.com".to_string()));
    let mut bob = Member::new(2, "Bob".to_string(), "bob@example.com".to_string());
    bob.deactivate();
    library.add_member(bob);
    assert_eq!(
        library.checkout_book_to_member("111", 3, "d".to_string()),
        Err("Member not found or inactive".to_string())
    );
    assert_eq!(
        library.checkout_book_to_member("111", 2, "d".to_string()),
        Err("Member not found or inactive".to_string())
    );
    assert_eq!(library.checkout_book_to_member("333", 1, "d".to_string()), Err("Book not found".to_string()));
    assert_eq!(library.checkout_book_to_member("111", 1, "d".to_string()), Ok(()));
    assert_eq!(
        library.checkout_book_to_member("111", 1, "d".to_string()),
        Err("Book is not available".to_string())
    );
    assert!(!library.books[0].available);
    assert!(library.books[1].available);
    assert_eq!(library.loan_manager.get_member_loans(1).len(), 1);
    assert_eq!(library.find_member(1).map(|m| m.name.clone()), Some("Ann".to_string()));
    assert!(library.find_member(9).is_none());
    assert!(library.find_book_mut("999").is_none());
    let found = library.find_book_mut("222").unwrap();
    found.title = "Changed".to_string();
    assert_eq!(library.books[1].title, "Changed");
    let mut taken = library.books.remove(0);
    assert_eq!(library.loan_manager.return_book(&mut taken), Ok(()));
    assert!(taken.available);
}
