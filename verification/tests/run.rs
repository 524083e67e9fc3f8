use wishlist::book::Book;
use wishlist::extract::{ExtractionError, Field, Selectors};
use wishlist::run::{choose_source, prior_snapshot, process_wishlist, Source, UsageError};

fn arguments(given: &[&str]) -> Vec<String> {
    given.iter().map(|argument| argument.to_string()).collect()
}

fn stored(title: &str, price: &str) -> Book {
    Book::new(title.to_string(), "Frank Herbert".to_string(), price.to_string(), None)
}

#[test]
fn no_argument_asks_for_the_page_to_be_fetched() {
    assert_eq!(choose_source(&arguments(&[])), Ok(Source::Fetch));
}

#[test]
fn the_save_flag_asks_for_the_page_to_be_fetched_and_kept() {
    assert_eq!(choose_source(&arguments(&["--save"])), Ok(Source::FetchAndSave));
}

#[test]
fn any_other_argument_names_a_file() {
    assert_eq!(
        choose_source(&arguments(&["wishlist.html"])),
        Ok(Source::File("wishlist.html".to_string()))
    );
    assert_eq!(choose_source(&arguments(&["--Save"])), Ok(Source::File("--Save".to_string())));
    assert_eq!(choose_source(&arguments(&[""])), Ok(Source::File("".to_string())));
}

#[test]
fn more_than_one_argument_is_refused() {
    assert_eq!(choose_source(&arguments(&["--save", "a.html"])), Err(UsageError { given: 2 }));
    assert_eq!(choose_source(&arguments(&["a", "b", "c"])), Err(UsageError { given: 3 }));
}

#[test]
fn a_loaded_snapshot_is_kept_as_it_is() {
    let books = vec![stored("Dune", "$8.50"), stored("Emma", "$3")];
    assert_eq!(prior_snapshot(Some(books.clone())), books);
}

#[test]
fn no_snapshot_counts_as_an_empty_one() {
    assert!(prior_snapshot(None).is_empty());
}

const SHELF: &str = r#"<div class="prod-details-sec">
  <h3 class="product-shelf-title">Dune</h3>
  <div class="product-shelf-author">By: Frank Herbert</div>
  <span class="current-price">$8.50</span>
  <span class="discount-amount-text">15% off</span>
</div>
<div class="prod-details-sec">
  <h3 class="product-shelf-title">Emma</h3>
  <div class="product-shelf-author">By: Jane Austen</div>
  <span class="current-price">$3</span>
</div>"#;

#[test]
fn a_first_run_reports_only_the_discounts() {
    let done = process_wishlist(SHELF, &Vec::new(), &Selectors::standard()).unwrap();
    assert_eq!(done.books.len(), 2);
    assert_eq!(done.books[0].title, "Dune");
    assert_eq!(done.books[1].title, "Emma");
    assert!(done.summary.warnings.is_empty());
    assert_eq!(
        done.summary.report,
        vec!["Discounted", "==========", "Dune, Frank Herbert. Currently $8.50 (15% off)"]
    );
}

#[test]
fn a_later_run_reports_the_changed_price() {
    let old = vec![stored("Dune", "$9.99"), stored("Emma", "$3"), stored("Gone", "$1")];
    let done = process_wishlist(SHELF, &old, &Selectors::standard()).unwrap();
    assert!(done.summary.warnings.is_empty());
    assert_eq!(
        done.summary.report,
        vec![
            "Price change",
            "============",
            "Dune, Frank Herbert. Currently $8.50 (15% off), was $9.99",
            "\n\n",
            "Discounted",
            "==========",
            "Dune, Frank Herbert. Currently $8.50 (15% off)",
        ]
    );
}

#[test]
fn the_books_of_a_run_compared_with_themselves_show_no_change() {
    let first = process_wishlist(SHELF, &Vec::new(), &Selectors::standard()).unwrap();
    let second = process_wishlist(SHELF, &first.books, &Selectors::standard()).unwrap();
    assert_eq!(second.books, first.books);
    assert_eq!(second.summary.report, first.summary.report);
}

#[test]
fn a_malformed_block_ends_the_run_without_books() {
    let page = r#"<div class="prod-details-sec"><h3 class="product-shelf-title">Dune</h3>
<div class="product-shelf-author">By: Frank Herbert</div></div>"#;
    let outcome = process_wishlist(page, &vec![stored("Dune", "$1")], &Selectors::standard());
    assert_eq!(outcome.err(), Some(ExtractionError { block: 0, field: Field::Price }));
}
