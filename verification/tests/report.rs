use wishlist::book::Book;
use wishlist::diff::find_changed_prices;
use wishlist::report::{report_lines, summarize, warning_lines};

fn entry(title: &str, price: &str, discount: Option<&str>) -> Book {
    Book::new(
        title.to_string(),
        "Someone".to_string(),
        price.to_string(),
        discount.map(|text| text.to_string()),
    )
}

#[test]
fn without_changes_the_report_has_only_the_discounts() {
    let books = vec![entry("A", "$10", None), entry("B", "$5", Some("50% off"))];
    let lines = report_lines(&Vec::new(), &books);
    assert_eq!(
        lines,
        vec!["Discounted", "==========", "B, Someone. Currently $5 (50% off)"]
    );
}

#[test]
fn without_discounts_the_section_is_only_its_heading() {
    let books = vec![entry("A", "$10", None)];
    assert_eq!(report_lines(&Vec::new(), &books), vec!["Discounted", "=========="]);
    assert_eq!(report_lines(&Vec::new(), &Vec::new()), vec!["Discounted", "=========="]);
}

#[test]
fn changes_come_first_with_the_earlier_price() {
    let old = vec![entry("A", "$10", None), entry("B", "$6", None)];
    let current = vec![entry("A", "$12", Some("10% off")), entry("B", "$5", None)];
    let found = find_changed_prices(&old, &current);
    let lines = report_lines(&found.changed, &current);
    assert_eq!(
        lines,
        vec![
            "Price change",
            "============",
            "A, Someone. Currently $12 (10% off), was $10",
            "B, Someone. Currently $5, was $6",
            "\n\n",
            "Discounted",
            "==========",
            "A, Someone. Currently $12 (10% off)",
        ]
    );
}

#[test]
fn discounted_books_keep_their_order() {
    let books = vec![
        entry("C", "$3", Some("30%")),
        entry("A", "$1", None),
        entry("B", "$2", Some("20%")),
    ];
    assert_eq!(
        report_lines(&Vec::new(), &books),
        vec![
            "Discounted",
            "==========",
            "C, Someone. Currently $3 (30%)",
            "B, Someone. Currently $2 (20%)",
        ]
    );
}

#[test]
fn no_duplicates_give_no_warning() {
    assert!(warning_lines(&Vec::new()).is_empty());
}

#[test]
fn a_warning_lists_every_book_of_the_group() {
    let current = vec![entry("A", "$12", None), entry("A", "$15", Some("5%"))];
    let groups = vec![vec![&current[0], &current[1]]];
    assert_eq!(
        warning_lines(&groups),
        vec![
            "Bizzare. We have multiple books with the same title:",
            "A, Someone. Currently $12",
            "A, Someone. Currently $15 (5%)",
        ]
    );
}

#[test]
fn a_summary_holds_warnings_and_report() {
    let old = vec![entry("A", "$10", None)];
    let current = vec![entry("A", "$12", None), entry("A", "$15", None)];
    let summary = summarize(&old, &current);
    assert_eq!(
        summary.warnings,
        vec![
            "Bizzare. We have multiple books with the same title:",
            "A, Someone. Currently $12",
            "A, Someone. Currently $15",
        ]
    );
    assert_eq!(
        summary.report,
        vec![
            "Price change",
            "============",
            "A, Someone. Currently $12, was $10",
            "\n\n",
            "Discounted",
            "==========",
        ]
    );
}

#[test]
fn a_summary_against_nothing_current_is_quiet() {
    let old = vec![entry("A", "$10", None)];
    let summary = summarize(&old, &Vec::new());
    assert!(summary.warnings.is_empty());
    assert_eq!(summary.report, vec!["Discounted", "=========="]);
}
