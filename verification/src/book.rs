//! The book record and its textual rendering.

use vstd::prelude::*;
use vstd::string::StringExecFns;

verus! {

/// One wishlist entry. The price is kept as display text, and a discount is
/// present exactly when `discount_percentage` holds its text.
#[derive(Clone, Debug, PartialEq, Eq)]
pub struct Book {
    pub title: String,
    pub author: String,
    pub current_price: String,
    pub discount_percentage: Option<String>,
}

/// The mathematical value of a [`Book`].
pub ghost struct BookView {
    pub title: Seq<char>,
    pub author: Seq<char>,
    pub current_price: Seq<char>,
    pub discount_percentage: Option<Seq<char>>,
}

impl View for Book {
    type V = BookView;

    open spec fn view(&self) -> BookView {
        BookView {
            title: self.title@,
            author: self.author@,
            current_price: self.current_price@,
            discount_percentage: match self.discount_percentage {
                Some(text) => Some(text@),
                None => None,
            },
        }
    }
}

/// The values of a list of books.
pub open spec fn books_view(books: Seq<Book>) -> Seq<BookView> {
    books.map_values(|book: Book| book@)
}

impl BookView {
    /// A discount is shown exactly when its text is present.
    pub open spec fn has_discount(self) -> bool {
        self.discount_percentage is Some
    }

    /// Whether the book has all that an extracted book must have: a title,
    /// an author and a price that are not empty.
    pub open spec fn is_complete(self) -> bool {
        self.title.len() > 0 && self.author.len() > 0 && self.current_price.len() > 0
    }

    /// The rendering without the discount part: title, author and price.
    pub open spec fn base_text(self) -> Seq<char> {
        self.title + ", "@ + self.author + ". Currently "@ + self.current_price
    }

    /// The canonical rendering: `"{title}, {author}. Currently {price}"`,
    /// followed by `" ({discount})"` when a discount is present.
    pub open spec fn text(self) -> Seq<char> {
        match self.discount_percentage {
            Some(discount) => self.base_text() + " ("@ + discount + ")"@,
            None => self.base_text(),
        }
    }
}

impl Book {
    /// Builds a record from its four fields.
    pub fn new(
        title: String,
        author: String,
        current_price: String,
        discount_percentage: Option<String>,
    ) -> (book: Book)
        ensures
            book.title == title,
            book.author == author,
            book.current_price == current_price,
            book.discount_percentage == discount_percentage,
    {
        Book { title, author, current_price, discount_percentage }
    }

    /// Whether the entry currently shows a discount.
    pub fn has_discount(&self) -> (shown: bool)
        ensures
            shown == self@.has_discount(),
            shown == (self.discount_percentage is Some),
    {
        self.discount_percentage.is_some()
    }

    /// The canonical rendering of the record.
    pub fn to_text(&self) -> (text: String)
        ensures
            text@ == self@.text(),
    {
        let mut text = self.title.clone();
        text.append(", ");
        text.append(self.author.as_str());
        text.append(". Currently ");
        text.append(self.current_price.as_str());
        match &self.discount_percentage {
            Some(discount) => {
                text.append(" (");
                text.append(discount.as_str());
                text.append(")");
            },
            None => {},
        }
        text
    }
}

} // verus!
