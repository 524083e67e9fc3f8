//! One run over a wishlist page: what the arguments ask for, which earlier
//! snapshot counts, and what the page gives when held against it.

use vstd::prelude::*;
use vstd::string::StringExecFns;
use crate::book::{books_view, Book};
use crate::diff::{changes, duplicates};
use crate::extract::{
    blocks_of, extract_books, is_extraction, ExtractionError, Selectors,
};
use crate::markup::{parseable, parsed_nodes};
use crate::report::{report, summarize, warnings, Summary};

verus! {

/// Where a run takes the wishlist page from.
#[derive(Clone, Debug, PartialEq, Eq)]
pub enum Source {
    /// Fetch the page from the configured address.
    Fetch,
    /// Fetch the page from the configured address and keep a copy of it.
    FetchAndSave,
    /// Read the page from the local file of this name.
    File(String),
}

/// The arguments do not say what to do: there is more than one of them.
#[derive(Clone, Copy, Debug, PartialEq, Eq, Structural)]
pub struct UsageError {
    /// How many arguments were given.
    pub given: usize,
}

/// Reads the arguments that follow the program's name. None asks for the
/// page to be fetched; `--save` alone asks for it to be fetched and kept; any
/// other single argument names a local file. More than one is refused.
pub fn choose_source(arguments: &Vec<String>) -> (outcome: Result<Source, UsageError>)
    ensures
        match outcome {
            Ok(Source::Fetch) => arguments@.len() == 0,
            Ok(Source::FetchAndSave) => arguments@.len() == 1 && arguments@[0]@ == "--save"@,
            Ok(Source::File(name)) => arguments@.len() == 1 && arguments@[0]@ != "--save"@
                && name@ == arguments@[0]@,
            Err(error) => arguments@.len() > 1 && error.given == arguments@.len(),
        },
{
    if arguments.len() == 0 {
        Ok(Source::Fetch)
    } else if arguments.len() == 1 {
        let save = String::from_str("--save");
        if arguments[0] == save {
            Ok(Source::FetchAndSave)
        } else {
            Ok(Source::File(arguments[0].clone()))
        }
    } else {
        Err(UsageError { given: arguments.len() })
    }
}

/// The earlier snapshot that a run compares with: the one that was loaded,
/// or none at all where there was nothing to load or it could not be read.
pub fn prior_snapshot(loaded: Option<Vec<Book>>) -> (books: Vec<Book>)
    ensures
        match loaded {
            Some(stored) => books == stored,
            None => books@.len() == 0,
        },
{
    match loaded {
        Some(stored) => stored,
        None => Vec::new(),
    }
}

/// What a run has found: the books of the page, which become the next
/// snapshot, and what there is to say about them.
pub struct Processed {
    pub books: Vec<Book>,
    pub summary: Summary,
}

/// Extracts the books of the page and compares them with the earlier
/// snapshot. Where a product block lacks a required field nothing is
/// compared and the extraction's error is handed on. The page must be
/// short enough for the parser, which `is_parseable` tests.
pub fn process_wishlist(markup: &str, old: &Vec<Book>, selectors: &Selectors) -> (outcome: Result<
    Processed,
    ExtractionError,
>)
    requires
        parseable(markup@),
    ensures
        match outcome {
            Ok(done) => {
                &&& is_extraction(
                    blocks_of(parsed_nodes(markup@), selectors@),
                    Ok(books_view(done.books@)),
                )
                &&& done.summary.warnings.deep_view() == warnings(
                    duplicates(books_view(old@), books_view(done.books@)),
                )
                &&& done.summary.report.deep_view() == report(
                    changes(books_view(old@), books_view(done.books@)),
                    books_view(done.books@),
                )
            },
            Err(error) => is_extraction(blocks_of(parsed_nodes(markup@), selectors@), Err(error)),
        },
{
    match extract_books(markup, selectors) {
        Ok(books) => {
            let summary = summarize(old, &books);
            Ok(Processed { books, summary })
        },
        Err(error) => Err(error),
    }
}

} // verus!
