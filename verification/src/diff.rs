//! The join of two snapshots by title, and the price changes it shows.

use vstd::prelude::*;
use crate::book::{books_view, Book, BookView};

verus! {

/// The entries of `current` that carry `title`, in the order of `current`.
/// Titles are compared exactly, character by character.
pub open spec fn matching(current: Seq<BookView>, title: Seq<char>) -> Seq<BookView>
    decreases current.len(),
{
    if current.len() == 0 {
        Seq::empty()
    } else if current.last().title == title {
        matching(current.drop_last(), title).push(current.last())
    } else {
        matching(current.drop_last(), title)
    }
}

/// What one earlier book contributes to the changes: nothing when no current
/// entry has its title or when the first such entry has the same price, else
/// that first entry together with the earlier price.
pub open spec fn change_of(old_book: BookView, current: Seq<BookView>) -> Seq<
    (BookView, Seq<char>),
> {
    let found = matching(current, old_book.title);
    if found.len() > 0 && found[0].current_price != old_book.current_price {
        seq![(found[0], old_book.current_price)]
    } else {
        Seq::empty()
    }
}

/// The price changes between two snapshots, in the order of `old`.
pub open spec fn changes(old: Seq<BookView>, current: Seq<BookView>) -> Seq<
    (BookView, Seq<char>),
>
    decreases old.len(),
{
    if old.len() == 0 {
        Seq::empty()
    } else {
        changes(old.drop_last(), current) + change_of(old.last(), current)
    }
}

/// What one earlier book contributes to the anomalies: all current entries
/// with its title when there are two or more of them.
pub open spec fn duplicate_of(old_book: BookView, current: Seq<BookView>) -> Seq<Seq<BookView>> {
    let found = matching(current, old_book.title);
    if found.len() > 1 {
        seq![found]
    } else {
        Seq::empty()
    }
}

/// The groups of current entries that share the title of an earlier book, in
/// the order of `old`.
pub open spec fn duplicates(old: Seq<BookView>, current: Seq<BookView>) -> Seq<Seq<BookView>>
    decreases old.len(),
{
    if old.len() == 0 {
        Seq::empty()
    } else {
        duplicates(old.drop_last(), current) + duplicate_of(old.last(), current)
    }
}

/// The values of a list of borrowed books.
pub open spec fn refs_view(books: Seq<&Book>) -> Seq<BookView> {
    books.map_values(|book: &Book| book@)
}

/// The values of a list of changes.
pub open spec fn changes_view(changed: Seq<(&Book, String)>) -> Seq<(BookView, Seq<char>)> {
    changed.map_values(|change: (&Book, String)| (change.0@, change.1@))
}

/// The values of a list of groups of borrowed books.
pub open spec fn groups_view(groups: Seq<Vec<&Book>>) -> Seq<Seq<BookView>> {
    groups.map_values(|group: Vec<&Book>| refs_view(group@))
}

/// The outcome of comparing two snapshots.
pub struct PriceChanges<'a> {
    /// Each current book whose price differs, with the earlier price.
    pub changed: Vec<(&'a Book, String)>,
    /// Each group of current books found under one earlier title.
    pub duplicated: Vec<Vec<&'a Book>>,
}

/// Collects the entries of `current` that carry `title`.
pub fn find_matching<'a>(current: &'a Vec<Book>, title: &String) -> (found: Vec<&'a Book>)
    ensures
        refs_view(found@) == matching(books_view(current@), title@),
{
    let mut found: Vec<&'a Book> = Vec::new();
    let mut i: usize = 0;
    while i < current.len()
        invariant
            i <= current.len(),
            refs_view(found@) == matching(books_view(current@).take(i as int), title@),
        decreases current.len() - i,
    {
        let book = &current[i];
        proof {
            let all = books_view(current@);
            assert(all.take(i + 1).drop_last() == all.take(i as int));
            assert(all.take(i + 1).last() == book@);
        }
        if book.title == *title {
            proof {
                assert(refs_view(found@.push(book)) == refs_view(found@).push(book@));
            }
            found.push(book);
        }
        i += 1;
    }
    proof {
        let all = books_view(current@);
        assert(all.take(current.len() as int) == all);
    }
    found
}

/// Compares the earlier snapshot with the current one. For every earlier
/// book, in order, the current entries with the same title are looked up:
/// with none the book is passed over, with several they are recorded as an
/// anomaly, and the first of them is reported when its price differs from the
/// earlier one.
pub fn find_changed_prices<'a>(old: &'a Vec<Book>, current: &'a Vec<Book>) -> (out: PriceChanges<
    'a,
>)
    ensures
        changes_view(out.changed@) == changes(books_view(old@), books_view(current@)),
        groups_view(out.duplicated@) == duplicates(books_view(old@), books_view(current@)),
{
    let mut changed: Vec<(&'a Book, String)> = Vec::new();
    let mut duplicated: Vec<Vec<&'a Book>> = Vec::new();
    let mut i: usize = 0;
    while i < old.len()
        invariant
            i <= old.len(),
            changes_view(changed@) == changes(
                books_view(old@).take(i as int),
                books_view(current@),
            ),
            groups_view(duplicated@) == duplicates(
                books_view(old@).take(i as int),
                books_view(current@),
            ),
        decreases old.len() - i,
    {
        let old_book = &old[i];
        let found = find_matching(current, &old_book.title);
        proof {
            let all = books_view(old@);
            assert(all.take(i + 1).drop_last() == all.take(i as int));
            assert(all.take(i + 1).last() == old_book@);
            assert(found@.len() == refs_view(found@).len());
        }
        if found.len() > 0 {
            let first: &'a Book = found[0];
            assert(first@ == refs_view(found@)[0]);
            if first.current_price != old_book.current_price {
                let change = (first, old_book.current_price.clone());
                proof {
                    assert(changes_view(changed@.push(change)) == changes_view(changed@).push(
                        (first@, old_book.current_price@),
                    ));
                }
                changed.push(change);
            }
            if found.len() != 1 {
                proof {
                    assert(groups_view(duplicated@.push(found)) == groups_view(duplicated@).push(
                        refs_view(found@),
                    ));
                }
                duplicated.push(found);
            }
        }
        i += 1;
    }
    proof {
        let all = books_view(old@);
        assert(all.take(old.len() as int) == all);
    }
    PriceChanges { changed, duplicated }
}

/// Whether `at` is the position of the first entry of `current` that
/// carries `title`.
pub open spec fn is_first_with_title(current: Seq<BookView>, title: Seq<char>, at: int) -> bool {
    &&& 0 <= at < current.len()
    &&& current[at].title == title
    &&& forall|before: int| 0 <= before < at ==> (#[trigger] current[before]).title != title
}

/// The matching entries are empty exactly when no entry carries the title,
/// and otherwise start with the first entry of `current` that carries it.
pub proof fn lemma_matching_first(current: Seq<BookView>, title: Seq<char>)
    ensures
        matching(current, title).len() <= current.len(),
        matching(current, title).len() == 0 <==> forall|i: int|
            0 <= i < current.len() ==> (#[trigger] current[i]).title != title,
        matching(current, title).len() > 0 ==> exists|at: int|
            is_first_with_title(current, title, at) && matching(current, title)[0]
                == #[trigger] current[at],
    decreases current.len(),
{
    if current.len() > 0 {
        let front = current.drop_last();
        lemma_matching_first(front, title);
        assert forall|i: int| 0 <= i < front.len() implies front[i] == current[i] by {}
        if matching(front, title).len() > 0 {
            let at = choose|at: int|
                is_first_with_title(front, title, at) && matching(front, title)[0]
                    == #[trigger] front[at];
            assert(is_first_with_title(current, title, at)) by {
                assert forall|before: int| 0 <= before < at implies (
                #[trigger] current[before]).title != title by {
                    assert(front[before].title != title);
                }
            }
            assert(matching(current, title)[0] == current[at]);
            assert(current[at].title == title);
        } else {
            assert forall|i: int| 0 <= i < front.len() implies (#[trigger] current[i]).title
                != title by {
                assert(front[i].title != title);
            }
            if current.last().title == title {
                let at = current.len() - 1;
                assert(is_first_with_title(current, title, at));
                assert(matching(current, title)[0] == current[at]);
            }
        }
    }
}

/// An earlier book whose title no current entry carries is passed over.
pub proof fn lemma_change_of_absent(old_book: BookView, current: Seq<BookView>)
    requires
        forall|i: int| 0 <= i < current.len() ==> (#[trigger] current[i]).title != old_book.title,
    ensures
        change_of(old_book, current) == Seq::<(BookView, Seq<char>)>::empty(),
        duplicate_of(old_book, current) == Seq::<Seq<BookView>>::empty(),
{
    lemma_matching_first(current, old_book.title);
}

/// An earlier book is held against the first current entry that carries
/// its title, whatever follows that entry: it is reported with its earlier
/// price exactly when the two prices differ.
pub proof fn lemma_change_of_first(old_book: BookView, current: Seq<BookView>, at: int)
    requires
        is_first_with_title(current, old_book.title, at),
    ensures
        current[at].current_price != old_book.current_price ==> change_of(old_book, current)
            == seq![(current[at], old_book.current_price)],
        current[at].current_price == old_book.current_price ==> change_of(old_book, current)
            == Seq::<(BookView, Seq<char>)>::empty(),
{
    lemma_matching_first(current, old_book.title);
    let found = matching(current, old_book.title);
    let first = choose|first: int|
        is_first_with_title(current, old_book.title, first) && found[0] == #[trigger] current[first];
    if first < at {
        assert(current[first].title != old_book.title);
    } else if at < first {
        assert(current[at].title != old_book.title);
    }
}

/// Against an empty current snapshot nothing has changed and nothing is
/// out of order.
pub proof fn lemma_nothing_current(old: Seq<BookView>)
    ensures
        changes(old, Seq::empty()) == Seq::<(BookView, Seq<char>)>::empty(),
        duplicates(old, Seq::empty()) == Seq::<Seq<BookView>>::empty(),
    decreases old.len(),
{
    if old.len() > 0 {
        lemma_nothing_current(old.drop_last());
    }
}

/// Every earlier book is reported at most once, and every change shows a
/// current book under the title of an earlier one, with a price that is not
/// the earlier price it is shown with.
pub proof fn lemma_changes_sound(old: Seq<BookView>, current: Seq<BookView>)
    ensures
        changes(old, current).len() <= old.len(),
        forall|k: int|
            0 <= k < changes(old, current).len() ==> {
                let change = #[trigger] changes(old, current)[k];
                &&& change.0.current_price != change.1
                &&& exists|at: int| 0 <= at < current.len() && #[trigger] current[at] == change.0
                &&& exists|from: int|
                    0 <= from < old.len() && (#[trigger] old[from]).title == change.0.title
                        && old[from].current_price == change.1
            },
    decreases old.len(),
{
    if old.len() > 0 {
        let front = old.drop_last();
        let last = old.last();
        lemma_changes_sound(front, current);
        lemma_matching_first(current, last.title);
        let all = changes(old, current);
        let head = changes(front, current);
        assert forall|k: int| 0 <= k < all.len() implies {
            let change = #[trigger] all[k];
            &&& change.0.current_price != change.1
            &&& exists|at: int| 0 <= at < current.len() && #[trigger] current[at] == change.0
            &&& exists|from: int|
                0 <= from < old.len() && (#[trigger] old[from]).title == change.0.title
                    && old[from].current_price == change.1
        } by {
            let change = all[k];
            if k < head.len() {
                assert(change == head[k]);
                let from = choose|from: int|
                    0 <= from < front.len() && (#[trigger] front[from]).title == change.0.title
                        && front[from].current_price == change.1;
                assert(old[from] == front[from]);
            } else {
                let found = matching(current, last.title);
                let at = choose|at: int|
                    is_first_with_title(current, last.title, at) && found[0] == #[trigger] current[at];
                assert(change == (found[0], last.current_price));
                assert(current[at] == change.0);
                assert(old[old.len() - 1] == last);
            }
        }
    }
}

} // verus!
