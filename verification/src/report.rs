//! The lines that a run reports: the anomalies of the comparison, the price
//! changes and the books currently sold at a discount.

use vstd::prelude::*;
use vstd::string::StringExecFns;
use crate::book::{books_view, Book, BookView};
use crate::diff::{
    changes, changes_view, duplicates, find_changed_prices, groups_view, refs_view,
};

verus! {

/// The line for one price change: the current book, then the earlier price.
pub open spec fn change_line(change: (BookView, Seq<char>)) -> Seq<char> {
    change.0.text() + ", was "@ + change.1
}

/// The section on price changes: empty without changes, else a heading, one
/// line per change and a closing item of two line feeds.
pub open spec fn change_section(changed: Seq<(BookView, Seq<char>)>) -> Seq<Seq<char>> {
    if changed.len() == 0 {
        Seq::empty()
    } else {
        seq!["Price change"@, "============"@] + changed.map_values(
            |change: (BookView, Seq<char>)| change_line(change),
        ) + seq!["\n\n"@]
    }
}

/// The books that show a discount, in order.
pub open spec fn discounted(books: Seq<BookView>) -> Seq<BookView>
    decreases books.len(),
{
    if books.len() == 0 {
        Seq::empty()
    } else if books.last().has_discount() {
        discounted(books.drop_last()).push(books.last())
    } else {
        discounted(books.drop_last())
    }
}

/// The renderings of the books, in order.
pub open spec fn texts(books: Seq<BookView>) -> Seq<Seq<char>> {
    books.map_values(|book: BookView| book.text())
}

/// The section on discounts: a heading, then every discounted book.
pub open spec fn discount_section(books: Seq<BookView>) -> Seq<Seq<char>> {
    seq!["Discounted"@, "=========="@] + texts(discounted(books))
}

/// The report of a run: the price changes, then the discounts.
pub open spec fn report(changed: Seq<(BookView, Seq<char>)>, books: Seq<BookView>) -> Seq<
    Seq<char>,
> {
    change_section(changed) + discount_section(books)
}

/// The warning for one group of books under one title: a notice, then
/// every book of the group.
pub open spec fn warning_of(group: Seq<BookView>) -> Seq<Seq<char>> {
    seq!["Bizzare. We have multiple books with the same title:"@] + texts(group)
}

/// The warnings for all groups, in order.
pub open spec fn warnings(groups: Seq<Seq<BookView>>) -> Seq<Seq<char>>
    decreases groups.len(),
{
    if groups.len() == 0 {
        Seq::empty()
    } else {
        warnings(groups.drop_last()) + warning_of(groups.last())
    }
}

/// Appends one line.
fn push_line(lines: &mut Vec<String>, line: String)
    ensures
        final(lines).deep_view() == old(lines).deep_view().push(line@),
{
    let ghost before = lines.deep_view();
    lines.push(line);
    assert(lines.deep_view() =~= before.push(line@));
}

/// Appends the renderings of the books of a group.
fn push_texts(lines: &mut Vec<String>, group: &Vec<&Book>)
    ensures
        final(lines).deep_view() == old(lines).deep_view() + texts(refs_view(group@)),
{
    let ghost before = lines.deep_view();
    let mut i: usize = 0;
    while i < group.len()
        invariant
            i <= group.len(),
            lines.deep_view() == before + texts(refs_view(group@).take(i as int)),
        decreases group.len() - i,
    {
        proof {
            let all = refs_view(group@);
            assert(texts(all.take(i + 1)) == texts(all.take(i as int)).push(group@[i as int]@.text()));
        }
        push_line(lines, group[i].to_text());
        i += 1;
    }
    assert(refs_view(group@).take(group.len() as int) == refs_view(group@));
}

/// The warnings for the groups of books found under one earlier title.
pub fn warning_lines(duplicated: &Vec<Vec<&Book>>) -> (lines: Vec<String>)
    ensures
        lines.deep_view() == warnings(groups_view(duplicated@)),
{
    let mut lines: Vec<String> = Vec::new();
    let mut i: usize = 0;
    assert(lines.deep_view() =~= Seq::<Seq<char>>::empty());
    while i < duplicated.len()
        invariant
            i <= duplicated.len(),
            lines.deep_view() == warnings(groups_view(duplicated@).take(i as int)),
        decreases duplicated.len() - i,
    {
        proof {
            let all = groups_view(duplicated@);
            assert(all.take(i + 1).drop_last() == all.take(i as int));
            assert(all.take(i + 1).last() == refs_view(duplicated@[i as int]@));
        }
        push_line(
            &mut lines,
            String::from_str("Bizzare. We have multiple books with the same title:"),
        );
        push_texts(&mut lines, &duplicated[i]);
        i += 1;
    }
    assert(groups_view(duplicated@).take(duplicated.len() as int) == groups_view(duplicated@));
    lines
}

/// The report on the price changes and on the books of the current
/// snapshot that show a discount.
pub fn report_lines(changed: &Vec<(&Book, String)>, books: &Vec<Book>) -> (lines: Vec<String>)
    ensures
        lines.deep_view() == report(changes_view(changed@), books_view(books@)),
{
    let mut lines: Vec<String> = Vec::new();
    assert(lines.deep_view() =~= Seq::<Seq<char>>::empty());
    if changed.len() > 0 {
        push_line(&mut lines, String::from_str("Price change"));
        push_line(&mut lines, String::from_str("============"));
        let ghost head = lines.deep_view();
        let ghost all = changes_view(changed@);
        let ghost line_of = |change: (BookView, Seq<char>)| change_line(change);
        assert(head =~= seq!["Price change"@, "============"@]);
        let mut i: usize = 0;
        while i < changed.len()
            invariant
                i <= changed.len(),
                all == changes_view(changed@),
                line_of == |change: (BookView, Seq<char>)| change_line(change),
                lines.deep_view() == head + all.take(i as int).map_values(line_of),
            decreases changed.len() - i,
        {
            let mut line = changed[i].0.to_text();
            line.append(", was ");
            line.append(changed[i].1.as_str());
            proof {
                assert(line@ == change_line(all[i as int]));
                assert(all.take(i + 1).map_values(line_of) == all.take(i as int).map_values(
                    line_of,
                ).push(line@));
            }
            push_line(&mut lines, line);
            i += 1;
        }
        assert(all.take(changed.len() as int) == all);
        push_line(&mut lines, String::from_str("\n\n"));
        assert(lines.deep_view() == change_section(all));
    }
    let ghost first = lines.deep_view();
    push_line(&mut lines, String::from_str("Discounted"));
    push_line(&mut lines, String::from_str("=========="));
    let mut i: usize = 0;
    assert(discounted(books_view(books@).take(0)) =~= Seq::<BookView>::empty());
    while i < books.len()
        invariant
            i <= books.len(),
            lines.deep_view() == first + seq!["Discounted"@, "=========="@] + texts(
                discounted(books_view(books@).take(i as int)),
            ),
        decreases books.len() - i,
    {
        proof {
            let all = books_view(books@);
            assert(all.take(i + 1).drop_last() == all.take(i as int));
            assert(all.take(i + 1).last() == books@[i as int]@);
            let shown = discounted(all.take(i as int));
            assert(texts(shown.push(books@[i as int]@)) == texts(shown).push(
                books@[i as int]@.text(),
            ));
        }
        if books[i].has_discount() {
            push_line(&mut lines, books[i].to_text());
        }
        i += 1;
    }
    assert(books_view(books@).take(books.len() as int) == books_view(books@));
    lines
}

/// What a run says about the current snapshot.
pub struct Summary {
    /// The warnings on current books that share the title of an earlier one.
    pub warnings: Vec<String>,
    /// The report on price changes and discounts.
    pub report: Vec<String>,
}

/// Compares the earlier snapshot with the current one and words the
/// outcome.
pub fn summarize(old: &Vec<Book>, current: &Vec<Book>) -> (summary: Summary)
    ensures
        summary.warnings.deep_view() == warnings(
            duplicates(books_view(old@), books_view(current@)),
        ),
        summary.report.deep_view() == report(
            changes(books_view(old@), books_view(current@)),
            books_view(current@),
        ),
{
    let found = find_changed_prices(old, current);
    Summary {
        warnings: warning_lines(&found.duplicated),
        report: report_lines(&found.changed, current),
    }
}

} // verus!
