use wishlist::text::{join_fragments, normalize, normalize_text, strip_prefix};

fn pieces(parts: &[&str]) -> Vec<String> {
    parts.iter().map(|part| part.to_string()).collect()
}

#[test]
fn mixed_gaps_between_fragments_collapse() {
    let parts = pieces(&["Title", "\n", "  ", "\u{A0}", "Name"]);
    assert_eq!(normalize(&parts), "Title Name");
}

#[test]
fn fragments_are_joined_before_they_are_collapsed() {
    let parts = pieces(&["a ", " b", "\n", "\nc"]);
    assert_eq!(join_fragments(&parts), "a  b\n\nc");
    assert_eq!(normalize(&parts), "a b c");
}

#[test]
fn fragments_are_joined_without_separator() {
    assert_eq!(normalize(&pieces(&["Ti", "tle"])), "Title");
}

#[test]
fn no_fragments_give_the_empty_text() {
    assert_eq!(normalize(&Vec::new()), "");
    assert_eq!(join_fragments(&Vec::new()), "");
}

#[test]
fn only_gaps_give_the_empty_text() {
    assert_eq!(normalize_text(" \n\u{A0} \n"), "");
}

#[test]
fn every_gap_run_becomes_one_space() {
    assert_eq!(normalize_text("a\nb"), "a b");
    assert_eq!(normalize_text("a\u{A0}b"), "a b");
    assert_eq!(normalize_text("a   b"), "a b");
    assert_eq!(normalize_text("a \n\u{A0}\n b  c"), "a b c");
}

#[test]
fn leading_and_trailing_gaps_are_trimmed() {
    assert_eq!(normalize_text("\n   The Hobbit \u{A0}\n"), "The Hobbit");
}

#[test]
fn other_white_space_is_kept_inside_and_trimmed_outside() {
    assert_eq!(normalize_text("a\tb"), "a\tb");
    assert_eq!(normalize_text("a\t\tb"), "a\t\tb");
    assert_eq!(normalize_text("a \t b"), "a \t b");
    assert_eq!(normalize_text("\t a \r"), "a");
}

#[test]
fn every_white_space_character_is_trimmed() {
    let white = [
        '\u{9}', '\u{A}', '\u{B}', '\u{C}', '\u{D}', ' ', '\u{85}', '\u{A0}', '\u{1680}',
        '\u{2000}', '\u{2001}', '\u{2002}', '\u{2003}', '\u{2004}', '\u{2005}', '\u{2006}',
        '\u{2007}', '\u{2008}', '\u{2009}', '\u{200A}', '\u{2028}', '\u{2029}', '\u{202F}',
        '\u{205F}', '\u{3000}',
    ];
    for c in white {
        assert_eq!(normalize_text(&format!("{}x{}", c, c)), "x");
    }
}

#[test]
fn neighbours_of_white_space_are_not_trimmed() {
    let other = [
        '\u{8}', '\u{E}', '\u{1F}', '!', '\u{84}', '\u{86}', '\u{9F}', '\u{A1}', '\u{167F}',
        '\u{1681}', '\u{180E}', '\u{1FFF}', '\u{200B}', '\u{2027}', '\u{202A}', '\u{202E}',
        '\u{2030}', '\u{205E}', '\u{2060}', '\u{2FFF}', '\u{3001}', '\u{FEFF}',
    ];
    for c in other {
        let text = format!("{}x{}", c, c);
        assert_eq!(normalize_text(&text), text);
    }
}

#[test]
fn normalizing_twice_changes_nothing_more() {
    let samples = [
        "",
        " ",
        "plain",
        "  two  words ",
        "\n\u{A0} mixed \n\n gaps\u{A0}\u{A0}here \n",
        "\t tab \t inside \t",
        "\u{2003}wide\u{2003}space\u{2003}",
        " \t \n x \n \t ",
    ];
    for sample in samples {
        let once = normalize_text(sample);
        assert_eq!(normalize_text(&once), once);
    }
}

#[test]
fn a_normalized_text_is_returned_unchanged() {
    assert_eq!(normalize_text("The Lord of the Rings"), "The Lord of the Rings");
}

#[test]
fn a_leading_prefix_is_stripped() {
    assert_eq!(strip_prefix("By: J. R. R. Tolkien", "By: "), "J. R. R. Tolkien");
}

#[test]
fn a_repeated_prefix_is_stripped_as_often_as_it_stands() {
    assert_eq!(strip_prefix("By: By: Someone", "By: "), "Someone");
}

#[test]
fn a_prefix_elsewhere_is_kept() {
    assert_eq!(strip_prefix("Written By: Someone", "By: "), "Written By: Someone");
    assert_eq!(strip_prefix("By:Someone", "By: "), "By:Someone");
}

#[test]
fn an_empty_prefix_strips_nothing() {
    assert_eq!(strip_prefix("By: Someone", ""), "By: Someone");
    assert_eq!(strip_prefix("", ""), "");
}

#[test]
fn a_text_of_prefixes_only_is_stripped_to_nothing() {
    assert_eq!(strip_prefix("By: By: ", "By: "), "");
}
