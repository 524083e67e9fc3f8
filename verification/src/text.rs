//! Text taken from markup, brought to one trimmed, single-spaced line.

use vstd::prelude::*;
use vstd::string::StringExecFns;
use regex::Regex;

verus! {

/// The characters that separate words in markup text: the line feed, the
/// no-break space and the ordinary space.
pub open spec fn is_gap(c: char) -> bool {
    c == '\n' || c == '\u{A0}' || c == ' '
}

/// The characters with the Unicode property `White_Space`.
pub open spec fn is_white_space(c: char) -> bool {
    ||| '\u{9}' <= c <= '\u{D}'
    ||| c == ' '
    ||| c == '\u{85}'
    ||| c == '\u{A0}'
    ||| c == '\u{1680}'
    ||| '\u{2000}' <= c <= '\u{200A}'
    ||| c == '\u{2028}'
    ||| c == '\u{2029}'
    ||| c == '\u{202F}'
    ||| c == '\u{205F}'
    ||| c == '\u{3000}'
}

/// The text with every maximal run of gap characters replaced by one
/// ordinary space.
pub open spec fn collapse(s: Seq<char>) -> Seq<char>
    decreases s.len(),
{
    if s.len() == 0 {
        s
    } else if !is_gap(s.last()) {
        collapse(s.drop_last()).push(s.last())
    } else if s.len() >= 2 && is_gap(s[s.len() - 2]) {
        collapse(s.drop_last())
    } else {
        collapse(s.drop_last()).push(' ')
    }
}

/// The text without its leading white space.
pub open spec fn without_leading(s: Seq<char>) -> Seq<char>
    decreases s.len(),
{
    if s.len() > 0 && is_white_space(s[0]) {
        without_leading(s.drop_first())
    } else {
        s
    }
}

/// The text without its trailing white space.
pub open spec fn without_trailing(s: Seq<char>) -> Seq<char>
    decreases s.len(),
{
    if s.len() > 0 && is_white_space(s.last()) {
        without_trailing(s.drop_last())
    } else {
        s
    }
}

/// The text without its leading and trailing white space.
pub open spec fn trimmed(s: Seq<char>) -> Seq<char> {
    without_trailing(without_leading(s))
}

/// The text after `prefix` has been taken from its front as often as it
/// stands there. An empty prefix takes nothing.
pub open spec fn strip_repeated(s: Seq<char>, prefix: Seq<char>) -> Seq<char>
    decreases s.len(),
{
    if prefix.len() > 0 && prefix.is_prefix_of(s) {
        strip_repeated(s.skip(prefix.len() as int), prefix)
    } else {
        s
    }
}

/// The fragments joined in order, with nothing between them.
pub open spec fn concat(fragments: Seq<Seq<char>>) -> Seq<char>
    decreases fragments.len(),
{
    if fragments.len() == 0 {
        Seq::empty()
    } else {
        concat(fragments.drop_last()) + fragments.last()
    }
}

/// The canonical form of a text: gap runs collapsed, then trimmed.
pub open spec fn normalized(s: Seq<char>) -> Seq<char> {
    trimmed(collapse(s))
}

/// `str::trim` returns the slice without leading and trailing white space,
/// where white space is what the Unicode property `White_Space` covers.
pub assume_specification<'a>[ str::trim ](text: &'a str) -> (inner: &'a str)
    ensures
        inner@ == trimmed(text@),
;

/// The regular expression for a run of gap characters: one or more of line
/// feed, no-break space and space.
pub open spec fn gap_pattern() -> Seq<char> {
    r"(\n|\u{A0}| )+"@
}

/// What a run of gap characters is replaced by: one space.
pub open spec fn gap_replacement() -> Seq<char> {
    " "@
}

/// Compiles `pattern` with `Regex::new` of the regex crate and calls
/// `Regex::replace_all` with it and `replacement`. The contract is stated
/// for the gap pattern and the single space only. That pattern is a valid
/// one, and the replacement refers to no group. The pattern matches every
/// maximal run of line feeds, no-break spaces and spaces, the matches do not
/// overlap, and each is replaced; the text between them is kept.
#[verifier::external_body]
fn replace_gap_runs(pattern: &str, text: &str, replacement: &str) -> (replaced: String)
    requires
        pattern@ == gap_pattern(),
        replacement@ == gap_replacement(),
    ensures
        replaced@ == collapse(text@),
{
    Regex::new(pattern).unwrap().replace_all(text, replacement).into_owned()
}

/// Calls `str::trim_start_matches` with a string pattern: every leading
/// occurrence of `prefix` is removed, repeatedly.
#[verifier::external_body]
fn strip_leading<'a>(text: &'a str, prefix: &str) -> (rest: &'a str)
    requires
        prefix@.len() > 0,
    ensures
        rest@ == strip_repeated(text@, prefix@),
{
    text.trim_start_matches(prefix)
}

/// Brings one text to its canonical form.
pub fn normalize_text(text: &str) -> (out: String)
    ensures
        out@ == normalized(text@),
{
    let replaced = replace_gap_runs(r"(\n|\u{A0}| )+", text, " ");
    String::from_str(replaced.as_str().trim())
}

/// Joins the fragments in order, with nothing between them.
pub fn join_fragments(fragments: &Vec<String>) -> (joined: String)
    ensures
        joined@ == concat(fragments.deep_view()),
{
    let mut joined = String::new();
    let mut i: usize = 0;
    while i < fragments.len()
        invariant
            i <= fragments.len(),
            joined@ == concat(fragments.deep_view().take(i as int)),
        decreases fragments.len() - i,
    {
        proof {
            let all = fragments.deep_view();
            assert(all.take(i + 1).drop_last() == all.take(i as int));
            assert(all.take(i + 1).last() == fragments[i as int]@);
        }
        joined.append(fragments[i].as_str());
        i += 1;
    }
    proof {
        let all = fragments.deep_view();
        assert(all.take(fragments.len() as int) == all);
    }
    joined
}

/// Brings the text fragments of one markup subtree to one canonical text:
/// the fragments are joined first and normalized as a whole. No fragments
/// give the empty text.
pub fn normalize(fragments: &Vec<String>) -> (out: String)
    ensures
        out@ == normalized(concat(fragments.deep_view())),
{
    let joined = join_fragments(fragments);
    normalize_text(joined.as_str())
}

/// Removes the leading occurrences of `prefix` from a text.
pub fn strip_prefix(text: &str, prefix: &str) -> (rest: String)
    ensures
        rest@ == strip_repeated(text@, prefix@),
{
    if prefix.is_empty() {
        String::from_str(text)
    } else {
        String::from_str(strip_leading(text, prefix))
    }
}

/// A text is tidy when its only gap characters are single ordinary spaces.
pub open spec fn tidy(s: Seq<char>) -> bool {
    forall|i: int|
        0 <= i < s.len() && is_gap(#[trigger] s[i]) ==> s[i] == ' ' && (i + 1 < s.len()
            ==> !is_gap(s[i + 1]))
}

/// Collapsing leaves a tidy text, which ends in a gap exactly when the
/// given text does.
pub proof fn lemma_collapse_tidy(s: Seq<char>)
    ensures
        tidy(collapse(s)),
        s.len() > 0 ==> collapse(s).len() > 0,
        s.len() > 0 && is_gap(s.last()) ==> collapse(s).last() == ' ',
        s.len() > 0 && !is_gap(s.last()) ==> collapse(s).last() == s.last(),
    decreases s.len(),
{
    if s.len() > 0 {
        let front = s.drop_last();
        lemma_collapse_tidy(front);
        if front.len() > 0 {
            assert(front.last() == s[s.len() - 2]);
        }
    }
}

/// Collapsing changes nothing in a tidy text.
pub proof fn lemma_collapse_of_tidy(s: Seq<char>)
    requires
        tidy(s),
    ensures
        collapse(s) == s,
    decreases s.len(),
{
    if s.len() > 0 {
        let front = s.drop_last();
        assert(tidy(front)) by {
            assert forall|i: int| 0 <= i < front.len() && is_gap(#[trigger] front[i]) implies front[i]
                == ' ' && (i + 1 < front.len() ==> !is_gap(front[i + 1])) by {
                assert(front[i] == s[i]);
            }
        }
        lemma_collapse_of_tidy(front);
        if is_gap(s.last()) {
            assert(s[s.len() - 1] == ' ');
            if s.len() >= 2 {
                assert(is_gap(s[s.len() - 2]) ==> !is_gap(s[s.len() - 2 + 1]));
            }
        }
        assert(front.push(s.last()) == s);
    }
}

/// Trimming at the front keeps a suffix of the text, one that does not
/// start with white space.
pub proof fn lemma_without_leading(s: Seq<char>)
    ensures
        without_leading(s).len() <= s.len(),
        without_leading(s) == s.skip(s.len() - without_leading(s).len()),
        without_leading(s).len() > 0 ==> !is_white_space(without_leading(s)[0]),
    decreases s.len(),
{
    if s.len() > 0 && is_white_space(s[0]) {
        let rest = s.drop_first();
        lemma_without_leading(rest);
        assert(rest.skip(rest.len() - without_leading(rest).len()) == s.skip(
            s.len() - without_leading(rest).len(),
        ));
    } else {
        assert(s.skip(0) == s);
    }
}

/// Trimming at the end keeps a prefix of the text, one that does not end
/// with white space.
pub proof fn lemma_without_trailing(s: Seq<char>)
    ensures
        without_trailing(s).len() <= s.len(),
        without_trailing(s) == s.take(without_trailing(s).len() as int),
        without_trailing(s).len() > 0 ==> !is_white_space(without_trailing(s).last()),
    decreases s.len(),
{
    if s.len() > 0 && is_white_space(s.last()) {
        let front = s.drop_last();
        lemma_without_trailing(front);
        assert(front.take(without_trailing(front).len() as int) == s.take(without_trailing(front).len() as int));
    } else {
        assert(s.take(s.len() as int) == s);
    }
}

/// A trimmed text is a stretch of the given text that neither starts nor ends
/// with white space.
pub proof fn lemma_trimmed_is_stretch(s: Seq<char>)
    ensures
        trimmed(s).len() <= s.len(),
        exists|from: int|
            0 <= from && from + trimmed(s).len() <= s.len() && trimmed(s) == #[trigger] s.subrange(
                from,
                from + trimmed(s).len(),
            ),
        trimmed(s).len() > 0 ==> !is_white_space(trimmed(s)[0]) && !is_white_space(trimmed(s).last()),
{
    let inner = without_leading(s);
    lemma_without_leading(s);
    lemma_without_trailing(inner);
    let from = s.len() - inner.len();
    assert(trimmed(s) == s.subrange(from, from + trimmed(s).len()));
    if trimmed(s).len() > 0 {
        assert(trimmed(s)[0] == inner[0]);
    }
}

/// Trimming changes nothing in a text that neither starts nor ends with
/// white space.
pub proof fn lemma_trimmed_again(s: Seq<char>)
    requires
        s.len() > 0 ==> !is_white_space(s[0]) && !is_white_space(s.last()),
    ensures
        trimmed(s) == s,
{
}

/// A stretch of a tidy text is tidy.
pub proof fn lemma_tidy_stretch(s: Seq<char>, from: int, to: int)
    requires
        tidy(s),
        0 <= from <= to <= s.len(),
    ensures
        tidy(s.subrange(from, to)),
{
    let part = s.subrange(from, to);
    assert forall|i: int| 0 <= i < part.len() && is_gap(#[trigger] part[i]) implies part[i] == ' '
        && (i + 1 < part.len() ==> !is_gap(part[i + 1])) by {
        assert(part[i] == s[from + i]);
        if i + 1 < part.len() {
            assert(part[i + 1] == s[from + i + 1]);
        }
    }
}

/// A normalized text is tidy and neither starts nor ends with white space.
pub proof fn lemma_normalized_shape(s: Seq<char>)
    ensures
        tidy(normalized(s)),
        normalized(s).len() > 0 ==> !is_white_space(normalized(s)[0]) && !is_white_space(
            normalized(s).last(),
        ),
{
    let collapsed = collapse(s);
    lemma_collapse_tidy(s);
    lemma_trimmed_is_stretch(collapsed);
    let out = trimmed(collapsed);
    let from = choose|from: int|
        0 <= from && from + out.len() <= collapsed.len() && out == #[trigger] collapsed.subrange(
            from,
            from + out.len(),
        );
    lemma_tidy_stretch(collapsed, from, from + out.len());
}

/// Normalizing is idempotent: a normalized text is its own normal form.
pub proof fn lemma_normalize_idempotent(s: Seq<char>)
    ensures
        normalized(normalized(s)) == normalized(s),
{
    let once = normalized(s);
    lemma_normalized_shape(s);
    lemma_collapse_of_tidy(once);
    lemma_trimmed_again(once);
}

/// No fragments give the empty text.
pub proof fn lemma_normalize_nothing()
    ensures
        normalized(concat(Seq::<Seq<char>>::empty())) == Seq::<char>::empty(),
{
}

} // verus!
