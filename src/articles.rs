//! Splitting a document into articles at its classification markers.
use vstd::prelude::*;
use crate::pattern::{match_starts, pattern_compiles, regex_match_starts, regex_replaced, rewrite, PatternError};
use crate::text::{string_of_range, string_views, to_chars, trim, trim_range};

verus! {

/// A classification code, perhaps set in bold and followed by a stray brace.
pub const MARKER_NOISY: &'static str = r"\s*(?:\{\\bfseries\s+)?((?:IRSTI|ҒТАМР|МРНТИ|ГРНТИ)[0-9. ]*)\}?";
/// The canonical form that a classification code is rewritten to.
pub const MARKER_CANONICAL: &'static str = r"\id{$1}{}";
/// A classification code in canonical form.
pub const MARKER: &'static str = r"\\id\{(?:МРНТИ|IRSTI|ҒТАМР|ГРНТИ)[0-9 .,]*\}\{\}";

/// The articles of `text` whose markers start at `starts`: each runs from
/// one marker to the next, the last to the end of the text, all trimmed;
/// what precedes the first marker is no article. Without markers the whole
/// text is one article.
pub open spec fn articles_at(text: Seq<char>, starts: Seq<usize>) -> Seq<Seq<char>> {
    if starts.len() == 0 {
        seq![trim(text)]
    } else {
        let inner = Seq::new(
            (starts.len() - 1) as nat,
            |i: int| trim(text.subrange(starts[i] as int, starts[i + 1] as int)),
        );
        if starts.last() < text.len() {
            inner.push(trim(text.subrange(starts.last() as int, text.len() as int)))
        } else {
            inner
        }
    }
}

/// `s` with each classification code put in canonical form.
pub open spec fn markers_normalized(s: Seq<char>) -> Seq<char> {
    regex_replaced(MARKER_NOISY@, s, MARKER_CANONICAL@)
}

/// The articles of `s`, split at the canonical markers of its normalized form.
pub open spec fn articles(s: Seq<char>) -> Seq<Seq<char>> {
    let n = markers_normalized(s);
    articles_at(n, regex_match_starts(MARKER@, n))
}

/// Both rules of the splitter compile.
pub open spec fn splitter_compiles() -> bool {
    pattern_compiles(MARKER_NOISY@) && pattern_compiles(MARKER@)
}

/// Text without markers is one article: the whole text, trimmed.
pub proof fn lemma_no_marker_one_article(text: Seq<char>)
    ensures
        articles_at(text, Seq::empty()) == seq![trim(text)],
{
}

/// Text with two markers, the second before its end, gives two articles:
/// from the first marker to the second, and from the second to the end.
pub proof fn lemma_two_markers_two_articles(text: Seq<char>, starts: Seq<usize>)
    requires
        starts.len() == 2,
        starts[0] <= starts[1] < text.len(),
    ensures
        articles_at(text, starts) == seq![
            trim(text.subrange(starts[0] as int, starts[1] as int)),
            trim(text.subrange(starts[1] as int, text.len() as int)),
        ],
{
    assert(articles_at(text, starts) =~= seq![
        trim(text.subrange(starts[0] as int, starts[1] as int)),
        trim(text.subrange(starts[1] as int, text.len() as int)),
    ]);
}

/// The articles of `text` whose markers start at the character positions
/// `starts` (see `articles_at`).
pub fn split_at_markers(text: &str, starts: &Vec<usize>) -> (r: Vec<String>)
    requires
        forall|i: int| 0 <= i < starts@.len() ==> starts@[i] <= text@.len(),
        forall|i: int, j: int| 0 <= i <= j < starts@.len() ==> starts@[i] <= starts@[j],
    ensures
        string_views(r@) == articles_at(text@, starts@),
{
    let chars = to_chars(text);
    let n = chars.len();
    let mut out: Vec<String> = Vec::new();
    if starts.len() == 0 {
        let (a, b) = trim_range(&chars, 0, n);
        out.push(string_of_range(&chars, a, b));
        assert(chars@.subrange(0, n as int) == chars@);
        assert(string_views(out@) =~= articles_at(text@, starts@));
        return out;
    }
    let ghost inner = Seq::new(
        (starts@.len() - 1) as nat,
        |i: int| trim(text@.subrange(starts@[i] as int, starts@[i + 1] as int)),
    );
    let mut k: usize = 1;
    while k < starts.len()
        invariant
            1 <= k <= starts@.len(),
            chars@ == text@,
            n == chars@.len(),
            forall|i: int| 0 <= i < starts@.len() ==> starts@[i] <= text@.len(),
            forall|i: int, j: int| 0 <= i <= j < starts@.len() ==> starts@[i] <= starts@[j],
            inner == Seq::new(
                (starts@.len() - 1) as nat,
                |i: int| trim(text@.subrange(starts@[i] as int, starts@[i + 1] as int)),
            ),
            string_views(out@) =~= inner.take(k - 1),
        decreases starts.len() - k,
    {
        let (a, b) = trim_range(&chars, starts[k - 1], starts[k]);
        let ghost o0 = string_views(out@);
        out.push(string_of_range(&chars, a, b));
        assert(string_views(out@) =~= o0.push(inner[k - 1]));
        assert(inner.take(k as int) =~= inner.take(k - 1).push(inner[k - 1]));
        k += 1;
    }
    assert(inner.take(k - 1) == inner);
    let last = starts[starts.len() - 1];
    if last < n {
        let (a, b) = trim_range(&chars, last, n);
        let ghost o0 = string_views(out@);
        out.push(string_of_range(&chars, a, b));
        assert(string_views(out@) =~= o0.push(trim(text@.subrange(last as int, text@.len() as int))));
    }
    out
}

/// The articles of `text` (see `articles`), or the first rule of the
/// splitter that does not compile.
pub fn split_articles_text(text: &str) -> (r: Result<Vec<String>, PatternError>)
    ensures
        r is Ok <==> splitter_compiles(),
        r matches Ok(v) ==> string_views(v@) == articles(text@),
        r matches Err(e) ==> !pattern_compiles(e.pattern@),
{
    let normalized = match rewrite(MARKER_NOISY, text, MARKER_CANONICAL) {
        Ok(s) => s,
        Err(e) => return Err(e),
    };
    let starts = match match_starts(MARKER, normalized.as_str()) {
        Ok(v) => v,
        Err(e) => return Err(e),
    };
    Ok(split_at_markers(normalized.as_str(), &starts))
}

} // verus!
