//! Styled lines, and the search through them.

use crate::text::{contains, contains_run, lowercase, to_lowercase};
use vstd::prelude::*;

verus! {

/// Style information for a span.
#[derive(Clone, Copy, Debug)]
pub struct LineStyle {
    pub fg: Option<(u8, u8, u8)>,
    pub bold: bool,
    pub dimmed: bool,
    pub italic: bool,
}

impl Default for LineStyle {
    fn default() -> (r: Self)
        ensures
            r == unstyled(),
    {
        LineStyle { fg: None, bold: false, dimmed: false, italic: false }
    }
}

/// The style of plain text.
pub open spec fn unstyled() -> LineStyle {
    LineStyle { fg: None, bold: false, dimmed: false, italic: false }
}

/// Text in a color and nothing more.
pub open spec fn colored(color: (u8, u8, u8)) -> LineStyle {
    LineStyle { fg: Some(color), ..unstyled() }
}

/// A single rendered line with its spans.
#[derive(Debug)]
pub struct RenderedLine {
    pub spans: Vec<(String, LineStyle)>,
}

/// What spans show.
pub open spec fn spans_view(spans: Seq<(String, LineStyle)>) -> Seq<(Seq<char>, LineStyle)> {
    spans.map_values(|s: (String, LineStyle)| (s.0@, s.1))
}

impl View for RenderedLine {
    type V = Seq<(Seq<char>, LineStyle)>;

    open spec fn view(&self) -> Seq<(Seq<char>, LineStyle)> {
        spans_view(self.spans@)
    }
}

/// What lines show.
pub open spec fn lines_view(lines: Seq<RenderedLine>) -> Seq<Seq<(Seq<char>, LineStyle)>> {
    lines.map_values(|l: RenderedLine| l@)
}

/// The text of a line without its styles.
pub open spec fn line_text(line: Seq<(Seq<char>, LineStyle)>) -> Seq<char>
    decreases line.len(),
{
    if line.len() == 0 {
        Seq::empty()
    } else {
        line_text(line.drop_last()) + line.last().0
    }
}

/// The text of a line without its styles.
pub fn text_of_line(line: &RenderedLine) -> (r: String)
    ensures
        r@ == line_text(line@),
{
    let mut out: String = String::new();
    for i in 0..line.spans.len()
        invariant
            out@ == line_text(line@.take(i as int)),
            line@.len() == line.spans@.len(),
    {
        out.append(line.spans[i].0.as_str());
        assert(line@.take(i + 1).drop_last() =~= line@.take(i as int));
    }
    assert(line@.take(line@.len() as int) =~= line@);
    out
}

/// Whether a line holds the query, upper and lower case alike.
pub open spec fn matches_query(line: Seq<(Seq<char>, LineStyle)>, query_lower: Seq<char>) -> bool {
    contains_run(lowercase(line_text(line)), query_lower)
}

/// Check if a rendered line matches the search query by concatenating all span texts.
/// This allows multi-word queries to match across span boundaries.
pub fn line_matches_query(line: &RenderedLine, query_lower: &str) -> (r: bool)
    ensures
        r == matches_query(line@, query_lower@),
{
    let full_text: String = text_of_line(line);
    contains(to_lowercase(full_text.as_str()).as_str(), query_lower)
}

/// The indices, in ascending order, of the first `n` lines that match the query.
pub open spec fn matches_among(
    lines: Seq<Seq<(Seq<char>, LineStyle)>>,
    query_lower: Seq<char>,
    n: nat,
) -> Seq<usize>
    decreases n,
{
    if n == 0 {
        Seq::empty()
    } else {
        let rest = matches_among(lines, query_lower, (n - 1) as nat);
        if matches_query(lines[n - 1], query_lower) {
            rest.push((n - 1) as usize)
        } else {
            rest
        }
    }
}

/// The indices, in ascending order, of the lines that match the query.
pub open spec fn match_lines(
    lines: Seq<Seq<(Seq<char>, LineStyle)>>,
    query_lower: Seq<char>,
) -> Seq<usize> {
    matches_among(lines, query_lower, lines.len())
}

proof fn lemma_matches_among(
    lines: Seq<Seq<(Seq<char>, LineStyle)>>,
    query_lower: Seq<char>,
    n: nat,
)
    requires
        n <= lines.len() <= usize::MAX,
    ensures
        ({
            let m = matches_among(lines, query_lower, n);
            &&& forall|a: int, b: int| 0 <= a < b < m.len() ==> #[trigger] m[a] < #[trigger] m[b]
            &&& forall|a: int| 0 <= a < m.len() ==> #[trigger] m[a] < n
            &&& forall|i: usize|
                i < n ==> (#[trigger] m.contains(i) <==> matches_query(lines[i as int], query_lower))
        }),
    decreases n,
{
    if n > 0 {
        lemma_matches_among(lines, query_lower, (n - 1) as nat);
        let rest = matches_among(lines, query_lower, (n - 1) as nat);
        let m = matches_among(lines, query_lower, n);
        assert forall|i: usize| i < n implies (#[trigger] m.contains(i) <==> matches_query(
            lines[i as int],
            query_lower,
        )) by {
            if i < n - 1 {
                assert(rest.contains(i) <==> matches_query(lines[i as int], query_lower));
                if rest.contains(i) {
                    let k = choose|k: int| 0 <= k < rest.len() && rest[k] == i;
                    assert(m[k] == i);
                }
                if m.contains(i) {
                    let k = choose|k: int| 0 <= k < m.len() && m[k] == i;
                    assert(rest[k] == i);
                }
            } else {
                if matches_query(lines[i as int], query_lower) {
                    assert(m[rest.len() as int] == i);
                } else if m.contains(i) {
                    let k = choose|k: int| 0 <= k < m.len() && m[k] == i;
                    assert(rest[k] < n - 1);
                }
            }
        }
    }
}

/// A search lists every matching line once, from top to bottom, and no other line.
pub proof fn law_search_lists_the_matching_lines(
    lines: Seq<Seq<(Seq<char>, LineStyle)>>,
    query_lower: Seq<char>,
)
    requires
        lines.len() <= usize::MAX,
    ensures
        ({
            let m = match_lines(lines, query_lower);
            &&& forall|a: int, b: int| 0 <= a < b < m.len() ==> #[trigger] m[a] < #[trigger] m[b]
            &&& forall|a: int| 0 <= a < m.len() ==> #[trigger] m[a] < lines.len()
            &&& forall|i: usize|
                i < lines.len() ==> (#[trigger] m.contains(i) <==> matches_query(
                    lines[i as int],
                    query_lower,
                ))
        }),
{
    lemma_matches_among(lines, query_lower, lines.len());
}

/// The indices, in ascending order, of the lines that match the query.
pub fn find_matches(lines: &Vec<RenderedLine>, query_lower: &str) -> (r: Vec<usize>)
    ensures
        r@ == match_lines(lines_view(lines@), query_lower@),
{
    let mut out: Vec<usize> = Vec::new();
    for i in 0..lines.len()
        invariant
            out@ == matches_among(lines_view(lines@), query_lower@, i as nat),
    {
        assert(lines_view(lines@)[i as int] == lines@[i as int]@);
        if line_matches_query(&lines[i], query_lower) {
            out.push(i);
        }
    }
    out
}

/// The text of a line is that of its spans, one after the other, whatever their styles.
pub proof fn law_line_text_is_that_of_its_spans(
    a: Seq<(Seq<char>, LineStyle)>,
    b: Seq<(Seq<char>, LineStyle)>,
    text: Seq<char>,
    style: LineStyle,
)
    ensures
        line_text(a + b) == line_text(a) + line_text(b),
        line_text(seq![(text, style)]) == text,
        line_text(Seq::empty()).len() == 0,
    decreases b.len(),
{
    let one = seq![(text, style)];
    assert(one.drop_last() =~= Seq::empty());
    assert(line_text(Seq::<(Seq<char>, LineStyle)>::empty()) =~= Seq::<char>::empty());
    assert(line_text(one) == line_text(one.drop_last()) + one.last().0);
    assert(line_text(one) =~= text);
    if b.len() == 0 {
        assert(a + b =~= a);
        assert(line_text(a) + line_text(b) =~= line_text(a));
    } else {
        law_line_text_is_that_of_its_spans(a, b.drop_last(), text, style);
        assert((a + b).drop_last() =~= a + b.drop_last());
        assert(line_text(a + b) =~= line_text(a) + line_text(b));
    }
}

/// A line matches a query exactly where its text in lower case is some text, then the query, then
/// some text.
pub proof fn law_matching_lines_hold_the_query(
    line: Seq<(Seq<char>, LineStyle)>,
    query_lower: Seq<char>,
)
    ensures
        matches_query(line, query_lower) <==> exists|a: Seq<char>, b: Seq<char>|
            lowercase(line_text(line)) == #[trigger] (a + query_lower + b),
{
    crate::text::law_containing_is_having_a_middle(lowercase(line_text(line)), query_lower);
}

} // verus!
