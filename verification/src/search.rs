//! Searching a document.
use crate::buffer::{line_char_count, Document};
use crate::cursor::Position;
#[allow(unused_imports)]
use crate::cursor::{not_after, start_pos, Pos};
#[allow(unused_imports)]
use crate::laws::text_between;
#[allow(unused_imports)]
use crate::model::{end_pos, in_bounds};
use crate::text::{find_from, owned, rfind_to, to_chars};
#[allow(unused_imports)]
use crate::text::occurs_at;
use vstd::prelude::*;

verus! {

/// A place where the query stands.
#[derive(Debug, Clone, Copy, PartialEq, Eq, Structural)]
pub struct SearchMatch {
    pub start: Position,
    pub end: Position,
}

/// What is searched for, and where it was found last.
#[derive(Debug)]
pub struct SearchState {
    pub query: String,
    pub last_match: Option<SearchMatch>,
}

/// A match in mathematical integers.
pub struct Hit {
    pub start: Pos,
    pub end: Pos,
}

/// A search in mathematical terms.
#[verifier::ext_equal]
pub struct SearchModel {
    pub query: Seq<char>,
    pub last_match: Option<Hit>,
}

impl View for SearchMatch {
    type V = Hit;

    open spec fn view(&self) -> Hit {
        Hit { start: self.start@, end: self.end@ }
    }
}

/// The view of an optional match.
pub open spec fn opt_hit(m: Option<SearchMatch>) -> Option<Hit> {
    match m {
        Some(found) => Some(found@),
        None => None,
    }
}

impl View for SearchState {
    type V = SearchModel;

    open spec fn view(&self) -> SearchModel {
        SearchModel { query: self.query@, last_match: opt_hit(self.last_match) }
    }
}

/// The view of an optional search.
pub open spec fn opt_search(s: Option<SearchState>) -> Option<SearchModel> {
    match s {
        Some(search) => Some(search@),
        None => None,
    }
}

impl SearchState {
    /// A search that has found nothing yet.
    pub fn new(query: String) -> (out: Self)
        ensures
            out@ == (SearchModel { query: query@, last_match: None }),
    {
        SearchState { query, last_match: None }
    }
}

/// A copy of an optional search.
pub fn copy_search(s: &Option<SearchState>) -> (out: Option<SearchState>)
    ensures
        opt_search(out) == opt_search(*s),
{
    match s {
        Some(search) => Some(
            SearchState { query: owned(search.query.as_str()), last_match: search.last_match },
        ),
        None => None,
    }
}

/// The query stands in the text at a position.
pub open spec fn stands_at(lines: Seq<Seq<char>>, query: Seq<char>, p: Pos) -> bool {
    0 <= p.line < lines.len() && occurs_at(lines[p.line], query, p.column)
}

/// The match that starts at a position.
pub open spec fn hit_at(query: Seq<char>, p: Pos) -> Hit {
    Hit { start: p, end: Pos { column: p.column + query.len(), ..p } }
}

/// The query stands at `p`, at or after `from`.
pub open spec fn stands_after(lines: Seq<Seq<char>>, query: Seq<char>, from: Pos, p: Pos) -> bool {
    stands_at(lines, query, p) && not_after(from, p)
}

/// The query stands at `p` and ends at or before `from`.
pub open spec fn stands_before(lines: Seq<Seq<char>>, query: Seq<char>, from: Pos, p: Pos) -> bool {
    stands_at(lines, query, p) && not_after(hit_at(query, p).end, from)
}

/// `p` is the first place at or after `from` where the query stands.
pub open spec fn first_after(lines: Seq<Seq<char>>, query: Seq<char>, from: Pos, p: Pos) -> bool {
    &&& stands_after(lines, query, from, p)
    &&& forall|q: Pos| #[trigger] stands_after(lines, query, from, q) ==> not_after(p, q)
}

/// `p` is the last place where the query stands and ends at or before `from`.
pub open spec fn last_before(lines: Seq<Seq<char>>, query: Seq<char>, from: Pos, p: Pos) -> bool {
    &&& stands_before(lines, query, from, p)
    &&& forall|q: Pos| #[trigger] stands_before(lines, query, from, q) ==> not_after(q, p)
}

/// The first match at or after `from`. Nothing matches an empty query.
pub open spec fn forward_match(lines: Seq<Seq<char>>, query: Seq<char>, from: Pos) -> Option<Hit> {
    if query.len() > 0 && exists|p: Pos| first_after(lines, query, from, p) {
        Some(hit_at(query, choose|p: Pos| first_after(lines, query, from, p)))
    } else {
        None
    }
}

/// The last match that ends at or before `from`. Nothing matches an empty
/// query.
pub open spec fn backward_match(lines: Seq<Seq<char>>, query: Seq<char>, from: Pos) -> Option<Hit> {
    if query.len() > 0 && exists|p: Pos| last_before(lines, query, from, p) {
        Some(hit_at(query, choose|p: Pos| last_before(lines, query, from, p)))
    } else {
        None
    }
}

/// Where the next search starts: behind the last match, else at the cursor.
pub open spec fn search_origin(search: SearchModel, cursor: Pos, reverse: bool) -> Pos {
    match search.last_match {
        Some(hit) => if reverse {
            hit.start
        } else {
            hit.end
        },
        None => cursor,
    }
}

/// The next match, going round past the end of the text, or past its start
/// when searching backward.
pub open spec fn next_match(
    lines: Seq<Seq<char>>,
    query: Seq<char>,
    from: Pos,
    reverse: bool,
) -> Option<Hit> {
    if reverse {
        match backward_match(lines, query, from) {
            Some(hit) => Some(hit),
            None => backward_match(lines, query, end_pos(lines)),
        }
    } else {
        match forward_match(lines, query, from) {
            Some(hit) => Some(hit),
            None => forward_match(lines, query, start_pos()),
        }
    }
}

pub proof fn lemma_forward_match(lines: Seq<Seq<char>>, query: Seq<char>, from: Pos, p: Pos)
    requires
        query.len() > 0,
        first_after(lines, query, from, p),
    ensures
        forward_match(lines, query, from) == Some(hit_at(query, p)),
{
    let q = choose|q: Pos| first_after(lines, query, from, q);
    assert(first_after(lines, query, from, q));
    assert(not_after(p, q) && not_after(q, p));
    assert(p == q);
}

pub proof fn lemma_backward_match(lines: Seq<Seq<char>>, query: Seq<char>, from: Pos, p: Pos)
    requires
        query.len() > 0,
        last_before(lines, query, from, p),
    ensures
        backward_match(lines, query, from) == Some(hit_at(query, p)),
{
    let q = choose|q: Pos| last_before(lines, query, from, q);
    assert(last_before(lines, query, from, q));
    assert(not_after(p, q) && not_after(q, p));
    assert(p == q);
}

/// The first match at or after `from`.
pub fn find_match_forward(document: &Document, query: &str, from: Position) -> (out: Option<
    SearchMatch,
>)
    requires
        document.wf(),
    ensures
        opt_hit(out) == forward_match(document@.text.lines, query@, from@),
{
    if query.is_empty() {
        return None;
    }
    let ghost lines = document@.text.lines;
    let needle = to_chars(query);
    let count: usize = document.line_count();
    let mut line_idx: usize = from.line;
    while line_idx < count
        invariant
            document.wf(),
            lines == document@.text.lines,
            count == lines.len(),
            needle@ == query@,
            query@.len() > 0,
            from.line <= line_idx,
            forall|q: Pos|
                #[trigger] stands_after(lines, query@, from@, q) ==> q.line >= line_idx,
        decreases count - line_idx,
    {
        if let Some(line) = document.line(line_idx) {
            let start_col: usize = if line_idx == from.line {
                from.column
            } else {
                0
            };
            let hay = to_chars(line);
            let width: usize = hay.len();
            let found = find_from(&hay, &needle, start_col);
            if let Some(column) = found {
                let start = Position::new(line_idx, column);
                let end = Position::new(line_idx, column + needle.len());
                proof {
                    assert(stands_after(lines, query@, from@, start@));
                    assert forall|q: Pos| #[trigger]
                        stands_after(lines, query@, from@, q) implies not_after(start@, q) by {
                        if q.line == line_idx {
                            assert(occurs_at(hay@, needle@, q.column));
                            assert(q.column >= start_col);
                        }
                    }
                    lemma_forward_match(lines, query@, from@, start@);
                }
                return Some(SearchMatch { start, end });
            }
            proof {
                assert forall|q: Pos| #[trigger]
                    stands_after(lines, query@, from@, q) implies q.line >= line_idx + 1 by {
                    if q.line == line_idx {
                        assert(occurs_at(hay@, needle@, q.column));
                        assert(q.column >= start_col);
                    }
                }
            }
        }
        line_idx += 1;
    }
    proof {
        assert forall|p: Pos| !first_after(lines, query@, from@, p) by {
            if first_after(lines, query@, from@, p) {
                assert(stands_after(lines, query@, from@, p));
            }
        }
    }
    None
}

/// The last match that ends at or before `from`.
pub fn find_match_reverse(document: &Document, query: &str, from: Position) -> (out: Option<
    SearchMatch,
>)
    requires
        document.wf(),
    ensures
        opt_hit(out) == backward_match(document@.text.lines, query@, from@),
{
    if query.is_empty() {
        return None;
    }
    let ghost lines = document@.text.lines;
    let needle = to_chars(query);
    let count: usize = document.line_count();
    let mut above: usize = if from.line < count {
        from.line + 1
    } else {
        count
    };
    while above > 0
        invariant
            document.wf(),
            lines == document@.text.lines,
            count == lines.len(),
            needle@ == query@,
            query@.len() > 0,
            above <= count,
            above <= from.line + 1,
            forall|q: Pos|
                #[trigger] stands_before(lines, query@, from@, q) ==> q.line < above,
        decreases above,
    {
        let line_idx: usize = above - 1;
        if let Some(line) = document.line(line_idx) {
            let hay = to_chars(line);
            let end_col: usize = if line_idx == from.line && from.column < hay.len() {
                from.column
            } else {
                hay.len()
            };
            let found = rfind_to(&hay, &needle, end_col);
            if let Some(column) = found {
                let start = Position::new(line_idx, column);
                let end = Position::new(line_idx, column + needle.len());
                proof {
                    assert(stands_before(lines, query@, from@, start@));
                    assert forall|q: Pos| #[trigger]
                        stands_before(lines, query@, from@, q) implies not_after(q, start@) by {
                        if q.line == line_idx {
                            assert(occurs_at(hay@, needle@, q.column));
                            assert(q.column + needle@.len() <= end_col);
                        }
                    }
                    lemma_backward_match(lines, query@, from@, start@);
                }
                return Some(SearchMatch { start, end });
            }
            proof {
                assert forall|q: Pos| #[trigger]
                    stands_before(lines, query@, from@, q) implies q.line < line_idx by {
                    if q.line == line_idx {
                        assert(occurs_at(hay@, needle@, q.column));
                        assert(q.column + needle@.len() <= end_col);
                    }
                }
            }
        }
        above = line_idx;
    }
    proof {
        assert forall|p: Pos| !last_before(lines, query@, from@, p) by {
            if last_before(lines, query@, from@, p) {
                assert(stands_before(lines, query@, from@, p));
            }
        }
    }
    None
}

/// The last position of the text.
pub fn document_end_position(document: &Document) -> (out: Position)
    requires
        document.wf(),
    ensures
        out@ == end_pos(document@.text.lines),
{
    let line: usize = document.line_count() - 1;
    let column: usize = match document.line(line) {
        Some(text) => line_char_count(text),
        None => 0,
    };
    Position::new(line, column)
}

/// The next match, going round past the end of the text.
pub fn find_match(document: &Document, query: &str, from: Position, reverse: bool) -> (out: Option<
    SearchMatch,
>)
    requires
        document.wf(),
    ensures
        opt_hit(out) == next_match(document@.text.lines, query@, from@, reverse),
{
    if reverse {
        match find_match_reverse(document, query, from) {
            Some(found) => Some(found),
            None => find_match_reverse(document, query, document_end_position(document)),
        }
    } else {
        match find_match_forward(document, query, from) {
            Some(found) => Some(found),
            None => find_match_forward(document, query, Position::origin()),
        }
    }
}

/// The first place among those where the query stands exists as soon as there
/// is one.
pub proof fn lemma_first_exists(lines: Seq<Seq<char>>, query: Seq<char>, from: Pos, p: Pos)
    requires
        stands_after(lines, query, from, p),
    ensures
        exists|q: Pos| first_after(lines, query, from, q),
    decreases p.line, p.column,
{
    if !first_after(lines, query, from, p) {
        let q = choose|q: Pos| #[trigger]
            stands_after(lines, query, from, q) && !not_after(p, q);
        lemma_first_exists(lines, query, from, q);
    }
}

pub proof fn lemma_last_exists(lines: Seq<Seq<char>>, query: Seq<char>, from: Pos, p: Pos)
    requires
        stands_before(lines, query, from, p),
    ensures
        exists|q: Pos| last_before(lines, query, from, q),
    decreases lines.len() - p.line, lines[p.line].len() - p.column,
{
    if !last_before(lines, query, from, p) {
        let q = choose|q: Pos| #[trigger]
            stands_before(lines, query, from, q) && !not_after(q, p);
        lemma_last_exists(lines, query, from, q);
    }
}

/// Wherever a search starts and whichever way it goes, it finds a match if and
/// only if the query stands somewhere in the text.
pub proof fn law_search_is_complete(
    lines: Seq<Seq<char>>,
    query: Seq<char>,
    from: Pos,
    reverse: bool,
)
    requires
        lines.len() > 0,
        query.len() > 0,
    ensures
        next_match(lines, query, from, reverse) is Some <==> exists|p: Pos|
            stands_at(lines, query, p),
{
    if exists|p: Pos| stands_at(lines, query, p) {
        let p = choose|p: Pos| stands_at(lines, query, p);
        if reverse {
            assert(stands_before(lines, query, end_pos(lines), p));
            lemma_last_exists(lines, query, end_pos(lines), p);
        } else {
            assert(stands_after(lines, query, start_pos(), p));
            lemma_first_exists(lines, query, start_pos(), p);
        }
    }
    if next_match(lines, query, from, reverse) is Some {
        law_found_text_is_the_query(lines, query, from, reverse);
    }
}

/// What a search finds lies in the text and reads like the query.
pub proof fn law_found_text_is_the_query(
    lines: Seq<Seq<char>>,
    query: Seq<char>,
    from: Pos,
    reverse: bool,
)
    requires
        lines.len() > 0,
        next_match(lines, query, from, reverse) is Some,
    ensures
        ({
            let hit = next_match(lines, query, from, reverse)->0;
            &&& stands_at(lines, query, hit.start)
            &&& hit == hit_at(query, hit.start)
            &&& in_bounds(lines, hit.start)
            &&& in_bounds(lines, hit.end)
            &&& text_between(lines, hit.start, hit.end) == query
        }),
{
    let hit = next_match(lines, query, from, reverse)->0;
    let p = hit.start;
    if reverse {
        if backward_match(lines, query, from) is Some {
            assert(last_before(lines, query, from, p));
        } else {
            assert(last_before(lines, query, end_pos(lines), p));
        }
    } else {
        if forward_match(lines, query, from) is Some {
            assert(first_after(lines, query, from, p));
        } else {
            assert(first_after(lines, query, start_pos(), p));
        }
    }
}

/// Without going round, a search from the end of a match finds a later one,
/// and a search back from its start an earlier one.
pub proof fn law_searches_advance(lines: Seq<Seq<char>>, query: Seq<char>, hit: Hit)
    ensures
        forward_match(lines, query, hit.end) matches Some(next) ==> not_after(hit.end, next.start),
        backward_match(lines, query, hit.start) matches Some(prev) ==> not_after(
            prev.end,
            hit.start,
        ),
{
    if forward_match(lines, query, hit.end) is Some {
        let p = choose|p: Pos| first_after(lines, query, hit.end, p);
        assert(first_after(lines, query, hit.end, p));
    }
    if backward_match(lines, query, hit.start) is Some {
        let p = choose|p: Pos| last_before(lines, query, hit.start, p);
        assert(last_before(lines, query, hit.start, p));
    }
}

} // verus!
