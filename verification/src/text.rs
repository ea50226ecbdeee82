//! Strings as sequences of characters: searching, trimming and splitting.
use crate::chars::{is_whitespace, to_lower};
#[allow(unused_imports)]
use crate::chars::{lower, whitespace};
use vstd::prelude::*;

verus! {

/// `String::push` appends one character to the string.
pub assume_specification[ String::push ](s: &mut String, c: char)
    ensures
        final(s)@ == old(s)@.push(c),
;

/// `needle` stands in `hay` at index `i`.
pub open spec fn occurs_at(hay: Seq<char>, needle: Seq<char>, i: int) -> bool {
    &&& 0 <= i
    &&& i + needle.len() <= hay.len()
    &&& hay.subrange(i, i + needle.len()) == needle
}

/// `needle` stands somewhere in `hay`.
pub open spec fn has_substring(hay: Seq<char>, needle: Seq<char>) -> bool {
    exists|i: int| occurs_at(hay, needle, i)
}

/// `hay` begins with `needle`.
pub open spec fn has_prefix(hay: Seq<char>, needle: Seq<char>) -> bool {
    occurs_at(hay, needle, 0)
}

/// `places` are indexes into `hay`, in rising order, that spell `needle`.
pub open spec fn spells(hay: Seq<char>, needle: Seq<char>, places: Seq<int>) -> bool {
    &&& places.len() == needle.len()
    &&& forall|k: int|
        0 <= k < places.len() ==> 0 <= #[trigger] places[k] < hay.len() && hay[places[k]]
            == needle[k]
    &&& forall|k: int, l: int|
        0 <= k < l < places.len() ==> #[trigger] places[k] < #[trigger] places[l]
}

/// The characters of `needle` appear in `hay` in the same order.
pub open spec fn fuzzy_match(hay: Seq<char>, needle: Seq<char>) -> bool {
    exists|places: Seq<int>| spells(hay, needle, places)
}

/// ASCII lower case, character by character.
pub open spec fn lowered(s: Seq<char>) -> Seq<char> {
    Seq::new(s.len(), |i: int| lower(s[i]))
}

/// The text without leading white space.
pub open spec fn trimmed_start(s: Seq<char>) -> Seq<char>
    decreases s.len(),
{
    if s.len() > 0 && whitespace(s[0]) {
        trimmed_start(s.skip(1))
    } else {
        s
    }
}

/// The text without trailing white space.
pub open spec fn trimmed_end(s: Seq<char>) -> Seq<char>
    decreases s.len(),
{
    if s.len() > 0 && whitespace(s.last()) {
        trimmed_end(s.drop_last())
    } else {
        s
    }
}

/// The text without white space around it.
pub open spec fn trimmed(s: Seq<char>) -> Seq<char> {
    trimmed_end(trimmed_start(s))
}

/// The maximal runs of characters that are not white space.
pub open spec fn words(s: Seq<char>) -> Seq<Seq<char>>
    decreases s.len(),
{
    if s.len() == 0 {
        Seq::empty()
    } else {
        let before = words(s.drop_last());
        let c = s.last();
        if whitespace(c) {
            before
        } else if s.len() == 1 || whitespace(s[s.len() - 2]) || before.len() == 0 {
            before.push(seq![c])
        } else {
            before.drop_last().push(before.last().push(c))
        }
    }
}

/// The pieces of a text between the places where `sep` stands.
pub open spec fn split_on(text: Seq<char>, sep: char) -> Seq<Seq<char>>
    decreases text.len(),
{
    if text.len() == 0 {
        seq![Seq::<char>::empty()]
    } else {
        let before = split_on(text.drop_last(), sep);
        if text.last() == sep {
            before.push(Seq::empty())
        } else {
            before.drop_last().push(before.last().push(text.last()))
        }
    }
}

/// The views of a list of strings.
pub open spec fn texts(v: Seq<String>) -> Seq<Seq<char>> {
    Seq::new(v.len(), |i: int| v[i]@)
}

/// The view of an optional string.
pub open spec fn opt_text(s: Option<String>) -> Option<Seq<char>> {
    match s {
        Some(t) => Some(t@),
        None => None,
    }
}

/// The characters of a string.
pub fn to_chars(s: &str) -> (out: Vec<char>)
    ensures
        out@ == s@,
{
    let mut out: Vec<char> = Vec::new();
    for c in iter: s.chars()
        invariant
            iter.seq() == s@,
            out@ == s@.take(iter.index() as int),
    {
        out.push(c);
    }
    out
}

/// The string made of `s[from..to]`.
pub fn from_chars(s: &Vec<char>, from: usize, to: usize) -> (out: String)
    requires
        from <= to <= s@.len(),
    ensures
        out@ == s@.subrange(from as int, to as int),
{
    let mut out = String::new();
    for i in from..to
        invariant
            from <= i <= to <= s@.len(),
            out@ == s@.subrange(from as int, i as int),
    {
        out.push(s[i]);
    }
    out
}

/// The substring of `s` between two columns.
pub fn slice(s: &str, from: usize, to: usize) -> (out: String)
    requires
        from <= to <= s@.len(),
    ensures
        out@ == s@.subrange(from as int, to as int),
{
    s.substring_char(from, to).to_owned()
}

/// The start of a line, up to a column.
pub open spec fn up_to(line: Seq<char>, column: int) -> Seq<char> {
    if column < line.len() {
        line.take(column)
    } else {
        line
    }
}

/// The start of a line, up to a column.
pub fn slice_to_column(line: &str, column: usize) -> (out: String)
    ensures
        out@ == up_to(line@, column as int),
{
    if column < line.unicode_len() {
        let out = slice(line, 0, column);
        assert(out@ =~= line@.take(column as int));
        out
    } else {
        owned(line)
    }
}

/// An owned copy of a string slice.
pub fn owned(s: &str) -> (out: String)
    ensures
        out@ == s@,
{
    s.to_owned()
}

/// A copy of an optional string.
pub fn copy_opt(s: &Option<String>) -> (out: Option<String>)
    ensures
        opt_text(out) == opt_text(*s),
{
    match s {
        Some(t) => Some(owned(t.as_str())),
        None => None,
    }
}

/// A copy of a list of strings.
pub fn copy_texts(v: &Vec<String>) -> (out: Vec<String>)
    ensures
        texts(out@) == texts(v@),
{
    let mut out: Vec<String> = Vec::new();
    for i in 0..v.len()
        invariant
            out@.len() == i,
            forall|j: int| 0 <= j < i ==> out@[j]@ == #[trigger] v@[j]@,
    {
        out.push(owned(v[i].as_str()));
    }
    out
}

/// Whether two character vectors are equal.
fn chars_equal(a: &Vec<char>, b: &Vec<char>) -> (yes: bool)
    ensures
        yes == (a@ == b@),
{
    if a.len() != b.len() {
        return false;
    }
    for i in 0..a.len()
        invariant
            a@.len() == b@.len(),
            a@.take(i as int) == b@.take(i as int),
    {
        if a[i] != b[i] {
            assert(a@[i as int] != b@[i as int]);
            return false;
        }
        assert(a@.take(i + 1) == a@.take(i as int).push(a@[i as int]));
        assert(b@.take(i + 1) == b@.take(i as int).push(b@[i as int]));
    }
    assert(a@.take(a@.len() as int) == a@);
    assert(b@.take(b@.len() as int) == b@);
    true
}

/// Whether two strings hold the same characters.
pub fn str_equal(a: &str, b: &str) -> (yes: bool)
    ensures
        yes == (a@ == b@),
{
    chars_equal(&to_chars(a), &to_chars(b))
}

/// Whether two optional strings are both absent, or hold the same characters.
pub fn opt_equal(a: &Option<String>, b: &Option<String>) -> (yes: bool)
    ensures
        yes == (opt_text(*a) == opt_text(*b)),
{
    match (a, b) {
        (Some(x), Some(y)) => str_equal(x.as_str(), y.as_str()),
        (None, None) => true,
        _ => false,
    }
}

/// Whether two lists hold the same strings in the same order.
pub fn texts_equal(a: &Vec<String>, b: &Vec<String>) -> (yes: bool)
    ensures
        yes == (texts(a@) == texts(b@)),
{
    if a.len() != b.len() {
        assert(texts(a@).len() != texts(b@).len());
        return false;
    }
    for i in 0..a.len()
        invariant
            a@.len() == b@.len(),
            forall|j: int| 0 <= j < i ==> #[trigger] a@[j]@ == b@[j]@,
    {
        if !str_equal(a[i].as_str(), b[i].as_str()) {
            assert(texts(a@)[i as int] != texts(b@)[i as int]);
            return false;
        }
    }
    assert(texts(a@) =~= texts(b@));
    true
}

/// Whether `needle` stands in `hay` at index `at`.
pub fn matches_at(hay: &Vec<char>, needle: &Vec<char>, at: usize) -> (yes: bool)
    ensures
        yes == occurs_at(hay@, needle@, at as int),
{
    if at > hay.len() || needle.len() > hay.len() - at {
        return false;
    }
    for k in 0..needle.len()
        invariant
            at + needle.len() <= hay.len(),
            forall|j: int| 0 <= j < k ==> hay@[at + j] == #[trigger] needle@[j],
    {
        if hay[at + k] != needle[k] {
            assert(hay@.subrange(at as int, at + needle@.len())[k as int] != needle@[k as int]);
            return false;
        }
    }
    assert(hay@.subrange(at as int, at + needle@.len()) =~= needle@);
    true
}

/// The first place at or after `from` where `needle` stands.
pub fn find_from(hay: &Vec<char>, needle: &Vec<char>, from: usize) -> (at: Option<usize>)
    ensures
        match at {
            Some(i) => from <= i && occurs_at(hay@, needle@, i as int) && forall|j: int|
                from <= j < i ==> !occurs_at(hay@, needle@, j),
            None => forall|j: int| from <= j ==> !occurs_at(hay@, needle@, j),
        },
{
    if needle.len() > hay.len() {
        return None;
    }
    let last: usize = hay.len() - needle.len();
    let mut i: usize = from;
    while i <= last
        invariant
            from <= i,
            last == hay@.len() - needle@.len(),
            last <= hay@.len(),
            forall|j: int| from <= j < i ==> !occurs_at(hay@, needle@, j),
        decreases last + 1 - i,
    {
        if matches_at(hay, needle, i) {
            return Some(i);
        }
        if i == last {
            return None;
        }
        i += 1;
    }
    None
}

/// The last place where `needle` stands within the first `end` characters.
pub fn rfind_to(hay: &Vec<char>, needle: &Vec<char>, end: usize) -> (at: Option<usize>)
    requires
        end <= hay@.len(),
    ensures
        match at {
            Some(i) => i + needle@.len() <= end && occurs_at(hay@, needle@, i as int)
                && forall|j: int| i < j && j + needle@.len() <= end ==> !occurs_at(hay@, needle@, j),
            None => forall|j: int| j + needle@.len() <= end ==> !occurs_at(hay@, needle@, j),
        },
{
    if needle.len() > end {
        return None;
    }
    let mut i: usize = end - needle.len();
    loop
        invariant
            i + needle@.len() <= end <= hay@.len(),
            forall|j: int| i < j && j + needle@.len() <= end ==> !occurs_at(hay@, needle@, j),
        decreases i,
    {
        if matches_at(hay, needle, i) {
            return Some(i);
        }
        if i == 0 {
            return None;
        }
        i -= 1;
    }
}

/// Whether `needle` stands somewhere in `hay`.
pub fn contains(hay: &str, needle: &str) -> (yes: bool)
    ensures
        yes == has_substring(hay@, needle@),
{
    let at = find_from(&to_chars(hay), &to_chars(needle), 0);
    proof {
        if at is None {
            assert forall|i: int| !occurs_at(hay@, needle@, i) by {
                if i >= 0 {
                    assert(!occurs_at(hay@, needle@, i));
                }
            }
        }
    }
    at.is_some()
}

/// Whether `hay` begins with `needle`.
pub fn starts_with(hay: &str, needle: &str) -> (yes: bool)
    ensures
        yes == has_prefix(hay@, needle@),
{
    matches_at(&to_chars(hay), &to_chars(needle), 0)
}

/// A greedy scan never skips past the place of a later character.
proof fn lemma_greedy(hay: Seq<char>, needle: Seq<char>, taken: Seq<int>, done: int)
    requires
        0 <= done <= hay.len(),
        taken.len() < needle.len(),
        forall|places: Seq<int>, k: int|
            #![trigger spells(hay, needle, places), places[k]]
            spells(hay, needle, places) && taken.len() <= k < needle.len() ==> places[k] >= done,
        done == hay.len(),
    ensures
        !fuzzy_match(hay, needle),
{
    if fuzzy_match(hay, needle) {
        let places = choose|places: Seq<int>| spells(hay, needle, places);
        assert(places[taken.len() as int] >= done);
        assert(false);
    }
}

/// Whether the characters of `needle` appear in `haystack` in order.
pub fn is_fuzzy_subsequence(haystack: &str, needle: &str) -> (yes: bool)
    ensures
        yes == fuzzy_match(haystack@, needle@),
{
    let hay = to_chars(haystack);
    let wanted = to_chars(needle);
    let mut matched: usize = 0;
    let ghost mut taken: Seq<int> = Seq::empty();
    for i in 0..hay.len()
        invariant
            hay@ == haystack@,
            wanted@ == needle@,
            taken.len() == matched,
            matched <= wanted@.len(),
            spells(hay@.take(i as int), wanted@.take(matched as int), taken),
            forall|places: Seq<int>, k: int|
                #![trigger spells(hay@, wanted@, places), places[k]]
                spells(hay@, wanted@, places) && matched <= k < wanted@.len() ==> places[k] >= i,
    {
        if matched < wanted.len() && hay[i] == wanted[matched] {
            proof {
                let more = taken.push(i as int);
                assert(spells(hay@.take(i + 1), wanted@.take(matched + 1), more)) by {
                    assert forall|k: int| 0 <= k < more.len() implies 0 <= #[trigger] more[k]
                        < hay@.take(i + 1).len() && hay@.take(i + 1)[more[k]] == wanted@.take(
                        matched + 1,
                    )[k] by {
                        if k < taken.len() {
                            assert(more[k] == taken[k]);
                            assert(hay@.take(i as int)[taken[k]] == wanted@.take(matched as int)[k]);
                        }
                    }
                    assert forall|k: int, l: int| 0 <= k < l < more.len() implies #[trigger] more[k]
                        < #[trigger] more[l] by {
                        assert(more[k] == taken[k]);
                        if l < taken.len() {
                            assert(taken[k] < taken[l]);
                        }
                    }
                }
                assert forall|places: Seq<int>, k: int|
                    #![trigger spells(hay@, wanted@, places), places[k]]
                    spells(hay@, wanted@, places) && matched + 1 <= k < wanted@.len() implies places[k]
                    >= i + 1 by {
                    assert(places[matched as int] < places[k]);
                }
                taken = more;
            }
            matched += 1;
        } else {
            proof {
                assert(spells(hay@.take(i + 1), wanted@.take(matched as int), taken)) by {
                    assert forall|k: int| 0 <= k < taken.len() implies 0 <= #[trigger] taken[k]
                        < hay@.take(i + 1).len() && hay@.take(i + 1)[taken[k]] == wanted@.take(
                        matched as int,
                    )[k] by {
                        assert(hay@.take(i as int)[taken[k]] == wanted@.take(matched as int)[k]);
                    }
                }
                assert forall|places: Seq<int>, k: int|
                    #![trigger spells(hay@, wanted@, places), places[k]]
                    spells(hay@, wanted@, places) && matched <= k < wanted@.len() implies places[k]
                    >= i + 1 by {
                    assert(places[matched as int] >= i);
                    if k > matched {
                        assert(places[matched as int] < places[k]);
                    }
                }
            }
        }
    }
    proof {
        assert(hay@.take(hay@.len() as int) == hay@);
        if matched == wanted@.len() {
            assert(wanted@.take(matched as int) == wanted@);
        } else {
            lemma_greedy(hay@, wanted@, taken, hay@.len() as int);
        }
    }
    matched == wanted.len()
}

/// ASCII lower case of a string.
pub fn to_ascii_lowercase(s: &str) -> (out: String)
    ensures
        out@ == lowered(s@),
{
    let chars = to_chars(s);
    let mut out = String::new();
    for i in 0..chars.len()
        invariant
            chars@ == s@,
            out@ == lowered(s@).take(i as int),
    {
        out.push(to_lower(chars[i]));
    }
    assert(lowered(s@).take(s@.len() as int) == lowered(s@));
    out
}

proof fn lemma_trimmed_start(s: Seq<char>, from: int)
    requires
        0 <= from <= s.len(),
        forall|j: int| 0 <= j < from ==> whitespace(#[trigger] s[j]),
        from < s.len() ==> !whitespace(s[from]),
    ensures
        trimmed_start(s) == s.skip(from),
    decreases from,
{
    if from > 0 {
        let t = s.skip(1);
        assert forall|j: int| 0 <= j < from - 1 implies whitespace(#[trigger] t[j]) by {
            assert(t[j] == s[j + 1]);
        }
        if from < s.len() {
            assert(t[from - 1] == s[from]);
        }
        lemma_trimmed_start(t, from - 1);
        assert(t.skip(from - 1) == s.skip(from));
    } else {
        assert(s.skip(0) == s);
    }
}

proof fn lemma_trimmed_end(s: Seq<char>, to: int)
    requires
        0 <= to <= s.len(),
        forall|j: int| to <= j < s.len() ==> whitespace(#[trigger] s[j]),
        to > 0 ==> !whitespace(s[to - 1]),
    ensures
        trimmed_end(s) == s.take(to),
    decreases s.len(),
{
    if to < s.len() {
        let t = s.drop_last();
        assert forall|j: int| to <= j < t.len() implies whitespace(#[trigger] t[j]) by {
            assert(t[j] == s[j]);
        }
        lemma_trimmed_end(t, to);
        assert(t.take(to) == s.take(to));
    } else {
        assert(s.take(to) == s);
    }
}

/// The string without white space around it.
pub fn trim(s: &str) -> (out: String)
    ensures
        out@ == trimmed(s@),
{
    let chars = to_chars(s);
    let mut from: usize = 0;
    while from < chars.len() && is_whitespace(chars[from])
        invariant
            chars@ == s@,
            from <= chars@.len(),
            forall|j: int| 0 <= j < from ==> whitespace(#[trigger] chars@[j]),
        decreases chars@.len() - from,
    {
        from += 1;
    }
    proof {
        lemma_trimmed_start(s@, from as int);
    }
    let ghost rest = s@.skip(from as int);
    let mut to: usize = chars.len();
    while to > from && is_whitespace(chars[to - 1])
        invariant
            chars@ == s@,
            from <= to <= chars@.len(),
            forall|j: int| to <= j < chars@.len() ==> whitespace(#[trigger] chars@[j]),
        decreases to,
    {
        to -= 1;
    }
    proof {
        assert forall|j: int| to - from <= j < rest.len() implies whitespace(#[trigger] rest[j]) by {
            assert(rest[j] == chars@[j + from]);
        }
        lemma_trimmed_end(rest, to - from);
        assert(rest.take(to - from) == chars@.subrange(from as int, to as int));
    }
    from_chars(&chars, from, to)
}

/// The maximal runs of characters that are not white space, in order.
pub fn split_whitespace(s: &str) -> (out: Vec<String>)
    ensures
        texts(out@) == words(s@),
{
    let chars = to_chars(s);
    let mut out: Vec<String> = Vec::new();
    let mut word = String::new();
    let mut i: usize = 0;
    while i < chars.len()
        invariant
            chars@ == s@,
            i <= chars@.len(),
            word@.len() == 0 <==> (i == 0 || whitespace(chars@[i - 1])),
            words(chars@.take(i as int)) == if word@.len() == 0 {
                texts(out@)
            } else {
                texts(out@).push(word@)
            },
        decreases chars@.len() - i,
    {
        let ghost before = chars@.take(i as int);
        let ghost after = chars@.take(i + 1);
        proof {
            assert(after.drop_last() == before);
            assert(after.last() == chars@[i as int]);
            if i > 0 {
                assert(after[after.len() - 2] == chars@[i - 1]);
            }
        }
        if is_whitespace(chars[i]) {
            if !word.as_str().is_empty() {
                let ghost finished = out@;
                let ghost text = word@;
                out.push(word);
                proof {
                    assert(texts(out@) =~= texts(finished).push(text));
                }
                word = String::new();
            }
        } else {
            let ghost text = word@;
            word.push(chars[i]);
            proof {
                if text.len() > 0 {
                    assert(words(before).last() == text);
                    assert(words(before).drop_last() =~= texts(out@));
                } else {
                    assert(word@ =~= seq![chars@[i as int]]);
                }
            }
        }
        i += 1;
    }
    proof {
        assert(chars@.take(i as int) == chars@);
    }
    if !word.as_str().is_empty() {
        let ghost finished = out@;
        let ghost text = word@;
        out.push(word);
        proof {
            assert(texts(out@) =~= texts(finished).push(text));
        }
    }
    out
}

/// The pieces of a text between the places where `sep` stands.
pub fn split_at_char(text: &str, sep: char) -> (out: Vec<String>)
    ensures
        texts(out@) == split_on(text@, sep),
        out@.len() > 0,
{
    let chars = to_chars(text);
    let mut out: Vec<String> = Vec::new();
    let mut piece = String::new();
    let mut i: usize = 0;
    assert(texts(out@).push(piece@) =~= split_on(chars@.take(0), sep));
    while i < chars.len()
        invariant
            chars@ == text@,
            i <= chars@.len(),
            texts(out@).push(piece@) == split_on(chars@.take(i as int), sep),
        decreases chars@.len() - i,
    {
        let ghost before = chars@.take(i as int);
        let ghost after = chars@.take(i + 1);
        let ghost done = texts(out@);
        let ghost open = piece@;
        proof {
            assert(after.drop_last() == before);
            assert(after.last() == chars@[i as int]);
            assert(done.push(open).drop_last() =~= done);
        }
        if chars[i] == sep {
            out.push(piece);
            piece = String::new();
            proof {
                assert(texts(out@) =~= done.push(open));
                assert(piece@ =~= Seq::empty());
            }
        } else {
            piece.push(chars[i]);
        }
        i += 1;
    }
    proof {
        assert(chars@.take(i as int) == chars@);
    }
    let ghost done = out@;
    let ghost open = piece@;
    out.push(piece);
    proof {
        assert(texts(out@) =~= texts(done).push(open));
    }
    out
}

// ---------------------------------------------------------------------------
// Laws.

proof fn lemma_trimmed_start_cut(s: Seq<char>) -> (a: int)
    ensures
        0 <= a <= s.len(),
        trimmed_start(s) == s.skip(a),
        forall|k: int| 0 <= k < a ==> whitespace(#[trigger] s[k]),
        a == s.len() || !whitespace(s[a]),
    decreases s.len(),
{
    if s.len() > 0 && whitespace(s[0]) {
        let rest = s.skip(1);
        let b = lemma_trimmed_start_cut(rest);
        assert(rest.skip(b) =~= s.skip(b + 1));
        assert forall|k: int| 0 <= k < b + 1 implies whitespace(#[trigger] s[k]) by {
            if k > 0 {
                assert(rest[k - 1] == s[k]);
            }
        }
        if b < rest.len() {
            assert(rest[b] == s[b + 1]);
        }
        b + 1
    } else {
        assert(s.skip(0) =~= s);
        0
    }
}

proof fn lemma_trimmed_end_cut(s: Seq<char>) -> (b: int)
    ensures
        0 <= b <= s.len(),
        trimmed_end(s) == s.take(b),
        forall|k: int| b <= k < s.len() ==> whitespace(#[trigger] s[k]),
        b == 0 || !whitespace(s[b - 1]),
    decreases s.len(),
{
    if s.len() > 0 && whitespace(s.last()) {
        let init = s.drop_last();
        let b = lemma_trimmed_end_cut(init);
        assert(init.take(b) =~= s.take(b));
        assert forall|k: int| b <= k < s.len() implies whitespace(#[trigger] s[k]) by {
            if k < init.len() {
                assert(init[k] == s[k]);
            }
        }
        if b > 0 {
            assert(init[b - 1] == s[b - 1]);
        }
        b
    } else {
        assert(s.take(s.len() as int) =~= s);
        s.len() as int
    }
}

/// Trimming takes away all white space at both ends and nothing else: what is
/// left is the part from `a` to `b`, which neither starts nor ends with white
/// space.
pub proof fn law_trimming_cuts_white_space(s: Seq<char>) -> (r: (int, int))
    ensures
        ({
            let (a, b) = r;
            &&& 0 <= a <= b <= s.len()
            &&& trimmed(s) == s.subrange(a, b)
            &&& forall|k: int| 0 <= k < a ==> whitespace(#[trigger] s[k])
            &&& forall|k: int| b <= k < s.len() ==> whitespace(#[trigger] s[k])
            &&& a < b ==> !whitespace(s[a]) && !whitespace(s[b - 1])
        }),
{
    let a = lemma_trimmed_start_cut(s);
    let rest = s.skip(a);
    let n = lemma_trimmed_end_cut(rest);
    assert(rest.take(n) =~= s.subrange(a, a + n));
    assert forall|k: int| a + n <= k < s.len() implies whitespace(#[trigger] s[k]) by {
        assert(rest[k - a] == s[k]);
    }
    if n > 0 {
        assert(rest[n - 1] == s[a + n - 1]);
        if whitespace(s[a]) {
            assert(a == s.len());
        }
    }
    (a, a + n)
}

/// Trimming twice is trimming once.
pub proof fn law_trimming_is_final(s: Seq<char>)
    ensures
        trimmed(trimmed(s)) == trimmed(s),
{
    let (a, b) = law_trimming_cuts_white_space(s);
    let t = trimmed(s);
    let (c, d) = law_trimming_cuts_white_space(t);
    if a < b {
        assert(t[0] == s[a]);
        assert(t[t.len() - 1] == s[b - 1]);
        assert(c == 0);
        assert(d == t.len()) by {
            if d < t.len() {
                assert(whitespace(t[t.len() - 1]));
            }
        }
    }
    assert(t.subrange(c, d) =~= t);
}

/// A text without white space at its ends is trimmed already.
pub proof fn law_trimmed_texts_stay(s: Seq<char>)
    requires
        s.len() > 0,
        !whitespace(s[0]),
        !whitespace(s[s.len() - 1]),
    ensures
        trimmed(s) == s,
{
    assert(trimmed_start(s) == s);
}

/// Lower case keeps every character but the ASCII capitals, which become the
/// small letters of the same place in the alphabet; twice is once.
pub proof fn law_lower_case(s: Seq<char>, i: int)
    requires
        0 <= i < s.len(),
    ensures
        lowered(s).len() == s.len(),
        !('A' <= s[i] <= 'Z') ==> lowered(s)[i] == s[i],
        'A' <= s[i] <= 'Z' ==> (lowered(s)[i] as u32) - ('a' as u32) == (s[i] as u32) - ('A' as u32),
        lowered(lowered(s)) == lowered(s),
{
    assert(lowered(lowered(s)) =~= lowered(s));
}

/// The characters of a text that are not white space, in order.
pub open spec fn solid(s: Seq<char>) -> Seq<char>
    decreases s.len(),
{
    if s.len() == 0 {
        Seq::empty()
    } else if whitespace(s.last()) {
        solid(s.drop_last())
    } else {
        solid(s.drop_last()).push(s.last())
    }
}

/// The texts of a list, one directly after the other.
pub open spec fn run_together(parts: Seq<Seq<char>>) -> Seq<char>
    decreases parts.len(),
{
    if parts.len() == 0 {
        Seq::empty()
    } else {
        run_together(parts.drop_last()) + parts.last()
    }
}

/// Words hold no white space and are not empty; together they are all that is
/// not white space, in order.
pub proof fn law_words_hold_all_that_is_solid(s: Seq<char>)
    ensures
        run_together(words(s)) == solid(s),
        forall|i: int| 0 <= i < words(s).len() ==> (#[trigger] words(s)[i]).len() > 0,
        forall|i: int, k: int|
            0 <= i < words(s).len() && 0 <= k < words(s)[i].len() ==> !whitespace(
                #[trigger] words(s)[i][k],
            ),
        s.len() > 0 && !whitespace(s.last()) ==> words(s).len() > 0,
    decreases s.len(),
{
    if s.len() > 0 {
        let init = s.drop_last();
        let c = s.last();
        law_words_hold_all_that_is_solid(init);
        let before = words(init);
        let all = words(s);
        if !whitespace(c) {
            if s.len() == 1 || whitespace(s[s.len() - 2]) || before.len() == 0 {
                assert(all.drop_last() =~= before);
                assert(all.last() == seq![c]);
                assert(run_together(before) + seq![c] =~= run_together(before).push(c));
            } else {
                let last = before.last();
                assert(all.drop_last() =~= before.drop_last());
                assert(all.last() == last.push(c));
                assert(run_together(before.drop_last()) + last.push(c) =~= (run_together(
                    before.drop_last(),
                ) + last).push(c));
            }
            assert forall|i: int, k: int| 0 <= i < all.len() && 0 <= k < all[i].len() implies
                !whitespace(#[trigger] all[i][k]) by {
                if i < all.len() - 1 {
                    assert(all[i] == before[i]);
                } else if all.len() == before.len() && k < before[i].len() {
                    assert(all[i][k] == before[i][k]);
                }
            }
            assert forall|i: int| 0 <= i < all.len() implies (#[trigger] all[i]).len() > 0 by {
                if i < all.len() - 1 {
                    assert(all[i] == before[i]);
                }
            }
        }
    }
}

/// White space separates words: a word is never glued to what stands behind
/// white space, and without white space between them characters stay together.
pub proof fn law_white_space_separates_words(s: Seq<char>, c: char)
    requires
        !whitespace(c),
    ensures
        s.len() > 0 && whitespace(s.last()) ==> words(s.push(c)) == words(s).push(seq![c]),
        s.len() > 0 && !whitespace(s.last()) ==> words(s.push(c)) == words(s).drop_last().push(
            words(s).last().push(c),
        ),
        words(s.push(' ')) == words(s),
{
    law_words_hold_all_that_is_solid(s);
    assert(s.push(c).drop_last() =~= s);
    assert(s.push(' ').drop_last() =~= s);
    if s.len() > 0 {
        assert(s.push(c)[s.len() - 1] == s.last());
    }
}

/// The pieces of a text hold no separator, and there is one more of them than
/// separators.
pub proof fn law_splitting_removes_the_separators(s: Seq<char>, sep: char)
    ensures
        split_on(s, sep).len() > 0,
        forall|i: int| 0 <= i < split_on(s, sep).len() ==> !(#[trigger] split_on(s, sep)[i]).contains(
            sep,
        ),
        s.len() > 0 && s.last() == sep ==> split_on(s, sep) == split_on(s.drop_last(), sep).push(
            Seq::empty(),
        ),
    decreases s.len(),
{
    if s.len() > 0 {
        let before = split_on(s.drop_last(), sep);
        let all = split_on(s, sep);
        law_splitting_removes_the_separators(s.drop_last(), sep);
        assert forall|i: int| 0 <= i < all.len() implies !(#[trigger] all[i]).contains(sep) by {
            if i < all.len() - 1 {
                assert(all[i] == before[i]);
            } else if s.last() != sep {
                let last = before.last();
                assert(!before[before.len() - 1].contains(sep));
                assert forall|k: int| 0 <= k < last.push(s.last()).len() implies last.push(
                    s.last(),
                )[k] != sep by {
                    if k < last.len() {
                        assert(last[k] == last.push(s.last())[k]);
                        assert(last.contains(last[k]));
                    }
                }
            }
        }
    }
}

/// Every text is a fuzzy match of itself and of every part of it, and holds its
/// own prefixes.
pub proof fn law_parts_match(a: Seq<char>, b: Seq<char>, c: Seq<char>)
    ensures
        has_substring(a + b + c, b),
        has_prefix(a + b, a),
        fuzzy_match(a + b + c, b),
        fuzzy_match(a + b + c, a + c),
{
    let s = a + b + c;
    assert(s.subrange(a.len() as int, (a.len() + b.len()) as int) =~= b);
    assert(occurs_at(s, b, a.len() as int));
    assert((a + b).subrange(0, a.len() as int) =~= a);
    let mid = Seq::new(b.len(), |k: int| a.len() + k);
    assert(spells(s, b, mid));
    let ends = Seq::new(
        a.len() + c.len(),
        |k: int|
            if k < a.len() {
                k
            } else {
                k + b.len()
            },
    );
    assert(spells(s, a + c, ends));
}

} // verus!
