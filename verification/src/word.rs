//! Word boundaries within one line.
use crate::chars::{is_whitespace, is_word_char};
#[allow(unused_imports)]
use crate::chars::{symbol_char, whitespace, word_char};
use crate::text::to_chars;
use vstd::prelude::*;

verus! {

/// The character classes that word motion passes over.
pub enum Class {
    Space,
    Word,
    Symbol,
    NotWord,
}

/// Whether a character belongs to a class.
pub open spec fn in_class(c: char, class: Class) -> bool {
    match class {
        Class::Space => whitespace(c),
        Class::Word => word_char(c),
        Class::Symbol => symbol_char(c),
        Class::NotWord => !word_char(c),
    }
}

/// The start of the run of `class` characters that ends at `i`.
pub open spec fn back_over(line: Seq<char>, i: int, class: Class) -> int
    decreases i,
{
    if 0 < i <= line.len() && in_class(line[i - 1], class) {
        back_over(line, i - 1, class)
    } else {
        i
    }
}

/// The end of the run of `class` characters that starts at `i`.
pub open spec fn forward_over(line: Seq<char>, i: int, class: Class) -> int
    decreases line.len() - i,
{
    if 0 <= i < line.len() && in_class(line[i], class) {
        forward_over(line, i + 1, class)
    } else {
        i
    }
}

/// A column that is not past the end of the line.
pub open spec fn within(line: Seq<char>, column: int) -> int {
    if column < line.len() {
        column
    } else {
        line.len() as int
    }
}

/// Where a step back by one word lands: past white space, then past symbols if
/// any stand there, then past one word.
pub open spec fn word_left(line: Seq<char>, column: int) -> int {
    let i = back_over(line, within(line, column), Class::Space);
    if i > 0 && word_char(line[i - 1]) {
        back_over(line, i, Class::Word)
    } else {
        back_over(line, back_over(line, i, Class::Symbol), Class::Word)
    }
}

/// Where a step forward by one word lands: from white space to its end, else
/// past the word or the symbols at the column and on to the next word.
pub open spec fn word_right(line: Seq<char>, column: int) -> int {
    let i = within(line, column);
    if i == line.len() {
        i
    } else if whitespace(line[i]) {
        forward_over(line, i, Class::Space)
    } else if word_char(line[i]) {
        forward_over(line, forward_over(line, i, Class::Word), Class::NotWord)
    } else {
        forward_over(line, forward_over(line, i, Class::Symbol), Class::NotWord)
    }
}

pub proof fn lemma_back_over(line: Seq<char>, i: int, class: Class)
    requires
        0 <= i <= line.len(),
    ensures
        0 <= back_over(line, i, class) <= i,
        i > 0 && in_class(line[i - 1], class) ==> back_over(line, i, class) < i,
    decreases i,
{
    if i > 0 && in_class(line[i - 1], class) {
        lemma_back_over(line, i - 1, class);
    }
}

pub proof fn lemma_forward_over(line: Seq<char>, i: int, class: Class)
    requires
        0 <= i <= line.len(),
    ensures
        i <= forward_over(line, i, class) <= line.len(),
        i < line.len() && in_class(line[i], class) ==> i < forward_over(line, i, class),
    decreases line.len() - i,
{
    if i < line.len() && in_class(line[i], class) {
        lemma_forward_over(line, i + 1, class);
    }
}

/// A step back from any column after the first lands strictly before it.
pub proof fn law_word_left_moves(line: Seq<char>, column: int)
    requires
        0 < column <= line.len(),
    ensures
        0 <= word_left(line, column) < column,
{
    let i = back_over(line, column, Class::Space);
    lemma_back_over(line, column, Class::Space);
    lemma_back_over(line, i, Class::Word);
    lemma_back_over(line, i, Class::Symbol);
    lemma_back_over(line, back_over(line, i, Class::Symbol), Class::Word);
}

/// A step forward from any column before the last lands strictly after it.
pub proof fn law_word_right_moves(line: Seq<char>, column: int)
    requires
        0 <= column < line.len(),
    ensures
        column < word_right(line, column) <= line.len(),
{
    lemma_forward_over(line, column, Class::Space);
    lemma_forward_over(line, column, Class::Word);
    lemma_forward_over(line, column, Class::Symbol);
    lemma_forward_over(line, forward_over(line, column, Class::Word), Class::NotWord);
    lemma_forward_over(line, forward_over(line, column, Class::Symbol), Class::NotWord);
}

/// Where a step back by one word lands.
pub fn prev_word_boundary_in_line(line: &str, column: usize) -> (out: usize)
    ensures
        out == word_left(line@, column as int),
{
    let chars = to_chars(line);
    let mut i: usize = if column < chars.len() {
        column
    } else {
        chars.len()
    };
    let ghost from = within(line@, column as int);
    while i > 0 && is_whitespace(chars[i - 1])
        invariant
            chars@ == line@,
            i <= chars@.len(),
            back_over(line@, i as int, Class::Space) == back_over(line@, from, Class::Space),
        decreases i,
    {
        i -= 1;
    }
    if i == 0 {
        return 0;
    }
    let ghost space = i as int;
    if is_word_char(chars[i - 1]) {
        while i > 0 && is_word_char(chars[i - 1])
            invariant
                chars@ == line@,
                i <= chars@.len(),
                back_over(line@, i as int, Class::Word) == back_over(line@, space, Class::Word),
            decreases i,
        {
            i -= 1;
        }
        return i;
    }
    while i > 0 && !is_whitespace(chars[i - 1]) && !is_word_char(chars[i - 1])
        invariant
            chars@ == line@,
            i <= chars@.len(),
            back_over(line@, i as int, Class::Symbol) == back_over(line@, space, Class::Symbol),
        decreases i,
    {
        i -= 1;
    }
    let ghost symbols = i as int;
    while i > 0 && is_word_char(chars[i - 1])
        invariant
            chars@ == line@,
            i <= chars@.len(),
            back_over(line@, i as int, Class::Word) == back_over(line@, symbols, Class::Word),
        decreases i,
    {
        i -= 1;
    }
    i
}

/// Where a step forward by one word lands.
pub fn next_word_boundary_in_line(line: &str, column: usize) -> (out: usize)
    ensures
        out == word_right(line@, column as int),
{
    let chars = to_chars(line);
    if column >= chars.len() {
        return chars.len();
    }
    let mut i: usize = column;
    if is_whitespace(chars[i]) {
        while i < chars.len() && is_whitespace(chars[i])
            invariant
                chars@ == line@,
                i <= chars@.len(),
                forward_over(line@, i as int, Class::Space) == forward_over(
                    line@,
                    column as int,
                    Class::Space,
                ),
            decreases chars@.len() - i,
        {
            i += 1;
        }
        return i;
    }
    if is_word_char(chars[i]) {
        while i < chars.len() && is_word_char(chars[i])
            invariant
                chars@ == line@,
                i <= chars@.len(),
                forward_over(line@, i as int, Class::Word) == forward_over(
                    line@,
                    column as int,
                    Class::Word,
                ),
            decreases chars@.len() - i,
        {
            i += 1;
        }
    } else {
        while i < chars.len() && !is_whitespace(chars[i]) && !is_word_char(chars[i])
            invariant
                chars@ == line@,
                i <= chars@.len(),
                forward_over(line@, i as int, Class::Symbol) == forward_over(
                    line@,
                    column as int,
                    Class::Symbol,
                ),
            decreases chars@.len() - i,
        {
            i += 1;
        }
    }
    let ghost run = i as int;
    while i < chars.len() && !is_word_char(chars[i])
        invariant
            chars@ == line@,
            i <= chars@.len(),
            forward_over(line@, i as int, Class::NotWord) == forward_over(
                line@,
                run,
                Class::NotWord,
            ),
        decreases chars@.len() - i,
    {
        i += 1;
    }
    i
}

proof fn lemma_back_run(line: Seq<char>, i: int, class: Class)
    requires
        0 <= i <= line.len(),
    ensures
        ({
            let j = back_over(line, i, class);
            &&& 0 <= j <= i
            &&& forall|k: int| j <= k < i ==> in_class(#[trigger] line[k], class)
            &&& j == 0 || !in_class(line[j - 1], class)
        }),
    decreases i,
{
    if i > 0 && in_class(line[i - 1], class) {
        lemma_back_run(line, i - 1, class);
    }
}

proof fn lemma_forward_run(line: Seq<char>, i: int, class: Class)
    requires
        0 <= i <= line.len(),
    ensures
        ({
            let j = forward_over(line, i, class);
            &&& i <= j <= line.len()
            &&& forall|k: int| i <= k < j ==> in_class(#[trigger] line[k], class)
            &&& j == line.len() || !in_class(line[j], class)
        }),
    decreases line.len() - i,
{
    if i < line.len() && in_class(line[i], class) {
        lemma_forward_run(line, i + 1, class);
    }
}

/// A step forward from white space lands on the first character that is not
/// white space, or at the end of the line.
pub proof fn law_word_right_passes_white_space(line: Seq<char>, column: int)
    requires
        0 <= column < line.len(),
        whitespace(line[column]),
    ensures
        column < word_right(line, column) <= line.len(),
        forall|k: int| column <= k < word_right(line, column) ==> whitespace(#[trigger] line[k]),
        word_right(line, column) == line.len() || !whitespace(line[word_right(line, column)]),
{
    lemma_forward_run(line, column, Class::Space);
}

/// A step forward from a word passes the rest of the word, up to `m`, and
/// everything after it that belongs to no word: it lands on the start of the
/// next word, or at the end of the line.
pub proof fn law_word_right_passes_a_word(line: Seq<char>, column: int) -> (m: int)
    requires
        0 <= column < line.len(),
        word_char(line[column]),
    ensures
        column < m <= word_right(line, column) <= line.len(),
        forall|k: int| column <= k < m ==> word_char(#[trigger] line[k]),
        forall|k: int| m <= k < word_right(line, column) ==> !word_char(#[trigger] line[k]),
        word_right(line, column) == line.len() || word_char(line[word_right(line, column)]),
        m == line.len() || !word_char(line[m]),
{
    let m = forward_over(line, column, Class::Word);
    lemma_forward_run(line, column, Class::Word);
    lemma_forward_run(line, m, Class::NotWord);
    m
}

/// A step forward from a symbol lands on the start of the next word, or at the
/// end of the line.
pub proof fn law_word_right_passes_symbols(line: Seq<char>, column: int)
    requires
        0 <= column < line.len(),
        symbol_char(line[column]),
    ensures
        column < word_right(line, column) <= line.len(),
        forall|k: int| column <= k < word_right(line, column) ==> !word_char(#[trigger] line[k]),
        word_right(line, column) == line.len() || word_char(line[word_right(line, column)]),
{
    let m = forward_over(line, column, Class::Symbol);
    lemma_forward_run(line, column, Class::Symbol);
    lemma_forward_run(line, m, Class::NotWord);
}

/// A column behind the end of the line counts as its end, from where there is
/// no step forward.
pub proof fn law_word_right_stops_at_the_end(line: Seq<char>, column: int)
    requires
        column >= line.len(),
    ensures
        word_right(line, column) == line.len(),
        word_left(line, column) == word_left(line, line.len() as int),
{
}

/// A step back passes the white space before the column, down to `a`, then the
/// symbols before that, down to `b`, and then one word, of which it lands on
/// the start. It passes all of them: what stands before is of another class.
pub proof fn law_word_left_passes_one_word(line: Seq<char>, column: int) -> (r: (int, int))
    requires
        0 <= column <= line.len(),
    ensures
        ({
            let (a, b) = r;
            let j = word_left(line, column);
            &&& 0 <= j <= b <= a <= column
            &&& forall|k: int| a <= k < column ==> whitespace(#[trigger] line[k])
            &&& a == 0 || !whitespace(line[a - 1])
            &&& forall|k: int| b <= k < a ==> symbol_char(#[trigger] line[k])
            &&& b == 0 || !symbol_char(line[b - 1])
            &&& forall|k: int| j <= k < b ==> word_char(#[trigger] line[k])
            &&& j == 0 || !word_char(line[j - 1])
        }),
{
    let a = back_over(line, column, Class::Space);
    lemma_back_run(line, column, Class::Space);
    let b = back_over(line, a, Class::Symbol);
    lemma_back_run(line, a, Class::Symbol);
    lemma_back_run(line, b, Class::Word);
    lemma_back_run(line, a, Class::Word);
    if a > 0 && word_char(line[a - 1]) {
        assert(b == a);
    }
    (a, b)
}

/// Every character belongs to exactly one of the classes that word motion
/// tells apart, and blanks, tabs, letters, digits and punctuation to the
/// expected ones.
pub proof fn law_classes_are_disjoint(c: char)
    ensures
        !(whitespace(c) && word_char(c)),
        symbol_char(c) == (!whitespace(c) && !word_char(c)),
        c == ' ' || c == '\t' || c == '\n' || c == '\r' ==> whitespace(c),
        'a' <= c <= 'z' || 'A' <= c <= 'Z' || '0' <= c <= '9' || c == '_' ==> word_char(c),
{
}

} // verus!
