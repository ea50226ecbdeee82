//! Line endings: how text is cut into lines and put together again.
use crate::text::{contains, split_at_char, to_chars};
#[allow(unused_imports)]
use crate::text::{has_substring, occurs_at, split_on, texts};
use vstd::prelude::*;

verus! {

/// The line ending that a document is written with.
#[derive(Debug, Clone, Copy, PartialEq, Eq, Structural)]
pub enum NewlineStyle {
    Lf,
    Crlf,
}

/// The characters of a line ending.
pub open spec fn delimiter_text(style: NewlineStyle) -> Seq<char> {
    match style {
        NewlineStyle::Lf => seq!['\n'],
        NewlineStyle::Crlf => seq!['\r', '\n'],
    }
}

/// The line ending that a raw text shows: `Crlf` as soon as one stands in it.
pub open spec fn shown_style(raw: Seq<char>) -> NewlineStyle {
    if has_substring(raw, seq!['\r', '\n']) {
        NewlineStyle::Crlf
    } else {
        NewlineStyle::Lf
    }
}

/// Every `\r\n`, and every other `\r`, turned into `\n`.
pub open spec fn normalized(raw: Seq<char>) -> Seq<char>
    decreases raw.len(),
{
    if raw.len() == 0 {
        Seq::empty()
    } else if raw[0] == '\r' {
        if raw.len() > 1 && raw[1] == '\n' {
            seq!['\n'] + normalized(raw.skip(2))
        } else {
            seq!['\n'] + normalized(raw.skip(1))
        }
    } else {
        seq![raw[0]] + normalized(raw.skip(1))
    }
}

/// The pieces of a text between its `\n` characters.
pub open spec fn split(text: Seq<char>) -> Seq<Seq<char>> {
    split_on(text, '\n')
}

/// The lines one after another, with `sep` between neighbours.
pub open spec fn joined(lines: Seq<Seq<char>>, sep: Seq<char>) -> Seq<char>
    decreases lines.len(),
{
    if lines.len() == 0 {
        Seq::empty()
    } else if lines.len() == 1 {
        lines[0]
    } else {
        joined(lines.drop_last(), sep) + sep + lines.last()
    }
}

/// No character of the line ends a line.
pub open spec fn plain_line(line: Seq<char>) -> bool {
    !line.contains('\n') && !line.contains('\r')
}

/// All lines are free of line ends.
pub open spec fn plain_lines(lines: Seq<Seq<char>>) -> bool {
    forall|i: int| 0 <= i < lines.len() ==> plain_line(#[trigger] lines[i])
}

impl NewlineStyle {
    /// The characters that end a line.
    pub fn delimiter(self) -> (out: &'static str)
        ensures
            out@ == delimiter_text(self),
    {
        match self {
            NewlineStyle::Lf => {
                proof {
                    reveal_strlit("\n");
                }
                assert("\n"@ =~= seq!['\n']);
                "\n"
            },
            NewlineStyle::Crlf => {
                proof {
                    reveal_strlit("\r\n");
                }
                assert("\r\n"@ =~= seq!['\r', '\n']);
                "\r\n"
            },
        }
    }
}

/// The line ending that a raw text shows.
pub fn detect_newline_style(raw: &str) -> (style: NewlineStyle)
    ensures
        style == shown_style(raw@),
{
    proof {
        reveal_strlit("\r\n");
        assert("\r\n"@ =~= seq!['\r', '\n']);
    }
    if contains(raw, "\r\n") {
        NewlineStyle::Crlf
    } else {
        NewlineStyle::Lf
    }
}

/// The raw text with every line ending turned into `\n`.
pub fn normalize_newlines(raw: &str) -> (out: String)
    ensures
        out@ == normalized(raw@),
{
    let chars = to_chars(raw);
    let mut out = String::new();
    let mut i: usize = 0;
    assert(chars@.skip(0) == chars@);
    while i < chars.len()
        invariant
            chars@ == raw@,
            i <= chars@.len(),
            out@ + normalized(chars@.skip(i as int)) == normalized(raw@),
        decreases chars@.len() - i,
    {
        let ghost rest = chars@.skip(i as int);
        let ghost done = out@;
        proof {
            assert(rest[0] == chars@[i as int]);
            assert(rest.skip(1) == chars@.skip(i + 1));
            if i + 1 < chars@.len() {
                assert(rest[1] == chars@[i + 1]);
                assert(rest.skip(2) == chars@.skip(i + 2));
            }
        }
        if chars[i] == '\r' {
            out.push('\n');
            proof {
                assert(done + (seq!['\n'] + normalized(rest.skip(1))) =~= out@ + normalized(
                    rest.skip(1),
                ));
                assert(done + (seq!['\n'] + normalized(rest.skip(2))) =~= out@ + normalized(
                    rest.skip(2),
                ));
            }
            if i + 1 < chars.len() && chars[i + 1] == '\n' {
                i += 2;
            } else {
                i += 1;
            }
        } else {
            out.push(chars[i]);
            proof {
                assert(done + (seq![rest[0]] + normalized(rest.skip(1))) =~= out@ + normalized(
                    rest.skip(1),
                ));
            }
            i += 1;
        }
    }
    proof {
        assert(chars@.skip(i as int) =~= Seq::empty());
        assert(out@ + Seq::<char>::empty() =~= out@);
    }
    out
}

/// The pieces of a text between its `\n` characters.
pub fn split_lines(text: &str) -> (out: Vec<String>)
    ensures
        texts(out@) == split(text@),
        out@.len() > 0,
{
    split_at_char(text, '\n')
}

/// The lines one after another, with `sep` between neighbours.
pub fn join_lines(lines: &Vec<String>, sep: &str) -> (out: String)
    ensures
        out@ == joined(texts(lines@), sep@),
{
    let mut out = String::new();
    let mut i: usize = 0;
    assert(texts(lines@).take(0) =~= Seq::empty());
    while i < lines.len()
        invariant
            i <= lines@.len(),
            out@ == joined(texts(lines@).take(i as int), sep@),
        decreases lines@.len() - i,
    {
        proof {
            let next = texts(lines@).take(i + 1);
            assert(next.drop_last() =~= texts(lines@).take(i as int));
            assert(next.last() == lines@[i as int]@);
            if i == 0 {
                assert(out@ + lines@[i as int]@ =~= lines@[i as int]@);
            }
        }
        if i > 0 {
            out.append(sep);
        }
        out.append(lines[i].as_str());
        i += 1;
    }
    proof {
        assert(texts(lines@).take(i as int) =~= texts(lines@));
    }
    out
}

/// Taking the first line off a joined text.
pub proof fn lemma_joined_front(lines: Seq<Seq<char>>, sep: Seq<char>)
    requires
        lines.len() > 1,
    ensures
        joined(lines, sep) == lines[0] + sep + joined(lines.skip(1), sep),
    decreases lines.len(),
{
    let rest = lines.skip(1);
    if lines.len() == 2 {
        assert(lines.drop_last().len() == 1);
        assert(joined(lines.drop_last(), sep) == lines[0]);
        assert(rest[0] == lines[1]);
    } else {
        lemma_joined_front(lines.drop_last(), sep);
        assert(lines.drop_last().skip(1) =~= rest.drop_last());
        assert(rest.last() == lines.last());
        assert(lines[0] + sep + joined(rest.drop_last(), sep) + sep + lines.last() =~= lines[0]
            + sep + (joined(rest.drop_last(), sep) + sep + lines.last()));
    }
}

/// Joining two lists of lines at the middle of a line: the end of the first
/// list and the start of the second grow together.
pub proof fn lemma_joined_glue(
    head: Seq<Seq<char>>,
    x: Seq<char>,
    y: Seq<char>,
    tail: Seq<Seq<char>>,
    sep: Seq<char>,
)
    ensures
        joined(head.push(x + y) + tail, sep) == joined(head.push(x), sep) + joined(
            seq![y] + tail,
            sep,
        ),
    decreases tail.len(),
{
    let whole = head.push(x + y) + tail;
    let right = seq![y] + tail;
    if tail.len() == 0 {
        assert(whole =~= head.push(x + y));
        assert(right =~= seq![y]);
        assert(head.push(x + y).drop_last() =~= head);
        assert(head.push(x).drop_last() =~= head);
        if head.len() == 0 {
            assert(joined(whole, sep) =~= x + y);
        } else {
            assert(joined(head, sep) + sep + (x + y) =~= joined(head, sep) + sep + x + y);
        }
    } else {
        lemma_joined_glue(head, x, y, tail.drop_last(), sep);
        assert(whole.drop_last() =~= head.push(x + y) + tail.drop_last());
        assert(right.drop_last() =~= seq![y] + tail.drop_last());
        assert(whole.last() == tail.last());
        assert(right.last() == tail.last());
        let a = joined(head.push(x), sep);
        let b = joined(right.drop_last(), sep);
        assert(a + b + sep + tail.last() =~= a + (b + sep + tail.last()));
    }
}

/// Joining two lists of lines at a line boundary.
pub proof fn lemma_joined_append(head: Seq<Seq<char>>, tail: Seq<Seq<char>>, sep: Seq<char>)
    requires
        head.len() > 0,
        tail.len() > 0,
    ensures
        joined(head + tail, sep) == joined(head, sep) + sep + joined(tail, sep),
    decreases tail.len(),
{
    let whole = head + tail;
    if tail.len() == 1 {
        assert(whole.drop_last() =~= head);
        assert(whole.last() == tail[0]);
    } else {
        lemma_joined_append(head, tail.drop_last(), sep);
        assert(whole.drop_last() =~= head + tail.drop_last());
        assert(whole.last() == tail.last());
        let a = joined(head, sep) + sep;
        let b = joined(tail.drop_last(), sep);
        assert(a + b + sep + tail.last() =~= a + (b + sep + tail.last()));
    }
}

/// Cutting a text at its `\n` characters and joining the pieces again gives
/// the text back, and no piece holds a `\n`.
pub proof fn law_join_undoes_split(text: Seq<char>)
    ensures
        joined(split(text), seq!['\n']) == text,
        split(text).len() > 0,
        forall|i: int| 0 <= i < split(text).len() ==> !(#[trigger] split(text)[i]).contains('\n'),
    decreases text.len(),
{
    let sep = seq!['\n'];
    if text.len() > 0 {
        let init = text.drop_last();
        law_join_undoes_split(init);
        let before = split(init);
        if text.last() == '\n' {
            let all = before.push(Seq::<char>::empty());
            assert(all.drop_last() =~= before);
            assert(joined(before, sep) + sep + Seq::<char>::empty() =~= text);
        } else {
            let last = before.last().push(text.last());
            let all = before.drop_last().push(last);
            assert(all.drop_last() =~= before.drop_last());
            if before.len() == 1 {
                assert(all[0] =~= text);
            } else {
                assert(joined(before.drop_last(), sep) + sep + last =~= (joined(
                    before.drop_last(),
                    sep,
                ) + sep + before.last()).push(text.last()));
            }
            assert forall|i: int| 0 <= i < all.len() implies !(#[trigger] all[i]).contains('\n') by {
                if i < before.len() - 1 {
                    assert(all[i] == before[i]);
                } else {
                    assert(!before[before.len() - 1].contains('\n'));
                    if last.contains('\n') {
                        let k = choose|k: int| 0 <= k < last.len() && last[k] == '\n';
                        assert(before.last()[k] == '\n');
                    }
                }
            }
        }
    } else {
        assert(split(text)[0] =~= Seq::<char>::empty());
        assert(joined(split(text), sep) =~= text);
    }
}

proof fn lemma_split_push(text: Seq<char>, line: Seq<char>)
    requires
        !line.contains('\n'),
    ensures
        split(text + line) == split(text).drop_last().push(split(text).last() + line),
    decreases line.len(),
{
    law_join_undoes_split(text);
    if line.len() == 0 {
        assert(text + line =~= text);
        assert(split(text).last() + line =~= split(text).last());
        assert(split(text).drop_last().push(split(text).last()) =~= split(text));
    } else {
        let init = line.drop_last();
        assert(!init.contains('\n')) by {
            if init.contains('\n') {
                let k = choose|k: int| 0 <= k < init.len() && init[k] == '\n';
                assert(line[k] == '\n');
            }
        }
        assert(line[line.len() - 1] != '\n');
        lemma_split_push(text, init);
        let whole = text + line;
        assert(whole.drop_last() =~= text + init);
        assert(whole.last() == line.last());
        let grown = split(text).last() + init;
        assert(split(text + init).last() == grown);
        assert(split(text + init).drop_last() =~= split(text).drop_last());
        assert(grown.push(line.last()) =~= split(text).last() + line);
    }
}

/// Joining lines that hold no `\n` and cutting the result again gives the
/// lines back.
pub proof fn law_split_undoes_join(lines: Seq<Seq<char>>)
    requires
        lines.len() > 0,
        forall|i: int| 0 <= i < lines.len() ==> !(#[trigger] lines[i]).contains('\n'),
    ensures
        split(joined(lines, seq!['\n'])) == lines,
    decreases lines.len(),
{
    let sep = seq!['\n'];
    if lines.len() == 1 {
        let none = Seq::<char>::empty();
        lemma_split_push(none, lines[0]);
        assert(none + lines[0] =~= lines[0]);
        assert(split(none).drop_last().push(split(none).last() + lines[0]) =~= lines);
    } else {
        let init = lines.drop_last();
        assert forall|i: int| 0 <= i < init.len() implies !(#[trigger] init[i]).contains('\n') by {
            assert(init[i] == lines[i]);
        }
        law_split_undoes_join(init);
        let text = joined(init, sep) + sep;
        assert(text.drop_last() =~= joined(init, sep));
        assert(split(text) == init.push(Seq::<char>::empty()));
        assert(!lines[lines.len() - 1].contains('\n'));
        lemma_split_push(text, lines.last());
        assert(split(text).drop_last() =~= init);
        assert(split(text).last() + lines.last() =~= lines.last());
        assert(init.push(lines.last()) =~= lines);
    }
}

/// Text before the first `\r` passes through unchanged.
pub proof fn lemma_normalized_plain(head: Seq<char>, rest: Seq<char>)
    requires
        !head.contains('\r'),
    ensures
        normalized(head + rest) == head + normalized(rest),
    decreases head.len(),
{
    let whole = head + rest;
    if head.len() == 0 {
        assert(whole =~= rest);
        assert(head + normalized(rest) =~= normalized(rest));
    } else {
        let tail = head.skip(1);
        assert(!tail.contains('\r')) by {
            if tail.contains('\r') {
                let k = choose|k: int| 0 <= k < tail.len() && tail[k] == '\r';
                assert(head[k + 1] == '\r');
            }
        }
        assert(head[0] != '\r');
        lemma_normalized_plain(tail, rest);
        assert(whole.skip(1) =~= tail + rest);
        assert(seq![whole[0]] + (tail + normalized(rest)) =~= head + normalized(rest));
    }
}

/// Normalized text holds no `\r`, and normalizing it again changes nothing.
pub proof fn law_normalizing_is_final(raw: Seq<char>)
    ensures
        !normalized(raw).contains('\r'),
        normalized(normalized(raw)) == normalized(raw),
    decreases raw.len(),
{
    if raw.len() > 0 {
        let (first, rest) = if raw[0] == '\r' {
            if raw.len() > 1 && raw[1] == '\n' {
                ('\n', raw.skip(2))
            } else {
                ('\n', raw.skip(1))
            }
        } else {
            (raw[0], raw.skip(1))
        };
        law_normalizing_is_final(rest);
        let out = seq![first] + normalized(rest);
        assert(normalized(raw) == out);
        if out.contains('\r') {
            let k = choose|k: int| 0 <= k < out.len() && out[k] == '\r';
            assert(normalized(rest)[k - 1] == '\r');
        }
    }
    let text = normalized(raw);
    lemma_normalized_plain(text, Seq::empty());
    assert(text + Seq::<char>::empty() =~= text);
    assert(text + normalized(Seq::<char>::empty()) =~= text);
}

/// Lines without line ends survive being written with either line ending and
/// read back.
pub proof fn law_reading_undoes_writing(lines: Seq<Seq<char>>, style: NewlineStyle)
    requires
        lines.len() > 0,
        plain_lines(lines),
    ensures
        split(normalized(joined(lines, delimiter_text(style)))) == lines,
{
    lemma_normalized_joined(lines, style);
    assert forall|i: int| 0 <= i < lines.len() implies !(#[trigger] lines[i]).contains('\n') by {
        assert(plain_line(lines[i]));
    }
    law_split_undoes_join(lines);
}

proof fn lemma_normalized_joined(lines: Seq<Seq<char>>, style: NewlineStyle)
    requires
        lines.len() > 0,
        plain_lines(lines),
    ensures
        normalized(joined(lines, delimiter_text(style))) == joined(lines, seq!['\n']),
    decreases lines.len(),
{
    let sep = delimiter_text(style);
    assert(plain_line(lines[0]));
    if lines.len() == 1 {
        lemma_normalized_plain(lines[0], Seq::empty());
        assert(lines[0] + Seq::<char>::empty() =~= lines[0]);
        assert(lines[0] + normalized(Seq::<char>::empty()) =~= lines[0]);
    } else {
        let rest = lines.skip(1);
        assert forall|i: int| 0 <= i < rest.len() implies plain_line(#[trigger] rest[i]) by {
            assert(rest[i] == lines[i + 1]);
        }
        lemma_normalized_joined(rest, style);
        lemma_joined_front(lines, sep);
        lemma_joined_front(lines, seq!['\n']);
        let tail = joined(rest, sep);
        assert(lines[0] + sep + tail =~= lines[0] + (sep + tail));
        lemma_normalized_plain(lines[0], sep + tail);
        let with_sep = sep + tail;
        match style {
            NewlineStyle::Lf => {
                assert(with_sep.skip(1) =~= tail);
            },
            NewlineStyle::Crlf => {
                assert(with_sep.skip(2) =~= tail);
            },
        }
        assert(normalized(with_sep) =~= seq!['\n'] + normalized(tail));
        assert(lines[0] + (seq!['\n'] + normalized(tail)) =~= lines[0] + seq!['\n'] + normalized(
            tail,
        ));
    }
}

proof fn lemma_joined_no_cr(lines: Seq<Seq<char>>)
    requires
        plain_lines(lines),
    ensures
        !joined(lines, seq!['\n']).contains('\r'),
    decreases lines.len(),
{
    let out = joined(lines, seq!['\n']);
    if lines.len() == 1 {
        assert(plain_line(lines[0]));
    } else if lines.len() > 1 {
        let init = lines.drop_last();
        assert forall|i: int| 0 <= i < init.len() implies plain_line(#[trigger] init[i]) by {
            assert(init[i] == lines[i]);
        }
        lemma_joined_no_cr(init);
        assert(plain_line(lines[lines.len() - 1]));
        if out.contains('\r') {
            let k = choose|k: int| 0 <= k < out.len() && out[k] == '\r';
            let a = joined(init, seq!['\n']);
            if k < a.len() {
                assert(a[k] == '\r');
            } else if k > a.len() {
                assert(lines.last()[k - a.len() - 1] == '\r');
            }
        }
    }
}

/// The line ending is recognized when a document is read back, except that a
/// single line shows no ending and is read as `Lf`.
pub proof fn law_style_is_recognized(lines: Seq<Seq<char>>, style: NewlineStyle)
    requires
        lines.len() > 0,
        plain_lines(lines),
        style is Lf || lines.len() > 1,
    ensures
        shown_style(joined(lines, delimiter_text(style))) == style,
{
    let out = joined(lines, delimiter_text(style));
    let mark = seq!['\r', '\n'];
    match style {
        NewlineStyle::Lf => {
            lemma_joined_no_cr(lines);
            assert forall|i: int| !occurs_at(out, mark, i) by {
                if occurs_at(out, mark, i) {
                    assert(out.subrange(i, i + 2)[0] == '\r');
                    assert(out[i] == '\r');
                }
            }
        },
        NewlineStyle::Crlf => {
            lemma_joined_front(lines, mark);
            let at = lines[0].len() as int;
            assert(out.subrange(at, at + 2) =~= mark);
            assert(occurs_at(out, mark, at));
        },
    }
}

/// A line ends at `\r\n`, at a `\r` of its own and at `\n`; what stands before
/// stays as it is, and what follows is read on from there.
pub proof fn law_every_line_end_becomes_a_newline(head: Seq<char>, rest: Seq<char>)
    requires
        !head.contains('\r'),
    ensures
        normalized(head + seq!['\r', '\n'] + rest) == head + seq!['\n'] + normalized(rest),
        rest.len() == 0 || rest[0] != '\n' ==> normalized(head + seq!['\r'] + rest) == head + seq![
            '\n',
        ] + normalized(rest),
        normalized(head + seq!['\n'] + rest) == head + seq!['\n'] + normalized(rest),
        normalized(head) == head,
    decreases head.len(),
{
    reveal_with_fuel(normalized, 2);
    if head.len() == 0 {
        assert(head =~= Seq::<char>::empty());
        let a = head + seq!['\r', '\n'] + rest;
        let b = head + seq!['\r'] + rest;
        let c = head + seq!['\n'] + rest;
        assert(a.skip(2) =~= rest);
        assert(b.skip(1) =~= rest);
        assert(c.skip(1) =~= rest);
        if rest.len() > 0 {
            assert(b[1] == rest[0]);
        }
        assert(seq!['\n'] + normalized(rest) =~= head + seq!['\n'] + normalized(rest));
    } else {
        let tail = head.skip(1);
        assert(head.contains(head[0]));
        assert forall|i: int| 0 <= i < tail.len() implies tail[i] != '\r' by {
            assert(tail[i] == head[i + 1]);
            assert(head.contains(head[i + 1]));
        }
        law_every_line_end_becomes_a_newline(tail, rest);
        assert(seq![head[0]] + tail =~= head);
        assert((head + seq!['\r', '\n'] + rest).skip(1) =~= tail + seq!['\r', '\n'] + rest);
        assert((head + seq!['\r'] + rest).skip(1) =~= tail + seq!['\r'] + rest);
        assert((head + seq!['\n'] + rest).skip(1) =~= tail + seq!['\n'] + rest);
        assert(seq![head[0]] + (tail + seq!['\n'] + normalized(rest)) =~= head + seq!['\n']
            + normalized(rest));
    }
}

} // verus!
