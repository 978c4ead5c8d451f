//! Text as lines: what both files of the store are made of.

use vstd::prelude::*;
use crate::record::{is_line_break, single_line};

verus! {

/// Appends one character to a string.
///
/// Trusted: this is `String::push` of the standard library, which vstd does
/// not specify. The contract claims that the string afterwards is
/// the string before with `c` added at its end.
#[verifier::external_body]
pub(crate) fn push_char(s: &mut String, c: char)
    ensures
        final(s)@ == old(s)@.push(c),
{
    s.push(c);
}

/// The views of a sequence of strings.
pub open spec fn texts(strings: Seq<String>) -> Seq<Seq<char>> {
    strings.map_values(|s: String| s@)
}

/// The pieces into which the line breaks cut `text`. There is always a last
/// piece: what follows the last line break, which may be empty.
pub open spec fn segments(text: Seq<char>) -> Seq<Seq<char>>
    decreases text.len(),
{
    if text.len() == 0 {
        seq![Seq::empty()]
    } else {
        let before = segments(text.drop_last());
        if is_line_break(text.last()) {
            before.push(Seq::empty())
        } else {
            before.drop_last().push(before.last().push(text.last()))
        }
    }
}

/// The lines of `text`, each without its line break. Text after the last line
/// break counts as a line of its own unless it is empty.
pub open spec fn lines(text: Seq<char>) -> Seq<Seq<char>> {
    let pieces = segments(text);
    if pieces.last().len() == 0 {
        pieces.drop_last()
    } else {
        pieces
    }
}

/// There is at least one piece, and no piece holds a line break.
pub proof fn lemma_segments_shape(text: Seq<char>)
    ensures
        segments(text).len() >= 1,
        forall|i: int| 0 <= i < segments(text).len() ==> single_line(#[trigger] segments(text)[i]),
    decreases text.len(),
{
    if text.len() > 0 {
        lemma_segments_shape(text.drop_last());
    }
}

/// The pieces put together again, with a line break between every two.
pub open spec fn joined(pieces: Seq<Seq<char>>) -> Seq<char>
    decreases pieces.len(),
{
    if pieces.len() == 0 {
        Seq::empty()
    } else if pieces.len() == 1 {
        pieces[0]
    } else {
        joined(pieces.drop_last()).push('\n') + pieces.last()
    }
}

/// Cutting loses nothing: the pieces of a text, put together again with the
/// line breaks between them, are the text. Together with the pieces being
/// free of line breaks this says which pieces a text has.
pub proof fn law_pieces_rejoin(text: Seq<char>)
    ensures
        joined(segments(text)) == text,
    decreases text.len(),
{
    if text.len() == 0 {
        assert(joined(segments(text)) == text);
    } else {
        let before = segments(text.drop_last());
        let c = text.last();
        law_pieces_rejoin(text.drop_last());
        lemma_segments_shape(text.drop_last());
        assert(text.drop_last().push(c) == text);
        if is_line_break(c) {
            let pieces = before.push(Seq::<char>::empty());
            assert(pieces.drop_last() == before);
            assert(joined(before).push('\n') + Seq::<char>::empty() == joined(before).push('\n'));
        } else {
            let pieces = before.drop_last().push(before.last().push(c));
            if before.len() == 1 {
                assert(pieces[0] == before[0].push(c));
            } else {
                assert(pieces.drop_last() == before.drop_last());
                assert(joined(before.drop_last()).push('\n') + before.last().push(c) == (joined(
                    before.drop_last(),
                ).push('\n') + before.last()).push(c));
            }
        }
    }
}

/// The empty text is one empty piece, and so has no line.
pub proof fn lemma_empty_text()
    ensures
        segments(Seq::<char>::empty()) == seq![Seq::<char>::empty()],
        lines(Seq::<char>::empty()) == Seq::<Seq<char>>::empty(),
{
    assert(seq![Seq::<char>::empty()].drop_last() == Seq::<Seq<char>>::empty());
}

/// A text is complete when nothing follows its last line break: it is empty
/// or ends with a line break. Text appended to a complete text starts a new line.
pub open spec fn complete(text: Seq<char>) -> bool {
    text.len() == 0 || is_line_break(text.last())
}

/// The pieces of `a + b`: the last piece of `a` and the first piece of `b`
/// are one piece, all others stay as they are.
pub open spec fn glue(a: Seq<Seq<char>>, b: Seq<Seq<char>>) -> Seq<Seq<char>>
    recommends
        a.len() >= 1,
        b.len() >= 1,
{
    a.drop_last().push(a.last() + b.first()) + b.drop_first()
}

/// Cutting a concatenation into pieces is gluing the pieces of its parts.
pub proof fn lemma_segments_concat(a: Seq<char>, b: Seq<char>)
    ensures
        segments(a + b) == glue(segments(a), segments(b)),
    decreases b.len(),
{
    let sa = segments(a);
    lemma_segments_shape(a);
    if b.len() == 0 {
        assert(a + b == a);
        assert(sa.last() + Seq::<char>::empty() == sa.last());
        assert(glue(sa, segments(b)) == sa);
    } else {
        let b0 = b.drop_last();
        let c = b.last();
        let sb0 = segments(b0);
        lemma_segments_shape(b0);
        lemma_segments_concat(a, b0);
        assert((a + b).drop_last() == a + b0);
        assert((a + b).last() == c);
        let g = glue(sa, sb0);
        if is_line_break(c) {
            assert(g.push(Seq::<char>::empty()) == glue(sa, sb0.push(Seq::empty())));
        } else {
            let sb = sb0.drop_last().push(sb0.last().push(c));
            if sb0.len() == 1 {
                assert((sa.last() + sb0.first()).push(c) == sa.last() + sb0.last().push(c));
                assert(g.drop_last().push(g.last().push(c)) == glue(sa, sb));
            } else {
                assert(g.last() == sb0.last());
                assert(g.drop_last().push(g.last().push(c)) == glue(sa, sb));
            }
        }
    }
}

/// A text without line breaks is a single piece.
pub proof fn lemma_segments_single_line(line: Seq<char>)
    requires
        single_line(line),
    ensures
        segments(line) == seq![line],
    decreases line.len(),
{
    if line.len() == 0 {
        assert(line == Seq::<char>::empty());
    } else {
        assert(!is_line_break(line.last()));
        lemma_segments_single_line(line.drop_last());
        assert(line.drop_last().push(line.last()) == line);
        assert(seq![line.drop_last()].drop_last().push(line) == seq![line]);
    }
}

/// A text is complete exactly when its last piece is empty.
pub proof fn lemma_complete_last_piece(text: Seq<char>)
    ensures
        complete(text) <==> segments(text).last().len() == 0,
{
    lemma_segments_shape(text);
    if text.len() > 0 {
        lemma_segments_shape(text.drop_last());
    }
}

/// One more line, ended by its line break, after a complete text: the lines
/// are those of the text and then the new line.
pub proof fn lemma_lines_append(text: Seq<char>, line: Seq<char>)
    requires
        complete(text),
        single_line(line),
    ensures
        lines(text + line.push('\n')) == lines(text).push(line),
        complete(text + line.push('\n')),
{
    let st = segments(text);
    let tail = line.push('\n');
    lemma_segments_shape(text);
    lemma_complete_last_piece(text);
    lemma_segments_single_line(line);
    assert(tail.drop_last() == line);
    assert(segments(tail) == seq![line, Seq::<char>::empty()]);
    lemma_segments_concat(text, tail);
    assert(st.last() + line == line);
    assert(glue(st, segments(tail)) == st.drop_last().push(line).push(Seq::<char>::empty()));
    assert(st.drop_last().push(line).push(Seq::<char>::empty()).drop_last() == st.drop_last().push(line));
}

/// Text after a complete text adds its own lines to those already there.
pub proof fn lemma_lines_concat(text: Seq<char>, more: Seq<char>)
    requires
        complete(text),
    ensures
        lines(text + more) == lines(text) + lines(more),
{
    let st = segments(text);
    let sm = segments(more);
    lemma_segments_shape(text);
    lemma_segments_shape(more);
    lemma_complete_last_piece(text);
    lemma_segments_concat(text, more);
    assert(st.last() + sm.first() == sm.first());
    assert(glue(st, sm) == st.drop_last() + sm);
    if sm.last().len() == 0 {
        assert((st.drop_last() + sm).drop_last() == st.drop_last() + sm.drop_last());
    }
}

/// Cuts `text` into its lines.
pub fn split_lines(text: &str) -> (out: Vec<String>)
    ensures
        texts(out@) == lines(text@),
{
    let mut done: Vec<String> = Vec::new();
    let mut current = String::new();
    assert(text@.take(0) == Seq::<char>::empty());
    assert(texts(done@).push(current@) == segments(text@.take(0)));
    for c in it: text.chars()
        invariant
            it.seq() == text@,
            texts(done@).push(current@) == segments(text@.take(it.index() as int)),
    {
        let ghost before = text@.take(it.index() as int);
        let ghost after = text@.take(it.index() + 1);
        assert(after.drop_last() == before);
        assert(after.last() == c);
        proof {
            lemma_segments_shape(before);
        }
        if c == '\n' {
            done.push(current);
            current = String::new();
            assert(texts(done@).push(current@) == segments(after));
        } else {
            push_char(&mut current, c);
            assert(texts(done@).push(current@) == segments(after));
        }
    }
    assert(text@.take(text@.len() as int) == text@);
    if !current.as_str().is_empty() {
        done.push(current);
    }
    assert(texts(done@) == lines(text@));
    done
}

/// Tells whether `text` is free of line breaks.
pub fn is_single_line(text: &str) -> (yes: bool)
    ensures
        yes == single_line(text@),
{
    for c in it: text.chars()
        invariant
            it.seq() == text@,
            single_line(text@.take(it.index() as int)),
    {
        if c == '\n' {
            assert(is_line_break(text@[it.index() as int]));
            return false;
        }
        assert forall|k: int| 0 <= k < it.index() + 1 implies !is_line_break(
            #[trigger] text@.take(it.index() + 1)[k],
        ) by {
            if k < it.index() {
                assert(text@.take(it.index() as int)[k] == text@[k]);
            }
        }
    }
    assert(text@.take(text@.len() as int) == text@);
    true
}

} // verus!
