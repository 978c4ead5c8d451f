//! The journal of pending removals as text: one sequence id per line.
//!
//! An id is written here, in base 36, before its record is blanked in memory.
//! The journal is read once, at start-up, and lines that are no id are ignored.

use vstd::prelude::*;
use crate::base36::{
    decode_base36, decode_spec, digit_value, encode_base36, encode_spec, is_numeral,
    law_decode_encode, lemma_encode_is_numeral,
};
use crate::record::{is_line_break, single_line};
use crate::text::{complete, lemma_lines_append, lines, push_char, split_lines, texts};

verus! {

/// The ids that the lines hold, in the order of the lines.
pub open spec fn ids_of(lines: Seq<Seq<char>>) -> Seq<u64>
    decreases lines.len(),
{
    if lines.len() == 0 {
        Seq::empty()
    } else {
        let earlier = ids_of(lines.drop_last());
        match decode_spec(lines.last()) {
            Some(id) => earlier.push(id),
            None => earlier,
        }
    }
}

/// The ids that a journal text holds.
pub open spec fn parse_journal(text: Seq<char>) -> Seq<u64> {
    ids_of(lines(text))
}

/// The line, with its line break, that marks `id` as pending.
pub open spec fn mark_text(id: u64) -> Seq<char> {
    encode_spec(id as nat).push('\n')
}

/// A numeral holds no line break.
pub proof fn lemma_numeral_single_line(s: Seq<char>)
    requires
        is_numeral(s),
    ensures
        single_line(s),
{
    assert forall|i: int| 0 <= i < s.len() implies !is_line_break(#[trigger] s[i]) by {
        assert(digit_value(s[i]) is Some);
    }
}

/// Appending the mark of `id` to a complete journal adds exactly that id and
/// leaves the journal complete.
pub proof fn law_mark_adds_id(journal: Seq<char>, id: u64)
    requires
        complete(journal),
    ensures
        parse_journal(journal + mark_text(id)) == parse_journal(journal).push(id),
        complete(journal + mark_text(id)),
{
    let numeral = encode_spec(id as nat);
    lemma_encode_is_numeral(id as nat);
    lemma_numeral_single_line(numeral);
    law_decode_encode(id);
    lemma_lines_append(journal, numeral);
    assert(lines(journal).push(numeral).drop_last() == lines(journal));
}

/// Reads a journal text: the id of every line that is one, in order.
pub fn read(text: &str) -> (ids: Vec<u64>)
    ensures
        ids@ == parse_journal(text@),
{
    let all = split_lines(text);
    let mut ids: Vec<u64> = Vec::new();
    let mut i: usize = 0;
    assert(texts(all@).take(0) == Seq::<Seq<char>>::empty());
    while i < all.len()
        invariant
            i <= all@.len(),
            texts(all@) == lines(text@),
            ids@ == ids_of(texts(all@).take(i as int)),
        decreases all@.len() - i,
    {
        let ghost upto = texts(all@).take(i + 1);
        assert(upto.drop_last() == texts(all@).take(i as int));
        assert(upto.last() == all@[i as int]@);
        match decode_base36(all[i].as_str()) {
            Some(id) => {
                ids.push(id);
            },
            None => {},
        }
        i += 1;
    }
    assert(texts(all@).take(i as int) == texts(all@));
    ids
}

/// The line that marks `id` as pending: what accepting a removal appends to
/// the journal.
pub fn mark(id: u64) -> (line: String)
    ensures
        line@ == mark_text(id),
{
    let mut line = encode_base36(id);
    push_char(&mut line, '\n');
    line
}

} // verus!
