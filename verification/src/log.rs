//! The durable log as text: one line per record, in the order of creation.
//!
//! A line is the 36 characters of the token, then the URL, then a line break.
//! A blank URL marks a deleted record. The line at position `i`, counting only
//! lines of at least the token's width, is the record with sequence id `i`.

use vstd::prelude::*;
use vstd::string::*;
use crate::index::Index;
use crate::record::{all_storable, is_line_break, single_line, Record, RecordView};
use crate::text::{
    complete, lemma_empty_text, lemma_lines_append, lemma_lines_concat, lemma_segments_shape,
    lines, push_char, segments, split_lines, texts,
};
use crate::token::TOKEN_WIDTH;

verus! {

/// The record that a line holds. A line shorter than a token is what a write
/// cut short left behind, and holds none.
pub open spec fn record_of_line(line: Seq<char>) -> Option<RecordView> {
    if line.len() < TOKEN_WIDTH {
        None
    } else {
        Some(
            RecordView {
                token: line.take(TOKEN_WIDTH as int),
                url: line.skip(TOKEN_WIDTH as int),
            },
        )
    }
}

/// The records of the lines that hold one, in the order of the lines.
pub open spec fn records_of(lines: Seq<Seq<char>>) -> Seq<RecordView>
    decreases lines.len(),
{
    if lines.len() == 0 {
        Seq::empty()
    } else {
        let earlier = records_of(lines.drop_last());
        match record_of_line(lines.last()) {
            Some(record) => earlier.push(record),
            None => earlier,
        }
    }
}

/// The records that a log text holds.
pub open spec fn parse_log(text: Seq<char>) -> Seq<RecordView> {
    records_of(lines(text))
}

/// The line of a record, with its line break: what creating the record
/// appends to the log.
pub open spec fn entry_text(record: RecordView) -> Seq<char> {
    (record.token + record.url).push('\n')
}

/// The log text of `records`: their lines, one after the other.
pub open spec fn render_log(records: Seq<RecordView>) -> Seq<char>
    decreases records.len(),
{
    if records.len() == 0 {
        Seq::empty()
    } else {
        render_log(records.drop_last()) + entry_text(records.last())
    }
}

/// The records of two runs of lines are those of the first, then those of the second.
pub proof fn lemma_records_concat(a: Seq<Seq<char>>, b: Seq<Seq<char>>)
    ensures
        records_of(a + b) == records_of(a) + records_of(b),
    decreases b.len(),
{
    if b.len() == 0 {
        assert(a + b == a);
    } else {
        lemma_records_concat(a, b.drop_last());
        assert((a + b).drop_last() == a + b.drop_last());
        assert((a + b).last() == b.last());
    }
}

/// The line of a storable record is free of line breaks and holds that record.
pub proof fn lemma_line_holds_record(record: RecordView)
    requires
        record.storable(),
    ensures
        single_line(record.token + record.url),
        record_of_line(record.token + record.url) == Some(record),
{
    let line = record.token + record.url;
    assert(line.take(TOKEN_WIDTH as int) == record.token);
    assert(line.skip(TOKEN_WIDTH as int) == record.url);
    assert forall|i: int| 0 <= i < line.len() implies !is_line_break(#[trigger] line[i]) by {
        if i < record.token.len() {
            assert(line[i] == record.token[i]);
        } else {
            assert(line[i] == record.url[i - record.token.len()]);
        }
    }
}

/// Every record that a log text holds is storable.
pub proof fn lemma_parsed_storable(text: Seq<char>)
    ensures
        all_storable(parse_log(text)),
{
    lemma_segments_shape(text);
    let ls = lines(text);
    assert forall|i: int| 0 <= i < ls.len() implies single_line(#[trigger] ls[i]) by {
        assert(ls[i] == segments(text)[i]);
    }
    lemma_records_storable(ls);
}

proof fn lemma_records_storable(ls: Seq<Seq<char>>)
    requires
        forall|i: int| 0 <= i < ls.len() ==> single_line(#[trigger] ls[i]),
    ensures
        all_storable(records_of(ls)),
    decreases ls.len(),
{
    if ls.len() > 0 {
        let init = ls.drop_last();
        assert forall|i: int| 0 <= i < init.len() implies single_line(#[trigger] init[i]) by {
            assert(init[i] == ls[i]);
        }
        lemma_records_storable(init);
        let line = ls.last();
        assert(single_line(line));
        if line.len() >= TOKEN_WIDTH {
            let record = record_of_line(line)->0;
            assert forall|i: int| 0 <= i < record.token.len() implies !is_line_break(
                #[trigger] record.token[i],
            ) by {
                assert(record.token[i] == line[i]);
            }
            assert forall|i: int| 0 <= i < record.url.len() implies !is_line_break(
                #[trigger] record.url[i],
            ) by {
                assert(record.url[i] == line[i + TOKEN_WIDTH]);
            }
        }
    }
}

/// Appending the line of a storable record to a complete log adds exactly
/// that record, at the next sequence id, and leaves the log complete.
pub proof fn law_append_adds_record(log: Seq<char>, record: RecordView)
    requires
        complete(log),
        record.storable(),
    ensures
        parse_log(log + entry_text(record)) == parse_log(log).push(record),
        complete(log + entry_text(record)),
{
    lemma_line_holds_record(record);
    lemma_lines_append(log, record.token + record.url);
    assert(lines(log).push(record.token + record.url).drop_last() == lines(log));
}

/// Writing records out and reading the text back gives the same records, each
/// at the position it had.
pub proof fn law_render_then_parse(records: Seq<RecordView>)
    requires
        all_storable(records),
    ensures
        parse_log(render_log(records)) == records,
        complete(render_log(records)),
    decreases records.len(),
{
    if records.len() == 0 {
        lemma_empty_text();
    } else {
        let init = records.drop_last();
        assert(all_storable(init)) by {
            assert forall|i: int| 0 <= i < init.len() implies (#[trigger] init[i]).storable() by {
                assert(init[i] == records[i]);
            }
        }
        law_render_then_parse(init);
        law_append_adds_record(render_log(init), records.last());
        assert(init.push(records.last()) == records);
    }
}

/// A line shorter than a token is passed over: the records before it and
/// after it are read as if the line were not there, each with the sequence id
/// it would have without it. The same holds of a short piece of text that a
/// cut write left at the very end, without a line break.
pub proof fn law_short_line_is_skipped(before: Seq<char>, short: Seq<char>, after: Seq<char>)
    requires
        complete(before),
        single_line(short),
        short.len() < TOKEN_WIDTH,
    ensures
        parse_log(before + short.push('\n') + after) == parse_log(before + after),
        parse_log(before + short) == parse_log(before),
{
    lemma_lines_append(before, short);
    lemma_lines_concat(before + short.push('\n'), after);
    lemma_lines_concat(before, after);
    lemma_records_concat(lines(before).push(short), lines(after));
    lemma_records_concat(lines(before), lines(after));
    assert(lines(before).push(short).drop_last() == lines(before));
    assert(records_of(lines(before).push(short)) == records_of(lines(before)));

    lemma_lines_concat(before, short);
    crate::text::lemma_segments_single_line(short);
    lemma_records_concat(lines(before), lines(short));
    if short.len() == 0 {
        assert(lines(short) == Seq::<Seq<char>>::empty());
    } else {
        assert(lines(short) == seq![short]);
        assert(seq![short].drop_last() == Seq::<Seq<char>>::empty());
        assert(seq![short].last() == short);
        assert(records_of(seq![short].drop_last()) == Seq::<RecordView>::empty());
        assert(records_of(seq![short]) == Seq::<RecordView>::empty());
    }
    assert(records_of(lines(before)) + Seq::<RecordView>::empty() == records_of(lines(before)));
}

/// Reads one line of the log.
pub fn parse_record(line: &str) -> (r: Option<Record>)
    ensures
        match r {
            Some(record) => record_of_line(line@) == Some(record@),
            None => record_of_line(line@) is None,
        },
{
    let width = line.unicode_len();
    if width < TOKEN_WIDTH {
        None
    } else {
        let token = line.substring_char(0, TOKEN_WIDTH).to_owned();
        let url = line.substring_char(TOKEN_WIDTH, width).to_owned();
        assert(line@.subrange(0, TOKEN_WIDTH as int) == line@.take(TOKEN_WIDTH as int));
        assert(line@.subrange(TOKEN_WIDTH as int, width as int) == line@.skip(TOKEN_WIDTH as int));
        Some(Record { token, url })
    }
}

/// Loads a log text into an index: the record of every line that holds one,
/// at the position of its sequence id.
pub fn load(text: &str) -> (index: Index)
    ensures
        index@ == parse_log(text@),
{
    let all = split_lines(text);
    let mut index = Index::new();
    let mut i: usize = 0;
    assert(texts(all@).take(0) == Seq::<Seq<char>>::empty());
    while i < all.len()
        invariant
            i <= all@.len(),
            texts(all@) == lines(text@),
            index@ == records_of(texts(all@).take(i as int)),
        decreases all@.len() - i,
    {
        let ghost upto = texts(all@).take(i + 1);
        assert(upto.drop_last() == texts(all@).take(i as int));
        assert(upto.last() == all@[i as int]@);
        match parse_record(all[i].as_str()) {
            Some(record) => {
                index.append(record);
            },
            None => {},
        }
        i += 1;
    }
    assert(texts(all@).take(i as int) == texts(all@));
    index
}

/// The line that creating `record` appends to the log.
pub fn entry(record: &Record) -> (line: String)
    ensures
        line@ == entry_text(record@),
{
    let mut line = record.token.clone();
    line.append(record.url.as_str());
    push_char(&mut line, '\n');
    line
}

/// Writes the whole index out as a log text.
pub fn render(index: &Index) -> (text: String)
    ensures
        text@ == render_log(index@),
{
    let mut text = String::new();
    let n = index.len();
    let mut i: u64 = 0;
    assert(index@.take(0) == Seq::<RecordView>::empty());
    while i < n
        invariant
            i <= n,
            n == index@.len(),
            text@ == render_log(index@.take(i as int)),
        decreases n - i,
    {
        let ghost upto = index@.take(i + 1);
        assert(upto.drop_last() == index@.take(i as int));
        assert(upto.last() == index@[i as int]);
        match index.get(i) {
            Some(record) => {
                text.append(record.token.as_str());
                text.append(record.url.as_str());
                push_char(&mut text, '\n');
                assert(text@ == render_log(index@.take(i as int)) + entry_text(record@));
            },
            None => {},
        }
        i += 1;
    }
    assert(index@.take(i as int) == index@);
    text
}

} // verus!
