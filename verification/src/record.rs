//! One redirect: a deletion token and the target URL it guards.

use vstd::prelude::*;
use crate::token::TOKEN_WIDTH;

verus! {

/// A redirect as the store keeps it. An empty `url` marks a deleted redirect:
/// its place and its token stay allocated for ever.
#[derive(Debug, PartialEq, Eq)]
pub struct Record {
    pub token: String,
    pub url: String,
}

/// The mathematical value of a [`Record`].
pub struct RecordView {
    pub token: Seq<char>,
    pub url: Seq<char>,
}

impl View for Record {
    type V = RecordView;

    open spec fn view(&self) -> RecordView {
        RecordView { token: self.token@, url: self.url@ }
    }
}

/// The line break that ends every line of the log and of the journal.
pub open spec fn is_line_break(c: char) -> bool {
    c == '\n'
}

/// No character of `s` is a line break.
pub open spec fn single_line(s: Seq<char>) -> bool {
    forall|i: int| 0 <= i < s.len() ==> !is_line_break(#[trigger] s[i])
}

impl RecordView {
    /// The redirect still points somewhere.
    pub open spec fn live(self) -> bool {
        self.url.len() > 0
    }

    /// The same redirect, deleted: the token stays, the URL is blanked.
    pub open spec fn tombstone(self) -> RecordView {
        RecordView { token: self.token, url: Seq::empty() }
    }

    /// The record can be written as one line of the log and read back: its
    /// token has the fixed width, and neither field holds a line break.
    pub open spec fn storable(self) -> bool {
        &&& self.token.len() == TOKEN_WIDTH
        &&& single_line(self.token)
        &&& single_line(self.url)
    }
}

/// Every record of `records` is storable.
pub open spec fn all_storable(records: Seq<RecordView>) -> bool {
    forall|i: int| 0 <= i < records.len() ==> (#[trigger] records[i]).storable()
}

/// The values of a sequence of records.
pub open spec fn views(records: Seq<Record>) -> Seq<RecordView> {
    records.map_values(|r: Record| r@)
}

impl Clone for Record {
    fn clone(&self) -> (r: Record)
        ensures
            r@ == self@,
    {
        Record { token: self.token.clone(), url: self.url.clone() }
    }
}

} // verus!
