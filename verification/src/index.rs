//! The in-memory index: every record at the position of its sequence id.

use vstd::prelude::*;
use crate::record::{Record, RecordView, views};

verus! {

/// Records in the order of their creation. A record's position is its
/// sequence id; positions are never vacated, reused or renumbered.
pub struct Index {
    records: Vec<Record>,
}

impl View for Index {
    type V = Seq<RecordView>;

    closed spec fn view(&self) -> Seq<RecordView> {
        views(self.records@)
    }
}

impl Index {
    /// An index without records.
    pub fn new() -> (index: Index)
        ensures
            index@ == Seq::<RecordView>::empty(),
    {
        let index = Index { records: Vec::new() };
        assert(index@ =~= Seq::<RecordView>::empty());
        index
    }

    /// The number of records, which is the next sequence id to hand out.
    pub fn len(&self) -> (n: u64)
        ensures
            n == self@.len(),
    {
        self.records.len() as u64
    }

    /// Adds `record` at the end and returns its position.
    pub fn append(&mut self, record: Record) -> (id: u64)
        ensures
            id == old(self)@.len(),
            final(self)@ == old(self)@.push(record@),
    {
        let id = self.records.len() as u64;
        self.records.push(record);
        assert(self@ =~= old(self)@.push(record@));
        id
    }

    /// The record at `id`, or `None` where no record has that id.
    pub fn get(&self, id: u64) -> (found: Option<&Record>)
        ensures
            id < self@.len() ==> (found matches Some(r) && r@ == self@[id as int]),
            id >= self@.len() ==> found is None,
    {
        if id < self.records.len() as u64 {
            Some(&self.records[id as usize])
        } else {
            None
        }
    }

    /// Blanks the URL of the record at `id`. Blanking a blank record changes
    /// nothing, and neither does an id that no record has.
    pub fn set_empty(&mut self, id: u64)
        ensures
            id < old(self)@.len() ==> final(self)@ == old(self)@.update(
                id as int,
                old(self)@[id as int].tombstone(),
            ),
            id >= old(self)@.len() ==> final(self)@ == old(self)@,
    {
        if id < self.records.len() as u64 {
            let at = id as usize;
            let token = self.records[at].token.clone();
            self.records.set(at, Record { token, url: String::new() });
            assert(self@ =~= old(self)@.update(id as int, old(self)@[id as int].tombstone()));
        }
    }
}

} // verus!
