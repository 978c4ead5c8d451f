//! The store: create, delete and resolve over the index, with every change
//! made only after the caller reports that it reached the log or the journal.
//!
//! The store touches no file. For a change it first *stages* the text that has
//! to be appended, the caller appends it, and the change is then applied with
//! the outcome of that write. A failed write leaves the store as it was.

use vstd::prelude::*;
use vstd::string::*;
use crate::index::Index;
use crate::journal::{mark, mark_text};
use crate::log::{entry, entry_text};
use crate::record::{all_storable, single_line, Record, RecordView};
use crate::text::is_single_line;
use crate::token::{fresh_token, is_random_token, TOKEN_WIDTH};

verus! {

/// Why an operation of the store was refused.
#[derive(Clone, Copy, Debug, PartialEq, Eq, Structural)]
pub enum StoreError {
    /// The record offered cannot be stored: its URL is blank, or a field does
    /// not fit on one line of the log.
    InvalidInput,
    /// No record has the id, or the record was deleted.
    NotFound,
    /// The record is live, and the token offered is not its own.
    InvalidToken,
    /// The log or the journal could not be written.
    WriteFailure,
}

/// A record together with the line that must reach the log before the record
/// may enter the store.
#[derive(Debug)]
pub struct Staged {
    pub record: Record,
    pub line: String,
}

/// What a successful create hands back.
#[derive(Debug, PartialEq, Eq)]
pub struct Created {
    pub id: u64,
    pub token: String,
}

/// A record that may be created: storable, with a URL that is not blank.
pub open spec fn creatable(record: RecordView) -> bool {
    record.storable() && record.live()
}

/// What resolving `id` gives: the URL of a live record, and `NotFound` for an
/// id without a record or with a deleted one.
pub open spec fn resolve_spec(records: Seq<RecordView>, id: u64) -> Result<Seq<char>, StoreError> {
    if id < records.len() && records[id as int].live() {
        Ok(records[id as int].url)
    } else {
        Err(StoreError::NotFound)
    }
}

/// Whether `token` may delete the record at `id`, and the URL that goes with
/// it: `NotFound` for an id without a record or with a record already
/// deleted, whatever the token; `InvalidToken` for a live record under a token
/// that is not its own.
pub open spec fn delete_spec(records: Seq<RecordView>, id: u64, token: Seq<char>) -> Result<
    Seq<char>,
    StoreError,
> {
    if id >= records.len() || !records[id as int].live() {
        Err(StoreError::NotFound)
    } else if records[id as int].token != token {
        Err(StoreError::InvalidToken)
    } else {
        Ok(records[id as int].url)
    }
}

/// An operation that changes the store, with the outcome of its write.
pub enum Op {
    Create { record: RecordView, appended: bool },
    Delete { id: u64, token: Seq<char>, journaled: bool },
}

impl Op {
    /// The operation goes through: it is acceptable in `records`, and its
    /// write succeeded.
    pub open spec fn succeeds(self, records: Seq<RecordView>) -> bool {
        match self {
            Op::Create { record, appended } => creatable(record) && appended,
            Op::Delete { id, token, journaled } => delete_spec(records, id, token) is Ok
                && journaled,
        }
    }
}

/// The records after `op`. An operation that does not go through changes
/// nothing; a create adds its record at the end; a delete blanks the URL of
/// its record and leaves everything else, the token included, as it was.
pub open spec fn step(records: Seq<RecordView>, op: Op) -> Seq<RecordView> {
    if !op.succeeds(records) {
        records
    } else {
        match op {
            Op::Create { record, appended } => records.push(record),
            Op::Delete { id, token, journaled } => records.update(
                id as int,
                records[id as int].tombstone(),
            ),
        }
    }
}

/// The store: the index, and nothing else.
pub struct Store {
    index: Index,
}

impl View for Store {
    type V = Seq<RecordView>;

    closed spec fn view(&self) -> Seq<RecordView> {
        self.index@
    }
}

impl Store {
    /// Every record of the store can be written to the log and read back.
    pub open spec fn wf(&self) -> bool {
        all_storable(self@)
    }

    /// A store without records.
    pub fn new() -> (store: Store)
        ensures
            store@ == Seq::<RecordView>::empty(),
            store.wf(),
    {
        Store { index: Index::new() }
    }

    /// A store over an index loaded from the log.
    pub fn from_index(index: Index) -> (store: Store)
        ensures
            store@ == index@,
    {
        Store { index }
    }

    /// The index of the store.
    pub fn index(&self) -> (index: &Index)
        ensures
            index@ == self@,
    {
        &self.index
    }

    /// The number of records, deleted ones included: the id that the next
    /// create will hand out.
    pub fn len(&self) -> (n: u64)
        ensures
            n == self@.len(),
    {
        self.index.len()
    }

    /// The URL that `id` redirects to.
    pub fn resolve(&self, id: u64) -> (r: Result<String, StoreError>)
        ensures
            match r {
                Ok(url) => resolve_spec(self@, id) == Ok::<Seq<char>, StoreError>(url@),
                Err(e) => resolve_spec(self@, id) == Err::<Seq<char>, StoreError>(e),
            },
    {
        match self.index.get(id) {
            Some(record) => {
                if record.url.as_str().is_empty() {
                    Err(StoreError::NotFound)
                } else {
                    Ok(record.url.clone())
                }
            },
            None => Err(StoreError::NotFound),
        }
    }

    /// Prepares the creation of a redirect to `url`: draws a fresh token and
    /// gives the line to append to the log. A URL that is blank or holds a
    /// line break is refused as `InvalidInput`.
    pub fn stage_create(url: String) -> (r: Result<Staged, StoreError>)
        ensures
            r is Ok <==> url@.len() > 0 && single_line(url@),
            r matches Err(e) ==> e == StoreError::InvalidInput,
            r matches Ok(staged) ==> {
                &&& staged.record@.url == url@
                &&& is_random_token(staged.record@.token)
                &&& creatable(staged.record@)
                &&& staged.line@ == entry_text(staged.record@)
            },
    {
        if url.as_str().is_empty() || !is_single_line(url.as_str()) {
            return Err(StoreError::InvalidInput);
        }
        let token = fresh_token();
        let record = Record { token, url };
        let line = entry(&record);
        Ok(Staged { record, line })
    }

    /// Creates `record`, whose line the caller has tried to append to the
    /// log; `appended` tells whether that write succeeded. On success the
    /// record enters the store at the next id, which is returned with the
    /// token. A record that cannot be stored is refused as `InvalidInput`, and
    /// after a failed write the store stays as it was and the result is
    /// `WriteFailure`.
    pub fn create(&mut self, record: Record, appended: bool) -> (r: Result<Created, StoreError>)
        ensures
            final(self)@ == step(old(self)@, Op::Create { record: record@, appended }),
            old(self).wf() ==> final(self).wf(),
            r is Ok <==> creatable(record@) && appended,
            r matches Ok(created) ==> created.id == old(self)@.len() && created.token@
                == record@.token,
            r matches Err(e) ==> e == if !creatable(record@) {
                StoreError::InvalidInput
            } else {
                StoreError::WriteFailure
            },
    {
        if !is_creatable(&record) {
            return Err(StoreError::InvalidInput);
        }
        if !appended {
            return Err(StoreError::WriteFailure);
        }
        let token = record.token.clone();
        let id = self.index.append(record);
        Ok(Created { id, token })
    }

    /// Checks a removal and gives the line to append to the journal before
    /// the removal is applied.
    pub fn stage_delete(&self, id: u64, token: &str) -> (r: Result<String, StoreError>)
        ensures
            r is Ok <==> delete_spec(self@, id, token@) is Ok,
            r matches Ok(line) ==> line@ == mark_text(id),
            r matches Err(e) ==> delete_spec(self@, id, token@) == Err::<Seq<char>, StoreError>(e),
    {
        match self.check_delete(id, token) {
            Ok(_) => Ok(mark(id)),
            Err(e) => Err(e),
        }
    }

    /// Deletes the record at `id` for the holder of `token`; `journaled` tells
    /// whether the caller's write of the id to the journal succeeded. On
    /// success the record's URL is blanked and returned. A refused removal and
    /// a failed write leave the store as it was.
    pub fn delete(&mut self, id: u64, token: &str, journaled: bool) -> (r: Result<
        String,
        StoreError,
    >)
        ensures
            final(self)@ == step(old(self)@, Op::Delete { id, token: token@, journaled }),
            old(self).wf() ==> final(self).wf(),
            r is Ok <==> delete_spec(old(self)@, id, token@) is Ok && journaled,
            r matches Ok(url) ==> delete_spec(old(self)@, id, token@) == Ok::<
                Seq<char>,
                StoreError,
            >(url@),
            r matches Err(e) ==> match delete_spec(old(self)@, id, token@) {
                Ok(_) => e == StoreError::WriteFailure,
                Err(refusal) => e == refusal,
            },
    {
        let url = match self.check_delete(id, token) {
            Ok(url) => url,
            Err(e) => {
                return Err(e);
            },
        };
        if !journaled {
            return Err(StoreError::WriteFailure);
        }
        self.index.set_empty(id);
        Ok(url)
    }

    fn check_delete(&self, id: u64, token: &str) -> (r: Result<String, StoreError>)
        ensures
            match r {
                Ok(url) => delete_spec(self@, id, token@) == Ok::<Seq<char>, StoreError>(url@),
                Err(e) => delete_spec(self@, id, token@) == Err::<Seq<char>, StoreError>(e),
            },
    {
        match self.index.get(id) {
            None => Err(StoreError::NotFound),
            Some(record) => {
                if record.url.as_str().is_empty() {
                    Err(StoreError::NotFound)
                } else if record.token != token.to_owned() {
                    Err(StoreError::InvalidToken)
                } else {
                    Ok(record.url.clone())
                }
            },
        }
    }
}

/// Tells whether `record` may be created.
pub fn is_creatable(record: &Record) -> (yes: bool)
    ensures
        yes == creatable(record@),
{
    record.token.as_str().unicode_len() == TOKEN_WIDTH && is_single_line(record.token.as_str())
        && is_single_line(record.url.as_str()) && !record.url.as_str().is_empty()
}

} // verus!
