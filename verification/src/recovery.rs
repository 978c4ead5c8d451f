//! Start-up: rebuild the store from the log and fold the journal into it.
//!
//! The journal holds the removals that were accepted since the log was last
//! rewritten. Recovery blanks those records and, if there was any, gives the
//! new text of the log; the caller replaces the log with it in one step and
//! then clears the journal. With an empty journal recovery changes nothing.

use vstd::prelude::*;
use crate::journal::{law_mark_adds_id, mark_text, parse_journal, read};
use crate::log::{
    entry_text, law_append_adds_record, law_render_then_parse, lemma_parsed_storable, load,
    parse_log, render, render_log,
};
use crate::record::{all_storable, RecordView};
use crate::store::{creatable, delete_spec, step, Op, Store};
use crate::text::{complete, lemma_empty_text};

verus! {

/// The journal names the position `i`.
pub open spec fn is_pending(ids: Seq<u64>, i: int) -> bool {
    exists|k: int| 0 <= k < ids.len() && #[trigger] ids[k] == i
}

/// The records with every pending one blanked. Ids beyond the last record
/// name nothing and are passed over.
pub open spec fn apply_pending(records: Seq<RecordView>, ids: Seq<u64>) -> Seq<RecordView> {
    Seq::new(
        records.len(),
        |i: int|
            if is_pending(ids, i) {
                records[i].tombstone()
            } else {
                records[i]
            },
    )
}

/// The records that recovery arrives at from the two files.
pub open spec fn recovered(log: Seq<char>, journal: Seq<char>) -> Seq<RecordView> {
    apply_pending(parse_log(log), parse_journal(journal))
}

/// The log has to be rewritten: the journal holds at least one id.
pub open spec fn must_rewrite(journal: Seq<char>) -> bool {
    parse_journal(journal).len() > 0
}

/// The two files describe `records`: recovery from them gives exactly these
/// records, both files end where a line ends, and the journal names only
/// records that exist.
pub open spec fn files_hold(log: Seq<char>, journal: Seq<char>, records: Seq<RecordView>) -> bool {
    &&& recovered(log, journal) == records
    &&& complete(log)
    &&& complete(journal)
    &&& forall|k: int|
        0 <= k < parse_journal(journal).len() ==> #[trigger] parse_journal(journal)[k]
            < records.len()
}

/// What recovery hands back: the store, and the new text of the log where the
/// log has to be replaced.
pub struct Recovery {
    pub store: Store,
    pub rewrite: Option<String>,
}

/// One more pending id blanks one more record, or none if no record has it.
pub proof fn lemma_apply_one_more(records: Seq<RecordView>, ids: Seq<u64>, id: u64)
    ensures
        id < records.len() ==> apply_pending(records, ids.push(id)) == apply_pending(
            records,
            ids,
        ).update(id as int, apply_pending(records, ids)[id as int].tombstone()),
        id >= records.len() ==> apply_pending(records, ids.push(id)) == apply_pending(records, ids),
{
    let more = ids.push(id);
    assert forall|i: int| is_pending(more, i) <==> (is_pending(ids, i) || i == id) by {
        if is_pending(more, i) {
            let k = choose|k: int| 0 <= k < more.len() && #[trigger] more[k] == i;
            if k < ids.len() {
                assert(ids[k] == i);
            }
        }
        if is_pending(ids, i) {
            let k = choose|k: int| 0 <= k < ids.len() && #[trigger] ids[k] == i;
            assert(more[k] == i);
        }
        if i == id {
            assert(more[ids.len() as int] == i);
        }
    }
    if id < records.len() {
        assert(apply_pending(records, more) =~= apply_pending(records, ids).update(
            id as int,
            apply_pending(records, ids)[id as int].tombstone(),
        ));
    } else {
        assert(apply_pending(records, more) =~= apply_pending(records, ids));
    }
}

/// With no id pending, the records stay as they are.
pub proof fn lemma_apply_none(records: Seq<RecordView>)
    ensures
        apply_pending(records, Seq::<u64>::empty()) == records,
{
    assert(apply_pending(records, Seq::<u64>::empty()) =~= records);
}

/// Blanking records keeps them storable.
pub proof fn lemma_apply_keeps_storable(records: Seq<RecordView>, ids: Seq<u64>)
    requires
        all_storable(records),
    ensures
        all_storable(apply_pending(records, ids)),
{
    let after = apply_pending(records, ids);
    assert forall|i: int| 0 <= i < after.len() implies (#[trigger] after[i]).storable() by {
        assert(records[i].storable());
    }
}

/// Runs recovery on the texts of the log and of the journal.
///
/// The store holds the records of the log with every pending one blanked.
/// `rewrite` is `None` exactly when the journal holds no id; otherwise it is
/// the text of the whole store, to be put in the log's place before the
/// journal is cleared.
pub fn recover(log: &str, journal: &str) -> (r: Recovery)
    ensures
        r.store@ == recovered(log@, journal@),
        r.store.wf(),
        r.rewrite is Some <==> must_rewrite(journal@),
        r.rewrite matches Some(text) ==> text@ == render_log(r.store@),
{
    let ids = read(journal);
    let mut index = load(log);
    proof {
        lemma_apply_none(index@);
        lemma_parsed_storable(log@);
        lemma_apply_keeps_storable(parse_log(log@), ids@);
    }
    if ids.len() == 0 {
        assert(ids@ == Seq::<u64>::empty());
        return Recovery { store: Store::from_index(index), rewrite: None };
    }
    let mut k: usize = 0;
    assert(ids@.take(0) == Seq::<u64>::empty());
    while k < ids.len()
        invariant
            k <= ids@.len(),
            index@ == apply_pending(parse_log(log@), ids@.take(k as int)),
        decreases ids@.len() - k,
    {
        proof {
            lemma_apply_one_more(parse_log(log@), ids@.take(k as int), ids@[k as int]);
            assert(ids@.take(k as int).push(ids@[k as int]) == ids@.take(k + 1));
        }
        index.set_empty(ids[k]);
        k += 1;
    }
    assert(ids@.take(k as int) == ids@);
    let text = render(&index);
    Recovery { store: Store::from_index(index), rewrite: Some(text) }
}

/// Recovery with a journal that holds no id is no change at all: the store
/// is the log as it reads, and the log is not rewritten.
pub proof fn law_clean_start(log: Seq<char>, journal: Seq<char>)
    requires
        !must_rewrite(journal),
    ensures
        recovered(log, journal) == parse_log(log),
{
    assert(parse_journal(journal) == Seq::<u64>::empty());
    lemma_apply_none(parse_log(log));
}

/// The text of the log after recovery: the rewritten text where recovery
/// asked for one, the old text otherwise.
pub open spec fn log_after_recovery(log: Seq<char>, journal: Seq<char>) -> Seq<char> {
    if must_rewrite(journal) {
        render_log(recovered(log, journal))
    } else {
        log
    }
}

/// Recovery is idempotent. A second run, on the log that the first run left
/// and on the cleared journal, arrives at the same records and asks for no
/// rewrite.
pub proof fn law_recovery_is_idempotent(log: Seq<char>, journal: Seq<char>)
    ensures
        recovered(log_after_recovery(log, journal), Seq::<char>::empty()) == recovered(
            log,
            journal,
        ),
        !must_rewrite(Seq::<char>::empty()),
{
    let empty = Seq::<char>::empty();
    lemma_empty_text();
    let first = recovered(log, journal);
    lemma_apply_none(parse_log(log_after_recovery(log, journal)));
    if must_rewrite(journal) {
        lemma_parsed_storable(log);
        lemma_apply_keeps_storable(parse_log(log), parse_journal(journal));
        law_render_then_parse(first);
    } else {
        law_clean_start(log, journal);
    }
}

/// After the rewrite and with the journal cleared, the files hold the store.
pub proof fn law_rewrite_holds_store(log: Seq<char>, journal: Seq<char>)
    ensures
        files_hold(
            render_log(recovered(log, journal)),
            Seq::<char>::empty(),
            recovered(log, journal),
        ),
{
    let empty = Seq::<char>::empty();
    lemma_empty_text();
    let first = recovered(log, journal);
    lemma_parsed_storable(log);
    lemma_apply_keeps_storable(parse_log(log), parse_journal(journal));
    law_render_then_parse(first);
    lemma_apply_none(first);
}

/// A create that went through survives a crash: once its line is in the log,
/// recovery from the files gives the store with the new record in it.
pub proof fn law_create_survives_crash(
    log: Seq<char>,
    journal: Seq<char>,
    records: Seq<RecordView>,
    record: RecordView,
)
    requires
        files_hold(log, journal, records),
        creatable(record),
    ensures
        files_hold(
            log + entry_text(record),
            journal,
            step(records, Op::Create { record, appended: true }),
        ),
{
    let ids = parse_journal(journal);
    let before = parse_log(log);
    law_append_adds_record(log, record);
    let after = before.push(record);
    assert(!is_pending(ids, before.len() as int)) by {
        if is_pending(ids, before.len() as int) {
            let k = choose|k: int| 0 <= k < ids.len() && #[trigger] ids[k] == before.len();
            assert(ids[k] < records.len());
        }
    }
    assert(apply_pending(after, ids) =~= apply_pending(before, ids).push(record));
}

/// A delete that went through survives a crash: once its id is in the
/// journal, recovery from the files gives the store with that record blanked,
/// whether or not the process lived to blank it in memory.
pub proof fn law_delete_survives_crash(
    log: Seq<char>,
    journal: Seq<char>,
    records: Seq<RecordView>,
    id: u64,
    token: Seq<char>,
)
    requires
        files_hold(log, journal, records),
        delete_spec(records, id, token) is Ok,
    ensures
        files_hold(
            log,
            journal + mark_text(id),
            step(records, Op::Delete { id, token, journaled: true }),
        ),
{
    law_mark_adds_id(journal, id);
    lemma_apply_one_more(parse_log(log), parse_journal(journal), id);
    let ids = parse_journal(journal).push(id);
    assert forall|k: int| 0 <= k < ids.len() implies #[trigger] ids[k] < records.len() by {
        if k < ids.len() - 1 {
            assert(ids[k] == parse_journal(journal)[k]);
        }
    }
}

} // verus!
