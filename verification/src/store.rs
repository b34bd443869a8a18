//! The relay mapping: which copy of which message went to which channel.
//!
//! The mapping is an append-only table of [`RelayedMessage`] rows. A row is
//! written once, after its copy was posted, and never changed. [`MessageTable`]
//! is that table held in memory; a database that stores the same rows answers
//! the same lookups.

use crate::model::RelayedMessage;
use vstd::prelude::*;

verus! {

/// Whether a row belongs to the message `original_message_id`, as a
/// predicate on rows.
pub open spec fn of_message(original_message_id: u64) -> spec_fn(RelayedMessage) -> bool {
    |row: RelayedMessage| row.original_message_id == original_message_id
}

/// The copy and the channel that a row names.
pub open spec fn copy_and_channel() -> spec_fn(RelayedMessage) -> (u64, u64) {
    |row: RelayedMessage| (row.relayed_message_id, row.destination_channel_id)
}

/// The copies of `original_message_id` that `rows` hold, each with the
/// channel it went to, in the order in which the rows were written.
pub open spec fn lookup_all(rows: Seq<RelayedMessage>, original_message_id: u64) -> Seq<
    (u64, u64),
> {
    rows.filter(of_message(original_message_id)).map_values(copy_and_channel())
}

/// The mapping table. Its view is the sequence of its rows, oldest first.
pub struct MessageTable {
    rows: Vec<RelayedMessage>,
}

impl View for MessageTable {
    type V = Seq<RelayedMessage>;

    closed spec fn view(&self) -> Seq<RelayedMessage> {
        self.rows@
    }
}

impl MessageTable {
    /// An empty table.
    pub fn new() -> (table: MessageTable)
        ensures
            table@ == Seq::<RelayedMessage>::empty(),
    {
        MessageTable { rows: Vec::new() }
    }

    /// The number of rows.
    pub fn len(&self) -> (n: usize)
        ensures
            n == self@.len(),
    {
        self.rows.len()
    }

    /// The row written as the `index`-th, or `None` past the last row.
    pub fn row(&self, index: usize) -> (row: Option<RelayedMessage>)
        ensures
            row == if index < self@.len() {
                Some(self@[index as int])
            } else {
                None
            },
    {
        if index < self.rows.len() {
            Some(self.rows[index])
        } else {
            None
        }
    }
}

/// Writes the row `(original_message_id, message_id, channel_id)` behind the
/// rows that the table holds. No row is changed or removed.
pub fn create_message(
    table: &mut MessageTable,
    original_message_id: u64,
    message_id: u64,
    channel_id: u64,
)
    ensures
        final(table)@ == old(table)@.push(
            RelayedMessage {
                original_message_id,
                relayed_message_id: message_id,
                destination_channel_id: channel_id,
            },
        ),
{
    table.rows.push(
        RelayedMessage {
            original_message_id,
            relayed_message_id: message_id,
            destination_channel_id: channel_id,
        },
    );
}

/// Looks up the copies of a message: for each row of `original_message_id`,
/// the id of the copy and the channel it went to, oldest row first.
pub fn get_messages(table: &MessageTable, original_message_id: u64) -> (copies: Vec<(u64, u64)>)
    ensures
        copies@ == lookup_all(table@, original_message_id),
{
    let ghost rows = table@;
    let mut copies: Vec<(u64, u64)> = Vec::new();
    let mut i: usize = 0;
    proof {
        reveal(Seq::filter);
        assert(rows.take(0).filter(of_message(original_message_id)) =~= Seq::empty());
    }
    while i < table.rows.len()
        invariant
            i <= table.rows.len(),
            rows == table@,
            rows == table.rows@,
            copies@ == lookup_all(rows.take(i as int), original_message_id),
        decreases table.rows.len() - i,
    {
        let row = table.rows[i];
        proof {
            let before = rows.take(i as int);
            assert(rows.take(i + 1) =~= before.push(row));
            before.lemma_filter_push(row, of_message(original_message_id));
            if row.original_message_id == original_message_id {
                assert(before.push(row).filter(of_message(original_message_id)).map_values(
                    copy_and_channel(),
                ) =~= lookup_all(before, original_message_id).push(
                    (row.relayed_message_id, row.destination_channel_id),
                ));
            }
        }
        if row.original_message_id == original_message_id {
            copies.push((row.relayed_message_id, row.destination_channel_id));
        }
        i += 1;
    }
    proof {
        assert(rows.take(i as int) =~= rows);
    }
    copies
}

/// Rows that all belong to one message are all found by a lookup of that
/// message, and none of them by a lookup of another.
pub proof fn lemma_lookup_of_own_rows(rows: Seq<RelayedMessage>, original_message_id: u64)
    requires
        forall|k: int|
            0 <= k < rows.len() ==> (#[trigger] rows[k]).original_message_id
                == original_message_id,
    ensures
        lookup_all(rows, original_message_id) == rows.map_values(copy_and_channel()),
        forall|other: u64|
            other != original_message_id ==> (#[trigger] lookup_all(rows, other)).len() == 0,
{
    lemma_filter_keeps_all(rows, of_message(original_message_id));
    assert forall|other: u64| other != original_message_id implies (#[trigger] lookup_all(
        rows,
        other,
    )).len() == 0 by {
        let foreign = of_message(other);
        assert(rows.all(|row: RelayedMessage| !foreign(row)));
        rows.lemma_all_neg_filter_empty(foreign);
    }
}

proof fn lemma_filter_keeps_all<A>(s: Seq<A>, pred: spec_fn(A) -> bool)
    requires
        forall|k: int| 0 <= k < s.len() ==> pred(#[trigger] s[k]),
    ensures
        s.filter(pred) == s,
    decreases s.len(),
{
    reveal(Seq::filter);
    if s.len() > 0 {
        lemma_filter_keeps_all(s.drop_last(), pred);
        assert(s =~= s.drop_last().push(s.last()));
    }
}

/// Writing rows changes no lookup but by what the new rows add: a lookup in
/// the longer table gives what it gave in the shorter one, followed by what
/// it gives in the rows written since.
pub proof fn lemma_lookup_is_append_only(
    before: Seq<RelayedMessage>,
    written: Seq<RelayedMessage>,
    original_message_id: u64,
)
    ensures
        lookup_all(before + written, original_message_id) == lookup_all(
            before,
            original_message_id,
        ) + lookup_all(written, original_message_id),
{
    Seq::filter_distributes_over_add(before, written, of_message(original_message_id));
    assert(lookup_all(before + written, original_message_id) =~= lookup_all(
        before,
        original_message_id,
    ) + lookup_all(written, original_message_id));
}

} // verus!
