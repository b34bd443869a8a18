use globalchat::model::RelayedMessage;
use globalchat::store::{create_message, get_messages, MessageTable};

#[test]
fn a_new_table_is_empty() {
    let table = MessageTable::new();
    assert_eq!(table.len(), 0);
    assert_eq!(table.row(0), None);
    assert_eq!(get_messages(&table, 100), Vec::<(u64, u64)>::new());
}

#[test]
fn rows_are_kept_in_the_order_written() {
    let mut table = MessageTable::new();
    create_message(&mut table, 100, 201, 2);
    create_message(&mut table, 100, 301, 3);
    assert_eq!(table.len(), 2);
    assert_eq!(
        table.row(0),
        Some(RelayedMessage {
            original_message_id: 100,
            relayed_message_id: 201,
            destination_channel_id: 2
        })
    );
    assert_eq!(
        table.row(1),
        Some(RelayedMessage {
            original_message_id: 100,
            relayed_message_id: 301,
            destination_channel_id: 3
        })
    );
    assert_eq!(table.row(2), None);
}

#[test]
fn lookup_gives_copy_and_channel_of_the_rows_of_one_message() {
    let mut table = MessageTable::new();
    create_message(&mut table, 100, 201, 2);
    create_message(&mut table, 500, 601, 2);
    create_message(&mut table, 100, 301, 3);
    create_message(&mut table, 500, 701, 7);
    assert_eq!(get_messages(&table, 100), vec![(201, 2), (301, 3)]);
    assert_eq!(get_messages(&table, 500), vec![(601, 2), (701, 7)]);
    assert_eq!(get_messages(&table, 999), Vec::<(u64, u64)>::new());
}

#[test]
fn writing_a_row_leaves_earlier_lookups_as_they_were() {
    let mut table = MessageTable::new();
    create_message(&mut table, 100, 201, 2);
    let before = get_messages(&table, 100);
    create_message(&mut table, 500, 601, 2);
    assert_eq!(get_messages(&table, 100), before);
    create_message(&mut table, 100, 301, 3);
    assert_eq!(get_messages(&table, 100)[..1], before[..]);
}
