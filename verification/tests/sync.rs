use protonmail_client::sync::{
    discovered_mailbox, fetch_range, find_inbox, mailbox_id_for, mailbox_name_from_id, new_uids, uid_batches,
    MailboxProgress,
};

#[test]
fn fetch_range_starts_after_the_watermark() {
    assert_eq!(fetch_range(0), "1:*");
    assert_eq!(fetch_range(-5), "1:*");
    assert_eq!(fetch_range(41), "42:*");
    assert_eq!(fetch_range(9999999999), "10000000000:*");
}

#[test]
fn only_newer_uids_are_downloaded() {
    assert_eq!(new_uids(&vec![Some(3), None, Some(10), Some(11), Some(5)], 5), vec![10, 11]);
    assert_eq!(new_uids(&vec![], 0), Vec::<u32>::new());
}

#[test]
fn uids_go_out_in_batches_of_twenty() {
    let uids: Vec<u32> = (1..=45).collect();
    let batches = uid_batches(&uids);
    assert_eq!(batches.len(), 3);
    assert_eq!(batches[0], (1..=20).map(|u| u.to_string()).collect::<Vec<_>>().join(","));
    assert_eq!(batches[1], (21..=40).map(|u| u.to_string()).collect::<Vec<_>>().join(","));
    assert_eq!(batches[2], "41,42,43,44,45");
    assert!(uid_batches(&vec![]).is_empty());
    assert_eq!(uid_batches(&vec![7]), vec!["7".to_string()]);
}

#[test]
fn watermark_moves_forward_only() {
    let mut p = MailboxProgress::start(10);
    assert_eq!(p.accept(Some(9)), None);
    assert_eq!(p.accept(None), None);
    assert_eq!(p.new_watermark(), None);
    assert_eq!(p.accept(Some(15)), Some(15));
    p.record_stored();
    assert_eq!(p.accept(Some(12)), Some(12));
    p.record_stored();
    assert_eq!(p.new_count, 2);
    assert_eq!(p.new_watermark(), Some(15));
}

#[test]
fn watermark_covers_messages_that_failed_to_store() {
    let mut p = MailboxProgress::start(3);
    assert_eq!(p.accept(Some(4)), Some(4));
    p.record_stored();
    assert_eq!(p.accept(Some(8)), Some(8));
    assert_eq!(p.accept(Some(6)), Some(6));
    p.record_stored();
    assert_eq!(p.new_count, 2);
    assert_eq!(p.new_watermark(), Some(8));
}

#[test]
fn mailbox_ids_round_trip() {
    let id = mailbox_id_for("acc-1", "Archive");
    assert_eq!(id, "acc-1:Archive");
    assert_eq!(mailbox_name_from_id(&id), "Archive");
    assert_eq!(mailbox_name_from_id("plain"), "plain");
    assert_eq!(mailbox_name_from_id("a:b:c"), "b");
    assert_eq!(mailbox_name_from_id("a:"), "");
    let m = discovered_mailbox("acc-1", "Sent");
    assert_eq!((m.id.as_str(), m.path.as_str(), m.last_synced_uid, m.unread_count), ("acc-1:Sent", "Sent", Some(0), Some(0)));
}

#[test]
fn inbox_is_found_ignoring_case() {
    let ids = vec![("a:Sent".to_string(), "Sent".to_string()), ("a:inbox".to_string(), "inbox".to_string())];
    assert_eq!(find_inbox(&ids), Some(1));
    assert_eq!(find_inbox(&vec![("a:Sent".to_string(), "Sent".to_string())]), None);
}
