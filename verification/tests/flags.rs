use protonmail_client::flags::{flag_name, flag_names, flags_after_change, MessageFlag};

fn decode(s: &str) -> Vec<String> {
    serde_json::from_str(s).unwrap()
}

#[test]
fn adding_a_flag_appends_it_once() {
    let stored = Some("[\"\\\\Answered\"]".to_string());
    let out = flags_after_change(&stored, Some("\\Seen"), None);
    assert_eq!(decode(&out), vec!["\\Answered".to_string(), "\\Seen".to_string()]);
    let again = flags_after_change(&Some(out.clone()), Some("\\Seen"), None);
    assert_eq!(again, out);
}

#[test]
fn removing_a_flag_drops_every_copy() {
    let stored = Some("[\"\\\\Seen\",\"x\",\"\\\\Seen\"]".to_string());
    let out = flags_after_change(&stored, None, Some("\\Seen"));
    assert_eq!(decode(&out), vec!["x".to_string()]);
}

#[test]
fn missing_or_unreadable_flags_count_as_none() {
    assert_eq!(flags_after_change(&None, Some("\\Flagged"), None), "[\"\\\\Flagged\"]");
    assert_eq!(flags_after_change(&Some("not json".to_string()), None, Some("\\Seen")), "[]");
}

#[test]
fn unstar_undoes_star() {
    let stored = Some("[\"\\\\Seen\"]".to_string());
    let starred = flags_after_change(&stored, Some("\\Flagged"), None);
    let unstarred = flags_after_change(&Some(starred), None, Some("\\Flagged"));
    assert_eq!(decode(&unstarred), vec!["\\Seen".to_string()]);
}

#[test]
fn flags_are_stored_under_their_imap_names() {
    assert_eq!(flag_name(&MessageFlag::Seen), "\\Seen");
    assert_eq!(flag_name(&MessageFlag::Flagged), "\\Flagged");
    assert_eq!(flag_name(&MessageFlag::MayCreate), "\\*");
    assert_eq!(flag_name(&MessageFlag::Keyword("$Junk".to_string())), "$Junk");
    assert_eq!(
        flag_names(&vec![MessageFlag::Answered, MessageFlag::Seen]),
        vec!["\\Answered".to_string(), "\\Seen".to_string()]
    );
    // A message synchronised as read is unread after removing the flag mark_unread removes.
    let synced = Some(serde_json::to_string(&flag_names(&vec![MessageFlag::Seen])).unwrap());
    let unread = flags_after_change(&synced, None, Some(flag_name(&MessageFlag::Seen).as_str()));
    assert_eq!(unread, "[]");
}
