use protonmail_client::automation::{apply_updates, build_rule, new_rule, updated_rule};
use protonmail_client::hydroxide::{launch_decision, readiness_step, stop_if_we_started, LaunchDecision, ReadinessStep};
use protonmail_client::mail::{
    body_plan, create_folder, enabled_rule_count, ensure_account, find_mailbox_named, unread_marker, with_bodies,
    AccountChoice, BodyPlan,
};
use protonmail_client::schema::{Account, AutomationRule, Email, EmailDetail, Mailbox};
use protonmail_client::session::{
    adopted_email, connection_ready, db_path, keychain_value, load_credentials, next_sync_step, require_login,
    require_sender, SyncStep,
};

fn account() -> Account {
    Account {
        id: "acc-1".to_string(),
        email: "me@proton.me".to_string(),
        display_name: None,
        bridge_host: None,
        bridge_imap_port: None,
        bridge_smtp_port: None,
    }
}

fn is_v4_uuid(s: &str) -> bool {
    s.len() == 36
        && s.chars().enumerate().all(|(i, c)| {
            if [8, 13, 18, 23].contains(&i) { c == '-' } else { c.is_ascii_hexdigit() && !c.is_ascii_uppercase() }
        })
        && s.as_bytes()[14] == b'4'
}

#[test]
fn credentials_need_email_then_password() {
    assert_eq!(
        load_credentials(None, None),
        Err("No email in Keychain. Run: pm-cli setup <email> <password>".to_string())
    );
    assert_eq!(
        load_credentials(Some("me@proton.me".to_string()), None),
        Err("No password in Keychain. Run: pm-cli setup <email> <password>".to_string())
    );
    assert_eq!(
        load_credentials(Some("me@proton.me".to_string()), Some("pw".to_string())),
        Ok(("me@proton.me".to_string(), "pw".to_string()))
    );
    assert_eq!(keychain_value(true, "  secret\n"), Some("secret".to_string()));
    assert_eq!(keychain_value(false, "secret"), None);
}

#[test]
fn session_guards() {
    assert!(connection_ready(&Some("pw".to_string()), "me@proton.me"));
    assert!(!connection_ready(&None, "me@proton.me"));
    assert!(!connection_ready(&Some("pw".to_string()), ""));
    assert_eq!(require_login(None, "me".to_string()), Err("No bridge password".to_string()));
    assert_eq!(require_login(Some("pw".to_string()), String::new()), Err("No account email configured".to_string()));
    assert_eq!(require_login(Some("pw".to_string()), "me".to_string()), Ok(("me".to_string(), "pw".to_string())));
    assert_eq!(require_sender(String::new()), Err("No account email configured yet — wait for first sync".to_string()));
    assert_eq!(require_sender("me".to_string()), Ok("me".to_string()));
}

#[test]
fn sync_loop_steps() {
    assert_eq!(next_sync_step(None, "me".to_string(), None), SyncStep::WaitForPassword { seconds: 10 });
    assert_eq!(next_sync_step(Some("pw".to_string()), String::new(), None), SyncStep::WaitForEmail { seconds: 5 });
    assert_eq!(
        next_sync_step(Some("pw".to_string()), String::new(), Some(account())),
        SyncStep::AdoptEmail { email: "me@proton.me".to_string() }
    );
    assert_eq!(
        next_sync_step(Some("pw".to_string()), "me@proton.me".to_string(), Some(account())),
        SyncStep::Connect { user: "me@proton.me".to_string(), password: "pw".to_string() }
    );
    assert_eq!(
        next_sync_step(Some("pw".to_string()), "me".to_string(), None),
        SyncStep::Connect { user: "me".to_string(), password: "pw".to_string() }
    );
    assert_eq!(adopted_email("", Some(account())), Some("me@proton.me".to_string()));
    assert_eq!(adopted_email("other@x", Some(account())), None);
    assert_eq!(adopted_email("", None), None);
}

#[test]
fn database_path() {
    assert_eq!(db_path(Some("/Users/me")), "/Users/me/Library/Application Support/com.protonmail.client/protonmail.db");
    assert_eq!(db_path(None), "./Library/Application Support/com.protonmail.client/protonmail.db");
}

#[test]
fn bridge_launcher() {
    assert_eq!(launch_decision(true), LaunchDecision::AlreadyRunning);
    assert_eq!(launch_decision(false), LaunchDecision::Start);
    assert_eq!(readiness_step(3, true), ReadinessStep::Ready { waited_ms: 1500 });
    assert_eq!(readiness_step(0, false), ReadinessStep::SleepThenProbe { sleep_ms: 500 });
    assert_eq!(readiness_step(29, false), ReadinessStep::SleepThenGiveUp { sleep_ms: 500 });
    let mut started = Some(1234u32);
    assert_eq!(stop_if_we_started(&mut started), Some(1234));
    assert_eq!(stop_if_we_started(&mut started), None);
}

fn rule() -> AutomationRule {
    new_rule("r-1".to_string(), 100, "n".to_string(), "[]".to_string(), "[]".to_string(), 3)
}

#[test]
fn rules_are_created_and_updated() {
    let r = rule();
    assert_eq!((r.enabled, r.created_at, r.updated_at, r.priority), (1, Some(100), Some(100), 3));
    let u = updated_rule(r, Some("m".to_string()), Some(false), None, None, Some(7), 200);
    assert_eq!(
        u,
        AutomationRule {
            id: "r-1".to_string(),
            name: "m".to_string(),
            enabled: 0,
            priority: 7,
            conditions: "[]".to_string(),
            actions: "[]".to_string(),
            created_at: Some(100),
            updated_at: Some(200),
        }
    );
    let same = updated_rule(rule(), None, None, None, None, None, 300);
    assert_eq!(same, AutomationRule { updated_at: Some(300), ..rule() });
    let b = build_rule("x".to_string(), "c".to_string(), "a".to_string(), 0);
    assert!(is_v4_uuid(&b.id));
    assert_eq!(b.created_at, b.updated_at);
    let a = apply_updates(rule(), None, Some(true), None, None, None);
    assert_eq!((a.id.as_str(), a.created_at, a.enabled), ("r-1", Some(100), 1));
    assert!(a.updated_at.is_some());
}

fn stored(html: Option<&str>, text: Option<&str>) -> EmailDetail {
    EmailDetail {
        email: Email {
            uid: 1,
            mailbox_id: "acc:INBOX".to_string(),
            message_id: None,
            subject: None,
            sender_name: None,
            sender_email: None,
            recipients: None,
            date_utc: 0,
            flags: None,
            has_attachments: 0,
            preview: None,
            classification: None,
            classification_confidence_bits: None,
        },
        html_body: html.map(String::from),
        text_body: text.map(String::from),
    }
}

#[test]
fn bodies_are_fetched_only_when_missing() {
    assert_eq!(body_plan(None, "acc:INBOX"), Err("Email not found".to_string()));
    assert_eq!(body_plan(Some(stored(None, Some("t"))), "acc:INBOX"), Ok(BodyPlan::Cached(stored(None, Some("t")))));
    assert_eq!(
        body_plan(Some(stored(None, None)), "acc:INBOX"),
        Ok(BodyPlan::Fetch { detail: stored(None, None), mailbox_name: "INBOX".to_string() })
    );
    assert_eq!(with_bodies(stored(None, None), Some("<p>".to_string()), None), stored(Some("<p>"), None));
}

#[test]
fn folders_and_accounts() {
    assert_eq!(create_folder(None, "Work"), Err("No account configured".to_string()));
    let f = create_folder(Some(account()), "Work").unwrap();
    assert!(is_v4_uuid(&f.id));
    assert_eq!((f.account_id.as_str(), f.name.as_str(), f.path.as_str(), f.unread_count), ("acc-1", "Work", "Work", Some(0)));
    assert_eq!(ensure_account(Some(account())), AccountChoice::Existing { id: "acc-1".to_string() });
    match ensure_account(None) {
        AccountChoice::Create { id } => assert!(is_v4_uuid(&id)),
        other => panic!("unexpected {:?}", other),
    }
}

fn mailbox(name: &str) -> Mailbox {
    Mailbox {
        id: format!("a:{}", name),
        account_id: "a".to_string(),
        name: name.to_string(),
        path: name.to_string(),
        uid_validity: None,
        last_synced_uid: None,
        unread_count: None,
    }
}

#[test]
fn listing_helpers() {
    let boxes = vec![mailbox("INBOX"), mailbox("Sent")];
    assert_eq!(find_mailbox_named(&boxes, "sent"), Ok(1));
    assert_eq!(find_mailbox_named(&boxes, "Spam"), Err("Mailbox 'Spam' not found. Available: INBOX, Sent".to_string()));
    let mut r2 = rule();
    r2.enabled = 0;
    assert_eq!(enabled_rule_count(&vec![rule(), r2, rule()]), 2);
    assert_eq!(unread_marker(&Some("[\"\\\\Seen\"]".to_string())), " ");
    assert_eq!(unread_marker(&None), "*");
}

#[test]
fn setup_values_are_read_back_unchanged() {
    let email = keychain_value(true, "me@proton.me\n").unwrap();
    let password = keychain_value(true, "s3cret pw\n").unwrap();
    assert_eq!(
        load_credentials(Some(email), Some(password)),
        Ok(("me@proton.me".to_string(), "s3cret pw".to_string()))
    );
}
