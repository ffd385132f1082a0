use mailctl::audit::audit_line;
use mailctl::commands::{plan_flag, plan_label, plan_move, plan_restore, plan_trash, Step};
use mailctl::config::{Account, Config};
use mailctl::envelope::detect_bulk;
use mailctl::model::meta_row;
use mailctl::model::MessageMeta;
use mailctl::oauth::{cached_token_fresh, token_expiry};
use mailctl::provider::Provider;
use mailctl::query::{cached_match, translate_query};
use mailctl::retry::{retry_delay_ms, MAX_ATTEMPTS};
use mailctl::sync::plan_sync;
use std::collections::BTreeSet;

fn acct(email: &str) -> Account {
    Account {
        email: email.to_string(),
        provider: Provider::Gmail,
        client_id: None,
        secret_ref: None,
    }
}

fn mutation_index(plan: &[Step]) -> Option<usize> {
    plan.iter().position(|s| {
        matches!(
            s,
            Step::MoveMessages { .. }
                | Step::StoreLabels { .. }
                | Step::EnsureFolder { .. }
                | Step::AddFlag { .. }
        )
    })
}

#[test]
fn law_audit_precedes_every_mutation() {
    let folder = "INBOX".to_string();
    let plans = vec![
        plan_trash(Provider::Gmail, &folder, &vec![1], true, None),
        plan_restore(Provider::Hotmail, &vec![1], &folder, None),
        plan_move(&folder, &vec![1], &"A".to_string(), true, None),
        plan_label(Provider::Gmail, &folder, &vec![1], &vec!["L".into()], &vec![], None).unwrap(),
        plan_flag(&folder, 7, true, true),
        plan_flag(&folder, 7, false, true),
    ];
    for plan in plans {
        let m = mutation_index(&plan).unwrap();
        assert!(plan[..m].iter().any(|s| matches!(s, Step::Audit { .. })));
    }
}

#[test]
fn law_unconfirmed_trash_changes_nothing() {
    let plan = plan_trash(Provider::Gmail, &"INBOX".to_string(), &vec![1, 2, 3], false, None);
    assert_eq!(mutation_index(&plan), None);
    assert!(!plan.iter().any(|s| matches!(s, Step::Audit { .. })));
}

#[test]
fn law_sync_converges_to_server() {
    let server = vec![10, 11, 12, 20];
    let cached = vec![9, 11, 12, 13];
    let p = plan_sync(&server, &cached);
    let mut after: BTreeSet<u32> = cached.iter().copied().collect();
    for u in &p.deleted {
        after.remove(u);
    }
    for u in &p.new_uids {
        assert!(!cached.contains(u));
        after.insert(*u);
    }
    let want: BTreeSet<u32> = server.iter().copied().collect();
    assert_eq!(after, want);
    assert_eq!(p.existing, vec![11, 12]);
}

#[test]
fn law_retry_attempts_bounded() {
    // Every attempt fails transiently: the loop stops after MAX_ATTEMPTS.
    let mut attempt: u32 = 1;
    let mut made = 1;
    while let Some(_ms) = retry_delay_ms(attempt, true) {
        attempt += 1;
        made += 1;
    }
    assert_eq!(made, MAX_ATTEMPTS);
    // A permanent failure ends the run at once.
    assert_eq!(retry_delay_ms(1, false), None);
    // Waits double.
    assert_eq!(retry_delay_ms(2, true).unwrap(), 2 * retry_delay_ms(1, true).unwrap());
}

#[test]
fn law_lookup_after_upsert_and_remove() {
    let mut c = Config::new();
    c.upsert(acct("a@x"));
    c.upsert(acct("b@x"));
    let mut a2 = acct("a@x");
    a2.provider = Provider::Hotmail;
    c.upsert(a2);
    // Read after write.
    assert_eq!(c.resolve(Some("a@x")).unwrap().provider, Provider::Hotmail);
    // Other lookups unchanged; emails stay unique.
    assert_eq!(c.resolve(Some("b@x")).unwrap().provider, Provider::Gmail);
    assert_eq!(c.accounts.iter().filter(|a| a.email == "a@x").count(), 1);
    // After removal the email is gone and the others remain.
    c.remove("a@x");
    assert!(c.resolve(Some("a@x")).is_err());
    assert!(c.resolve(Some("b@x")).is_ok());
}

#[test]
fn law_query_and_semantics() {
    let m = MessageMeta {
        uid: 1,
        from: "Alice".into(),
        subject: "Budget review".into(),
        date: None,
        unread: false,
        size: None,
        is_bulk: false,
    };
    for (a, b) in [("budget", "is:read"), ("from:alice", "review"), ("budget", "is:unread")] {
        let both = format!("{a} {b}");
        assert_eq!(
            cached_match(&m, Some(&both)),
            cached_match(&m, Some(a)) && cached_match(&m, Some(b))
        );
    }
    assert_eq!(translate_query(Some(" \t ")), "ALL");
}

#[test]
fn law_bulk_detection_ignores_case() {
    let h = b"X: 1\r\nLIST-UNSUBSCRIBE: <u>\r\n";
    let lower: Vec<u8> = h.iter().map(|b| b.to_ascii_lowercase()).collect();
    assert_eq!(detect_bulk(h), detect_bulk(&lower));
    assert!(detect_bulk(h));
}

#[test]
fn law_tsv_rows_stay_on_one_line() {
    let m = MessageMeta {
        uid: 3,
        from: "a\tb".into(),
        subject: "line1\r\nline2".into(),
        date: Some("x\ty".into()),
        unread: true,
        size: Some(1),
        is_bulk: false,
    };
    let row = meta_row(&m);
    assert!(!row.contains('\n') && !row.contains('\r'));
    assert_eq!(row.matches('\t').count(), 6);
}

#[test]
fn law_fresh_token_window() {
    let issued = 1_000;
    let expires_at = token_expiry(issued, Some(3600));
    assert!(cached_token_fresh(issued, expires_at));
    assert!(cached_token_fresh(issued + 3000, expires_at));
    assert!(!cached_token_fresh(issued + 3540, expires_at));
}

#[test]
fn law_audit_record_is_one_line() {
    let line = audit_line(5, "a\nb", "move", "x\r\ny", Some("z\n"), &vec![1, 2]);
    assert!(!line.contains('\n') && !line.contains('\r'));
    assert!(line.starts_with('{') && line.ends_with('}'));
}

#[test]
fn law_restore_reverses_trash() {
    let folder = "INBOX".to_string();
    let trash = plan_trash(Provider::Gmail, &folder, &vec![4], true, None);
    let restore = plan_restore(Provider::Gmail, &vec![9], &folder, None);
    match (&trash[1], &restore[1]) {
        (Step::MoveMessages { from: f1, to: t1, .. }, Step::MoveMessages { from: f2, to: t2, .. }) => {
            assert_eq!((f1, t1), (t2, f2));
        }
        _ => panic!("unexpected plans"),
    }
}

#[test]
fn law_logout_is_idempotent_on_config() {
    let mut c = Config::new();
    c.upsert(acct("a@x"));
    c.upsert(acct("b@x"));
    c.remove("a@x");
    let once: Vec<String> = c.accounts.iter().map(|a| a.email.clone()).collect();
    let default_once = c.default_account.clone();
    c.remove("a@x");
    let twice: Vec<String> = c.accounts.iter().map(|a| a.email.clone()).collect();
    assert_eq!(once, twice);
    assert_eq!(default_once, c.default_account);
}
