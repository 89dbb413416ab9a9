use jobpipe::clock::{
    cutoff, date_text, days_since, fits, parse_since, since_window, stale_cutoff, timestamp,
    Instant, SinceError,
};
use jobpipe::commands::followup::{advise, followup_report, suggest};
use jobpipe::db::entities::{application, company, posting};
use jobpipe::db::queries::AppRow;

// 2024-03-10T12:00:00Z
const NOON: Instant = Instant { secs: 1710072000, nanos: 0 };

fn app(stage: &str, applied: &str, contact: Option<&str>) -> application::Model {
    application::Model {
        id: 4,
        posting_id: 1,
        applied_at: applied.to_string(),
        stage: stage.to_string(),
        last_contact: contact.map(|c| c.to_string()),
        next_followup: None,
        notes: None,
    }
}

#[test]
fn timestamps_read_back() {
    assert_eq!(timestamp(NOON), "2024-03-10T12:00:00+00:00");
    let t = Instant { secs: 1710072000, nanos: 5_000_000 };
    assert_eq!(timestamp(t), "2024-03-10T12:00:00.005+00:00");
    assert_eq!(days_since(&timestamp(t), t), Some(0));
    assert_eq!(date_text(NOON), "2024-03-10");
    assert!(NOON.plain());
    assert!(!Instant { secs: 0, nanos: 1_000_000_000 }.plain());
}

#[test]
fn whole_days_are_counted() {
    assert_eq!(days_since("2024-03-03T12:00:00+00:00", NOON), Some(7));
    assert_eq!(days_since("2024-03-03T12:00:01+00:00", NOON), Some(6));
    assert_eq!(days_since("2024-03-10T14:00:00+02:00", NOON), Some(0));
    // the future counts backwards, also rounded toward zero
    assert_eq!(days_since("2024-03-12T11:00:00Z", NOON), Some(-1));
    assert_eq!(days_since("yesterday", NOON), None);
    assert_eq!(days_since("2016-12-31T23:59:60Z", NOON), Some(2625));
}

#[test]
fn windows_are_in_hours_days_or_weeks() {
    assert_eq!(since_window("1d").unwrap(), 86400);
    assert_eq!(since_window(" 3 ").unwrap(), 3 * 86400);
    assert_eq!(since_window("12h").unwrap(), 12 * 3600);
    assert_eq!(since_window("2w").unwrap(), 14 * 86400);
    assert_eq!(since_window("0").unwrap(), 0);
}

#[test]
fn bad_windows_are_explained() {
    let e = parse_since("abc", NOON).unwrap_err();
    assert!(matches!(e, SinceError::Invalid(_)));
    assert_eq!(e.message(), "invalid --since value 'abc'");
    assert_eq!(parse_since("", NOON).unwrap_err().message(), "invalid --since value ''");
    assert_eq!(
        parse_since("99999999999999999999", NOON).unwrap_err().message(),
        "invalid --since value '99999999999999999999'"
    );
    let e = parse_since("3 days", NOON).unwrap_err();
    assert!(matches!(e, SinceError::UnknownUnit(_)));
    assert_eq!(e.message(), "unknown --since unit ' days' (use h, d, or w)");
    assert_eq!(parse_since("-3d", NOON).unwrap_err().message(), "invalid --since value '-3d'");
}

#[test]
fn cutoffs_are_timestamps() {
    assert_eq!(parse_since("1d", NOON).unwrap(), "2024-03-09T12:00:00+00:00");
    assert_eq!(parse_since("12h", NOON).unwrap(), "2024-03-10T00:00:00+00:00");
    assert_eq!(cutoff(NOON, 60), "2024-03-10T11:59:00+00:00");
    assert_eq!(stale_cutoff(NOON), "2024-03-07T12:00:00+00:00");
    assert!(fits(NOON, 86400));
    assert!(!fits(NOON, i128::MAX));
}

#[test]
fn the_oldest_second_has_a_timestamp() {
    let first = Instant { secs: -8334601228800, nanos: 0 };
    assert!(first.plain() && !fits(first, 1));
    assert_eq!(timestamp(first), "-262143-01-01T00:00:00+00:00");
    let last = Instant { secs: 8210266876799, nanos: 999_999_999 };
    assert!(last.plain());
    assert!(timestamp(last).starts_with("+262142-12-31T23:59:59"));
    assert_eq!(days_since("1970-01-01T00:00:00Z", Instant { secs: 86400, nanos: 0 }), Some(1));
}

#[test]
fn silence_after_applying_is_nudged() {
    let none: Option<String> = None;
    assert_eq!(advise("applied", false, Some(6)), none);
    assert_eq!(
        advise("applied", false, Some(7)).unwrap(),
        "7d since applied, no response — send a follow-up email"
    );
    assert_eq!(
        advise("applied", false, Some(20)).unwrap(),
        "20d since applied, no response — send a follow-up email"
    );
    assert_eq!(
        advise("applied", false, Some(21)).unwrap(),
        "21d since applied, no response — consider marking ghosted"
    );
    assert_eq!(advise("applied", true, Some(30)), none);
    assert_eq!(advise("applied", false, None), none);
}

#[test]
fn quiet_loops_are_nudged() {
    assert_eq!(advise("screen", true, Some(4)), None);
    assert_eq!(advise("screen", true, Some(5)).unwrap(), "5d since last contact in screen — send a check-in");
    assert_eq!(
        advise("interview", false, Some(9)).unwrap(),
        "9d since last contact in interview — send a check-in"
    );
    for stage in ["offer", "rejected", "ghosted"] {
        assert_eq!(advise(stage, false, Some(100)), None);
    }
}

#[test]
fn the_last_contact_counts_in_a_loop() {
    let a = app("interview", "2024-01-01T00:00:00Z", Some("2024-03-08T12:00:00Z"));
    assert_eq!(suggest(&a, NOON), None);
    let a = app("interview", "2024-03-01T12:00:00Z", None);
    assert_eq!(suggest(&a, NOON).unwrap(), "9d since last contact in interview — send a check-in");
    let a = app("applied", "garbage", None);
    assert_eq!(suggest(&a, NOON), None);
}

#[test]
fn the_report_lists_what_is_due() {
    let p = posting::Model {
        id: 1,
        company_id: 2,
        external_id: "x".to_string(),
        title: "SRE".to_string(),
        location: None,
        remote: None,
        description: String::new(),
        apply_url: String::new(),
        first_seen: String::new(),
        last_seen: String::new(),
        closed_at: None,
        score: None,
        score_reason: None,
        flags: None,
        triaged_at: None,
        dismissed_at: None,
    };
    let c = company::Model {
        id: 2,
        name: "Acme".to_string(),
        ats: "lever".to_string(),
        slug: "acme".to_string(),
        careers_url: None,
        tags: None,
        active: 1,
        needs_review: 0,
        last_fetched: None,
    };
    let rows: Vec<AppRow> = vec![
        (app("applied", "2024-03-01T12:00:00Z", None), Some(p), Some(c)),
        (app("applied", "2024-03-09T12:00:00Z", None), None, None),
        (app("screen", "2024-03-01T12:00:00Z", None), None, None),
    ];
    assert_eq!(
        followup_report(&rows, NOON),
        "#4 SRE — Acme\n    → 9d since applied, no response — send a follow-up email\n\
         #4 (posting gone) — (unknown)\n    → 9d since last contact in screen — send a check-in\n\
         \n2 follow-up(s) due.\n"
    );
    assert_eq!(followup_report(&vec![], NOON), "No follow-ups due.\n");
}

#[test]
fn timestamps_sort_as_time_does() {
    let mut all: Vec<Instant> = Vec::new();
    for secs in [-62167219200, -1, 0, 59, 60, 86399, 86400, 951782399, 951782400, 1710072000, 253402300799] {
        for nanos in [0, 1, 999, 1000, 999_999, 1_000_000, 499_999_999, 500_000_000, 500_000_001, 500_001_000, 999_999_999] {
            all.push(Instant { secs, nanos });
        }
    }
    for a in &all {
        for b in &all {
            assert_eq!(timestamp(*a) < timestamp(*b), (a.secs, a.nanos) < (b.secs, b.nanos), "{a:?} {b:?}");
        }
        assert_eq!(days_since(&timestamp(*a), *a), Some(0));
    }
}
