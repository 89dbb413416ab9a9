use jobpipe::db::entities::{application, company, posting};
use jobpipe::db::queries::{
    active_companies, add_company, close_stale_postings, count_companies, create_application,
    delete_application, list_applications, list_companies, mark_needs_review, open_postings,
    posting_with_company, reset_triage, seed_companies, set_dismissed, set_triage,
    set_triage_bulk, touch_last_fetched, unapplied_open_postings, untriaged_postings,
    update_application_stage, upsert_posting, ApplyOutcome, PostingWrite, SeedCompany,
    UpsertOutcome,
};
use jobpipe::normalize::NormalizedPosting;

fn co(id: i32, name: &str, ats: &str, slug: &str) -> company::Model {
    company::Model {
        id,
        name: name.to_string(),
        ats: ats.to_string(),
        slug: slug.to_string(),
        careers_url: None,
        tags: None,
        active: 1,
        needs_review: 0,
        last_fetched: None,
    }
}

fn job(id: i32, company_id: i32, seen: &str, score: Option<i32>) -> posting::Model {
    posting::Model {
        id,
        company_id,
        external_id: format!("x{id}"),
        title: format!("job {id}"),
        location: None,
        remote: None,
        description: String::new(),
        apply_url: String::new(),
        first_seen: seen.to_string(),
        last_seen: seen.to_string(),
        closed_at: None,
        score,
        score_reason: None,
        flags: None,
        triaged_at: None,
        dismissed_at: None,
    }
}

fn app(id: i32, posting_id: i32, at: &str, stage: &str) -> application::Model {
    application::Model {
        id,
        posting_id,
        applied_at: at.to_string(),
        stage: stage.to_string(),
        last_contact: None,
        next_followup: None,
        notes: None,
    }
}

fn seed(name: &str, ats: &str, slug: &str) -> SeedCompany {
    SeedCompany {
        name: name.to_string(),
        ats: ats.to_string(),
        slug: slug.to_string(),
        careers_url: Some("https://c".to_string()),
        tags: Some("rust".to_string()),
    }
}

fn listed(external_id: &str, title: &str) -> NormalizedPosting {
    NormalizedPosting {
        external_id: external_id.to_string(),
        title: title.to_string(),
        location: Some("Berlin".to_string()),
        remote: "hybrid".to_string(),
        description: "d".to_string(),
        apply_url: "u".to_string(),
    }
}

fn ids(rows: &[(posting::Model, Option<company::Model>)]) -> Vec<i32> {
    rows.iter().map(|r| r.0.id).collect()
}

#[test]
fn seeding_takes_each_new_board_once() {
    let rows = vec![co(1, "Old", "lever", "old")];
    let seeds = vec![
        seed("Old again", "lever", "old"),
        seed("A", "lever", "a"),
        seed("A twice", "lever", "a"),
        seed("A elsewhere", "ashby", "a"),
    ];
    let drafts = seed_companies(&rows, &seeds);
    assert_eq!(drafts.iter().map(|d| d.name.as_str()).collect::<Vec<_>>(), vec!["A", "A elsewhere"]);
    assert_eq!((drafts[0].active, drafts[0].needs_review), (1, 0));
    assert_eq!(drafts[0].tags.as_deref(), Some("rust"));
    assert_eq!(drafts[0].last_fetched, None);
}

#[test]
fn seeding_again_adds_nothing() {
    let seeds = vec![seed("A", "lever", "a"), seed("B", "ashby", "b")];
    let drafts = seed_companies(&vec![], &seeds);
    let rows: Vec<company::Model> = drafts
        .iter()
        .enumerate()
        .map(|(i, d)| co(i as i32, &d.name, &d.ats, &d.slug))
        .collect();
    assert_eq!(rows.len(), 2);
    assert!(seed_companies(&rows, &seeds).is_empty());
}

#[test]
fn adding_a_tracked_company_is_refused() {
    let rows = vec![co(1, "A", "lever", "a")];
    assert!(add_company(&rows, "A", "lever", "a", None).is_none());
    let d = add_company(&rows, "A", "ashby", "a", Some("https://x")).unwrap();
    assert_eq!((d.name.as_str(), d.ats.as_str(), d.slug.as_str()), ("A", "ashby", "a"));
    assert_eq!(d.careers_url.as_deref(), Some("https://x"));
    assert_eq!(d.tags, None);
    assert_eq!(count_companies(&rows), 1);
}

#[test]
fn companies_are_listed_by_system_and_name() {
    let mut rows = vec![co(1, "Zed", "ashby", "z"), co(2, "Bee", "lever", "b"), co(3, "Abe", "ashby", "a")];
    rows[1].needs_review = 1;
    let all: Vec<i32> = list_companies(&rows, false).iter().map(|c| c.id).collect();
    assert_eq!(all, vec![3, 1, 2]);
    let flagged: Vec<i32> = list_companies(&rows, true).iter().map(|c| c.id).collect();
    assert_eq!(flagged, vec![2]);
}

#[test]
fn active_companies_are_filtered_and_by_name() {
    let mut rows = vec![co(1, "Zed", "ashby", "z"), co(2, "Bee", "lever", "b"), co(3, "Abe", "ashby", "a")];
    assert_eq!(active_companies(&rows, None).iter().map(|c| c.id).collect::<Vec<_>>(), vec![3, 2, 1]);
    assert_eq!(active_companies(&rows, Some("ashby")).iter().map(|c| c.id).collect::<Vec<_>>(), vec![3, 1]);
    rows[2].active = 0;
    assert_eq!(active_companies(&rows, Some("ashby")).iter().map(|c| c.id).collect::<Vec<_>>(), vec![1]);
}

#[test]
fn companies_are_flagged_and_stamped() {
    let mut rows = vec![co(1, "A", "lever", "a"), co(2, "B", "lever", "b")];
    mark_needs_review(&mut rows, 2);
    touch_last_fetched(&mut rows, 1, "t");
    assert_eq!((rows[0].needs_review, rows[1].needs_review), (0, 1));
    assert_eq!((rows[0].last_fetched.as_deref(), rows[1].last_fetched.as_deref()), (Some("t"), None));
}

#[test]
fn a_new_posting_is_inserted() {
    let w = upsert_posting(&vec![], 5, &listed("e1", "T"), "now");
    assert_eq!(w.outcome(), UpsertOutcome::Inserted);
    match w {
        PostingWrite::Insert(d) => {
            assert_eq!((d.company_id, d.external_id.as_str(), d.title.as_str()), (5, "e1", "T"));
            assert_eq!((d.first_seen.as_str(), d.last_seen.as_str()), ("now", "now"));
            assert_eq!(d.remote.as_deref(), Some("hybrid"));
        }
        other => panic!("{other:?}"),
    }
}

#[test]
fn a_known_posting_is_refreshed_and_reopened() {
    let mut old = job(9, 5, "2024-01-01", Some(8));
    old.closed_at = Some("2024-02-01".to_string());
    old.triaged_at = Some("2024-01-02".to_string());
    old.dismissed_at = Some("2024-01-03".to_string());
    let same_id_elsewhere = job(10, 6, "2024-01-01", None);
    let rows = vec![same_id_elsewhere, old];
    let w = upsert_posting(&rows, 5, &listed("x9", "New title"), "now");
    assert_eq!(w.outcome(), UpsertOutcome::Updated);
    match w {
        PostingWrite::Update(u) => {
            assert_eq!((u.id, u.title.as_str(), u.last_seen.as_str()), (9, "New title", "now"));
            assert_eq!(u.first_seen, "2024-01-01");
            assert_eq!(u.closed_at, None);
            assert_eq!(u.score, Some(8));
            assert_eq!(u.triaged_at.as_deref(), Some("2024-01-02"));
            assert_eq!(u.dismissed_at.as_deref(), Some("2024-01-03"));
        }
        other => panic!("{other:?}"),
    }
    assert_eq!(upsert_posting(&rows, 6, &listed("x9", "T"), "now").outcome(), UpsertOutcome::Inserted);
}

#[test]
fn only_stale_postings_of_fetched_boards_close() {
    let mut rows = vec![
        job(1, 1, "2024-01-01", None),
        job(2, 1, "2024-01-05", None),
        job(3, 2, "2024-01-01", None),
        job(4, 1, "2024-01-02", None),
    ];
    rows[3].closed_at = Some("before".to_string());
    assert_eq!(close_stale_postings(&mut rows, &vec![], "2024-01-05", "now"), 0);
    assert_eq!(close_stale_postings(&mut rows, &vec![1], "2024-01-05", "now"), 1);
    let closed: Vec<Option<&str>> = rows.iter().map(|p| p.closed_at.as_deref()).collect();
    assert_eq!(closed, vec![Some("now"), None, None, Some("before")]);
    assert_eq!(close_stale_postings(&mut rows, &vec![1], "2024-01-05", "later"), 0);
}

#[test]
fn untriaged_postings_come_oldest_first() {
    let mut rows = vec![job(1, 1, "c", None), job(2, 1, "a", None), job(3, 1, "b", None), job(4, 1, "0", None)];
    rows[3].triaged_at = Some("t".to_string());
    let order: Vec<i32> = untriaged_postings(&rows, None).iter().map(|p| p.id).collect();
    assert_eq!(order, vec![2, 3, 1]);
    assert_eq!(untriaged_postings(&rows, Some(2)).iter().map(|p| p.id).collect::<Vec<_>>(), vec![2, 3]);
    assert_eq!(untriaged_postings(&rows, Some(0)).len(), 0);
    assert_eq!(untriaged_postings(&rows, Some(u64::MAX)).len(), 3);
}

#[test]
fn a_scored_posting_is_not_sent_again_until_reset() {
    let mut rows = vec![job(1, 1, "a", None), job(2, 1, "b", None), job(3, 1, "c", None)];
    set_triage(&mut rows, 1, 9, "fit", "[]", "t");
    assert_eq!((rows[0].score, rows[0].score_reason.as_deref(), rows[0].flags.as_deref()), (Some(9), Some("fit"), Some("[]")));
    set_triage_bulk(&mut rows, &vec![3], 0, "no", "[\"f\"]", "t");
    assert_eq!(untriaged_postings(&rows, None).iter().map(|p| p.id).collect::<Vec<_>>(), vec![2]);
    rows[2].closed_at = Some("gone".to_string());
    assert_eq!(reset_triage(&mut rows), 1);
    assert_eq!(rows[0].score, None);
    assert_eq!(rows[2].score, Some(0));
    assert_eq!(untriaged_postings(&rows, None).iter().map(|p| p.id).collect::<Vec<_>>(), vec![1, 2]);
}

#[test]
fn the_digest_is_ranked_by_score_then_recency() {
    let rows = vec![
        job(1, 1, "2024-01-01", Some(7)),
        job(2, 1, "2024-01-03", Some(9)),
        job(3, 2, "2024-01-02", Some(7)),
        job(4, 1, "2024-01-04", None),
        job(5, 1, "2024-01-05", Some(6)),
    ];
    let cos = vec![co(1, "A", "lever", "a")];
    let d = open_postings(&rows, &cos, None, Some(7));
    assert_eq!(ids(&d), vec![2, 3, 1]);
    assert_eq!(d[0].1.as_ref().map(|c| c.name.as_str()), Some("A"));
    assert!(d[1].1.is_none());
    assert_eq!(ids(&open_postings(&rows, &cos, None, None)), vec![2, 3, 1, 5, 4]);
    assert_eq!(ids(&open_postings(&rows, &cos, Some("2024-01-03"), Some(6))), vec![2, 5]);
}

#[test]
fn dismissed_and_closed_postings_are_hidden() {
    let mut rows = vec![job(1, 1, "a", Some(9)), job(2, 1, "b", Some(9))];
    rows[1].closed_at = Some("t".to_string());
    let before = rows[0].clone();
    let p = set_dismissed(&mut rows, 1, Some("now")).unwrap();
    assert_eq!(p.dismissed_at.as_deref(), Some("now"));
    assert!(open_postings(&rows, &vec![], None, None).is_empty());
    assert!(unapplied_open_postings(&rows, &vec![], &vec![], None).is_empty());
    let p = set_dismissed(&mut rows, 1, None).unwrap();
    assert_eq!(format!("{p:?}"), format!("{before:?}"));
    assert_eq!(ids(&open_postings(&rows, &vec![], None, None)), vec![1]);
    assert!(set_dismissed(&mut rows, 77, None).is_none());
}

#[test]
fn the_picker_leaves_out_what_was_applied_to() {
    let rows = vec![job(1, 1, "a", Some(8)), job(2, 1, "b", Some(8))];
    let apps = vec![app(1, 2, "t", "applied")];
    assert_eq!(ids(&unapplied_open_postings(&rows, &vec![], &apps, Some(7))), vec![1]);
    assert!(unapplied_open_postings(&rows, &vec![], &apps, Some(9)).is_empty());
}

#[test]
fn a_posting_is_found_with_its_company() {
    let rows = vec![job(1, 3, "a", None)];
    let cos = vec![co(3, "A", "lever", "a")];
    let (p, c) = posting_with_company(&rows, &cos, 1).unwrap();
    assert_eq!((p.id, c.unwrap().id), (1, 3));
    assert!(posting_with_company(&rows, &cos, 2).is_none());
}

#[test]
fn a_role_is_applied_to_once() {
    let mut apps: Vec<application::Model> = vec![];
    match create_application(&apps, 7, "now") {
        ApplyOutcome::Created(d) => {
            assert_eq!((d.posting_id, d.applied_at.as_str(), d.stage.as_str()), (7, "now", "applied"));
            assert!(d.last_contact.is_none() && d.next_followup.is_none() && d.notes.is_none());
            apps.push(app(1, d.posting_id, &d.applied_at, &d.stage));
        }
        other => panic!("{other:?}"),
    }
    match create_application(&apps, 7, "later") {
        ApplyOutcome::Existing(a) => assert_eq!((a.id, a.applied_at.as_str()), (1, "now")),
        other => panic!("{other:?}"),
    }
}

#[test]
fn applications_are_listed_newest_first() {
    let apps = vec![
        app(1, 1, "2024-01-01", "applied"),
        app(2, 2, "2024-01-03", "rejected"),
        app(3, 9, "2024-01-02", "screen"),
        app(4, 1, "2024-01-04", "ghosted"),
    ];
    let jobs = vec![job(1, 3, "a", None)];
    let cos = vec![co(3, "A", "lever", "a")];
    let open = list_applications(&apps, &jobs, &cos, None);
    assert_eq!(open.iter().map(|r| r.0.id).collect::<Vec<_>>(), vec![3, 1]);
    assert!(open[0].1.is_none() && open[0].2.is_none());
    assert_eq!(open[1].2.as_ref().map(|c| c.id), Some(3));
    let ghosted = list_applications(&apps, &jobs, &cos, Some("ghosted"));
    assert_eq!(ghosted.iter().map(|r| r.0.id).collect::<Vec<_>>(), vec![4]);
}

#[test]
fn moving_an_application_stamps_and_notes() {
    let mut apps = vec![app(1, 1, "a", "applied"), app(2, 2, "b", "applied")];
    assert!(update_application_stage(&mut apps, 1, "screen", Some("called"), "now", "2024-01-05"));
    assert_eq!(apps[0].stage, "screen");
    assert_eq!(apps[0].last_contact.as_deref(), Some("now"));
    assert_eq!(apps[0].notes.as_deref(), Some("[2024-01-05] called"));
    assert!(update_application_stage(&mut apps, 1, "interview", Some("again"), "now2", "2024-01-06"));
    assert_eq!(apps[0].notes.as_deref(), Some("[2024-01-05] called\n[2024-01-06] again"));
    assert!(update_application_stage(&mut apps, 1, "offer", None, "now3", "2024-01-07"));
    assert_eq!(apps[0].notes.as_deref(), Some("[2024-01-05] called\n[2024-01-06] again"));
    assert_eq!(apps[1].stage, "applied");
    assert!(!update_application_stage(&mut apps, 9, "offer", None, "n", "t"));
    apps[1].notes = Some(String::new());
    assert!(update_application_stage(&mut apps, 2, "screen", Some("n"), "now", "d"));
    assert_eq!(apps[1].notes.as_deref(), Some("[d] n"));
}

#[test]
fn removing_an_application_returns_it() {
    let mut apps = vec![app(1, 1, "a", "applied"), app(2, 2, "b", "applied")];
    assert_eq!(delete_application(&mut apps, 1).unwrap().posting_id, 1);
    assert_eq!(apps.iter().map(|a| a.id).collect::<Vec<_>>(), vec![2]);
    assert!(delete_application(&mut apps, 1).is_none());
    let jobs = vec![job(1, 1, "a", Some(8))];
    assert_eq!(ids(&unapplied_open_postings(&jobs, &vec![], &apps, None)), vec![1]);
}
