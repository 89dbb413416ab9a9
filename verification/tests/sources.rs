use jobpipe::commands::fetch::{fetch_line, judge, no_source, outcome, totals, Board, Outcome};
use jobpipe::db::queries::UpsertOutcome;
use jobpipe::sources::ashby::{remote_flag as ashby_flag, AshbyJob};
use jobpipe::sources::greenhouse::GhJob;
use jobpipe::sources::lever::{canon_remote, remote_flag as lever_flag, LvPosting};
use jobpipe::sources::recruitee::RcOffer;
use jobpipe::sources::remoteok::RokEntry;
use jobpipe::sources::remotive::RmvJob;
use jobpipe::sources::workable::WkJob;
use jobpipe::sources::{check_status, postings, source_for, FetchError, Listing, RawPosting, Source, USER_AGENT};

fn s(t: &str) -> Option<String> {
    Some(t.to_string())
}

fn ashby() -> AshbyJob {
    AshbyJob {
        id: "a1".to_string(),
        title: "Engineer".to_string(),
        location: s("Toronto"),
        secondary_locations: vec![None, s("Remote (Canada)")],
        is_remote: None,
        workplace_type: None,
        description_html: s("<p>x</p>"),
        apply_url: None,
        job_url: s("https://job"),
    }
}

#[test]
fn ashby_merges_locations() {
    let p = ashby().posting().unwrap();
    assert_eq!(p.external_id, "a1");
    assert_eq!(p.location.as_deref(), Some("Toronto | Remote (Canada)"));
    assert_eq!(p.apply_url, "https://job");
    assert_eq!(p.remote, None);
    let mut none = ashby();
    none.location = None;
    none.secondary_locations = vec![];
    none.is_remote = Some(true);
    none.apply_url = s("https://apply");
    let p = none.posting().unwrap();
    assert_eq!(p.location, None);
    assert_eq!(p.remote.as_deref(), Some("remote"));
    assert_eq!(p.apply_url, "https://apply");
}

#[test]
fn ashby_workplaces() {
    assert_eq!(ashby_flag(Some("hybrid remote"), false).as_deref(), Some("hybrid"));
    assert_eq!(ashby_flag(Some("remote"), false).as_deref(), Some("remote"));
    assert_eq!(ashby_flag(Some("on-site"), true).as_deref(), Some("onsite"));
    assert_eq!(ashby_flag(Some("other"), true).as_deref(), Some("remote"));
    assert_eq!(ashby_flag(None, false), None);
    let mut j = ashby();
    j.workplace_type = s("OnSite");
    assert_eq!(j.posting().unwrap().remote.as_deref(), Some("onsite"));
}

#[test]
fn greenhouse_decodes_its_content() {
    let j = GhJob {
        id: -5,
        title: "T".to_string(),
        absolute_url: "u".to_string(),
        location: s("Berlin"),
        content: s("&lt;p&gt;a &amp;amp; b&lt;/p&gt;"),
    };
    let p = j.posting().unwrap();
    assert_eq!((p.external_id.as_str(), p.description.as_str()), ("-5", "<p>a &amp; b</p>"));
    assert_eq!(p.location.as_deref(), Some("Berlin"));
    assert_eq!(p.remote, None);
    let empty = GhJob { content: None, location: None, ..j };
    assert_eq!(empty.posting().unwrap().description, "");
}

fn lever() -> LvPosting {
    LvPosting {
        id: "l1".to_string(),
        text: "Engineer".to_string(),
        location: s("Paris"),
        all_locations: vec![],
        workplace_type: s("On-Site"),
        country: s("FR"),
        description: s("intro"),
        lists: vec!["one".to_string(), "two".to_string()],
        additional: s("end"),
        salary_description: s("fallback"),
        apply_url: None,
        hosted_url: s("h"),
    }
}

#[test]
fn lever_puts_the_body_together() {
    let p = lever().posting().unwrap();
    assert_eq!(p.description, "introonetwoend");
    assert_eq!(p.location.as_deref(), Some("Paris"));
    assert_eq!(p.remote.as_deref(), Some("onsite"));
    assert_eq!(p.apply_url, "h");
    let mut j = lever();
    j.all_locations = vec!["A".to_string(), "B".to_string()];
    j.description = s(" ");
    j.lists = vec![];
    j.additional = None;
    let p = j.posting().unwrap();
    assert_eq!(p.location.as_deref(), Some("A | B"));
    assert_eq!(p.description, "fallback");
    let mut j = lever();
    j.location = None;
    assert_eq!(j.posting().unwrap().location.as_deref(), Some("FR"));
}

#[test]
fn lever_workplaces() {
    assert_eq!(lever_flag(Some("remote hybrid")).as_deref(), Some("remote"));
    assert_eq!(lever_flag(Some("hybrid")).as_deref(), Some("hybrid"));
    assert_eq!(lever_flag(Some("in office")).as_deref(), Some("onsite"));
    assert_eq!(lever_flag(Some("moon")), None);
    assert_eq!(canon_remote(&s("REMOTE")).as_deref(), Some("remote"));
    assert_eq!(canon_remote(&None), None);
}

#[test]
fn recruitee_marks() {
    let o = |remote, hybrid| RcOffer {
        id: 4,
        title: "T".to_string(),
        location: None,
        remote,
        hybrid,
        description: None,
        careers_apply_url: None,
        careers_url: None,
    };
    assert_eq!(o(Some(true), Some(true)).posting().unwrap().remote.as_deref(), Some("remote"));
    assert_eq!(o(Some(false), Some(true)).posting().unwrap().remote.as_deref(), Some("hybrid"));
    assert_eq!(o(None, Some(false)).posting().unwrap().remote, None);
    let p = o(None, None).posting().unwrap();
    assert_eq!((p.external_id.as_str(), p.apply_url.as_str(), p.description.as_str()), ("4", "", ""));
}

#[test]
fn remoteok_skips_the_notice() {
    let notice = RokEntry {
        id: None,
        company: None,
        position: None,
        location: None,
        description: None,
        apply_url: None,
        url: None,
    };
    let entry = RokEntry {
        id: s("9"),
        company: s("Acme"),
        position: s("SRE"),
        location: s(""),
        description: s("d"),
        apply_url: None,
        url: s("u"),
    };
    let nameless = RokEntry { company: s(""), ..entry.clone() };
    let all = postings(&vec![notice, entry, nameless]);
    assert_eq!(all.iter().map(|p| p.title.as_str()).collect::<Vec<_>>(), vec!["Acme — SRE", "SRE"]);
    assert_eq!(all[0].location, None);
    assert_eq!(all[0].remote.as_deref(), Some("remote"));
    assert_eq!(all[0].apply_url, "u");
}

#[test]
fn remotive_is_always_remote() {
    let j = RmvJob {
        id: 1,
        title: "SRE".to_string(),
        company_name: s("Acme"),
        candidate_required_location: s("Worldwide"),
        description: None,
        url: None,
    };
    let p = j.posting().unwrap();
    assert_eq!((p.title.as_str(), p.remote.as_deref()), ("Acme — SRE", Some("remote")));
    assert_eq!(p.location.as_deref(), Some("Worldwide"));
    assert_eq!(p.apply_url, "");
}

#[test]
fn workable_joins_the_place() {
    let j = WkJob {
        shortcode: "AB".to_string(),
        title: "T".to_string(),
        city: s("Vancouver"),
        state: s(""),
        country: s("Canada"),
        telecommuting: Some(true),
        description: s("d"),
        application_url: s("a"),
        url: s("u"),
    };
    let p = j.posting().unwrap();
    assert_eq!(p.location.as_deref(), Some("Vancouver, Canada"));
    assert_eq!((p.remote.as_deref(), p.apply_url.as_str()), (Some("remote"), "a"));
    let bare = WkJob { city: None, country: None, telecommuting: Some(false), ..j };
    let p = bare.posting().unwrap();
    assert_eq!((p.location, p.remote), (None, None));
}

#[test]
fn the_registry_knows_every_system() {
    let names = ["greenhouse", "lever", "ashby", "workable", "recruitee", "remoteok", "remotive", "hn-whoishiring"];
    for n in names {
        assert_eq!(source_for(n).unwrap().ats(), n);
    }
    assert!(source_for("taleo").is_none());
    assert!(USER_AGENT.starts_with("jobpipe/"));
}

#[test]
fn boards_have_addresses() {
    let urls = [
        (Source::Greenhouse, "https://boards-api.greenhouse.io/v1/boards/acme/jobs?content=true"),
        (Source::Lever, "https://api.lever.co/v0/postings/acme?mode=json"),
        (Source::Ashby, "https://api.ashbyhq.com/posting-api/job-board/acme"),
        (Source::Workable, "https://apply.workable.com/api/v1/widget/accounts/acme?details=true"),
        (Source::Recruitee, "https://acme.recruitee.com/api/offers/"),
        (Source::RemoteOk, "https://remoteok.com/api"),
        (Source::Remotive, "https://remotive.com/api/remote-jobs"),
    ];
    for (source, url) in urls {
        assert_eq!(source.board_url("acme"), url);
    }
}

#[test]
fn statuses_become_errors() {
    assert!(check_status(200).is_ok());
    assert!(matches!(check_status(404), Err(FetchError::NotFound)));
    assert_eq!(check_status(404).unwrap_err().message(), "board not found (404)");
    assert_eq!(check_status(503).unwrap_err().message(), "board returned unexpected status 503");
    assert_eq!(check_status(204).unwrap_err().message(), "board returned unexpected status 204");
    assert_eq!(FetchError::Request("timeout".to_string()).message(), "http request failed: timeout");
}

fn raw(id: &str) -> RawPosting {
    RawPosting {
        external_id: id.to_string(),
        title: "a\nb".to_string(),
        location: None,
        description: "<b>x</b>".to_string(),
        apply_url: "u".to_string(),
        remote: None,
    }
}

#[test]
fn answers_are_judged() {
    let empty = judge(Ok(vec![]));
    assert!(matches!(empty, Board::Empty));
    assert!(empty.flags_review() && empty.stamps_fetch());
    let missing = judge(Err(FetchError::NotFound));
    assert!(missing.flags_review() && !missing.stamps_fetch());
    let failed = judge(Err(FetchError::Status { code: 500 }));
    assert!(!failed.flags_review() && !failed.stamps_fetch());
    match &failed {
        Board::Failed(m) => assert_eq!(m, "board returned unexpected status 500"),
        other => panic!("{other:?}"),
    }
    let listed = judge(Ok(vec![raw("1"), raw("2")]));
    assert!(!listed.flags_review() && listed.stamps_fetch());
    match &listed {
        Board::Listed(n) => {
            assert_eq!(n.iter().map(|p| p.external_id.as_str()).collect::<Vec<_>>(), vec!["1", "2"]);
            assert_eq!((n[0].title.as_str(), n[0].description.as_str()), ("a b", "x"));
        }
        other => panic!("{other:?}"),
    }
    match no_source("taleo") {
        Board::Failed(m) => assert_eq!(m, "no source for ats 'taleo'"),
        other => panic!("{other:?}"),
    }
}

#[test]
fn outcomes_count_upserts() {
    let ups = vec![UpsertOutcome::Inserted, UpsertOutcome::Updated, UpsertOutcome::Inserted];
    assert!(matches!(
        outcome(&judge(Ok(vec![raw("1")])), &ups),
        Outcome::Fetched { new: 2, updated: 1 }
    ));
    assert!(matches!(outcome(&Board::Empty, &vec![]), Outcome::Empty));
    assert!(matches!(outcome(&Board::Missing, &vec![]), Outcome::NeedsReview));
    assert!(matches!(outcome(&Board::Failed("m".to_string()), &vec![]), Outcome::Error(m) if m == "m"));
}

#[test]
fn a_run_is_added_up() {
    let results = vec![
        (1, Outcome::Fetched { new: 30, updated: 100 }),
        (2, Outcome::Empty),
        (3, Outcome::NeedsReview),
        (4, Outcome::Error("x".to_string())),
        (5, Outcome::Fetched { new: 7, updated: 12 }),
    ];
    let t = totals(&results);
    assert_eq!((t.new, t.updated, t.review, t.errors), (37, 112, 2, 1));
    assert_eq!(t.fetched_ids, vec![1, 2, 5]);
    assert_eq!(
        fetch_line(&t, 4),
        "Fetch complete: 37 new, 112 updated, 4 closed, 2 needs-review, 1 error(s)."
    );
}
