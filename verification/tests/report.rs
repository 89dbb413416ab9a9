use jobpipe::cli::{DigestFormat, Stage, DEFAULT_MIN_SCORE};
use jobpipe::commands::apply::{
    already_applied_line, apply_line, asks, dismissed_line, first_step, menu_item, next_step,
    no_posting, nothing_to_pick, picked_id, picker_label, recorded_line, restored_line, truncate,
    ApplyChoice, ApplyEvent, ApplyStep, MenuItem,
};
use jobpipe::commands::companies::{added_line, list_report};
use jobpipe::commands::digest::{digest, written_line};
use jobpipe::commands::init::init_line;
use jobpipe::commands::pager::pager_candidates;
use jobpipe::commands::run::{next_step as run_after, Step};
use jobpipe::commands::setup::{starter_line, writes_starter};
use jobpipe::commands::track::{applied_date, moved_line, no_application, removed_line, track_report};
use jobpipe::db::entities::{application, company, posting};
use jobpipe::report::wrapping::wrap;
use jobpipe::report::{badge, company_name, detail, loc, osc8, render, summary, Format, PostingRow};
use jobpipe::sniff::Detected;

fn job(id: i32) -> posting::Model {
    posting::Model {
        id,
        company_id: 1,
        external_id: "x".to_string(),
        title: "Rust Engineer".to_string(),
        location: Some("Berlin".to_string()),
        remote: Some("hybrid".to_string()),
        description: "Build things.".to_string(),
        apply_url: "https://apply".to_string(),
        first_seen: String::new(),
        last_seen: String::new(),
        closed_at: None,
        score: Some(9),
        score_reason: Some("good fit".to_string()),
        flags: None,
        triaged_at: None,
        dismissed_at: None,
    }
}

fn acme() -> company::Model {
    company::Model {
        id: 1,
        name: "Acme".to_string(),
        ats: "lever".to_string(),
        slug: "acme".to_string(),
        careers_url: None,
        tags: Some("rust,remote".to_string()),
        active: 1,
        needs_review: 1,
        last_fetched: None,
    }
}

fn app(id: i32) -> application::Model {
    application::Model {
        id,
        posting_id: 12,
        applied_at: "2024-01-05T10:00:00+00:00".to_string(),
        stage: "screen".to_string(),
        last_contact: None,
        next_followup: None,
        notes: None,
    }
}

#[test]
fn badges_are_two_columns_wide() {
    let mut p = job(1);
    assert_eq!(badge(&p), "[ 9]");
    p.score = Some(10);
    assert_eq!(badge(&p), "[10]");
    p.score = Some(-100);
    assert_eq!(badge(&p), "[-100]");
    p.score = None;
    assert_eq!(badge(&p), "[ –]");
}

#[test]
fn locations_show_the_remote_flag_when_it_adds_something() {
    let mut p = job(1);
    assert_eq!(loc(&p), "Berlin · hybrid");
    p.remote = Some("onsite".to_string());
    assert_eq!(loc(&p), "Berlin");
    p.remote = Some("unknown".to_string());
    assert_eq!(loc(&p), "Berlin");
    p.remote = None;
    assert_eq!(loc(&p), "Berlin");
    p.location = None;
    assert_eq!(loc(&p), "location unknown");
    p.remote = Some("unknown".to_string());
    assert_eq!(loc(&p), "unknown");
}

#[test]
fn summaries_and_details() {
    let p = job(7);
    assert_eq!(summary(&p, &Some(acme())), "[ 9] #7  Rust Engineer  —  Acme\n  Berlin · hybrid\n  good fit\n");
    assert_eq!(
        detail(&p, &None),
        "[ 9] #7  Rust Engineer  —  (unknown)\n  Berlin · hybrid\n  good fit\n  apply: https://apply\n\nBuild things.\n\n"
    );
    assert_eq!(company_name(&None), "(unknown)");
}

#[test]
fn the_terminal_digest() {
    let mut second = job(8);
    second.score_reason = None;
    let rows: Vec<PostingRow> = vec![(job(7), Some(acme())), (second, None)];
    let out = render(&rows, Format::Term, false);
    let expected = format!(
        "jobpipe digest — 2 open posting(s)\n{}\n\n[ 9] #7  Rust Engineer  —  Acme\n  Berlin · hybrid\n  good fit\n  https://apply\n  → jobpipe apply 7\n\n[ 9] #8  Rust Engineer  —  (unknown)\n  Berlin · hybrid\n  https://apply\n  → jobpipe apply 8\n",
        "=".repeat(48)
    );
    assert_eq!(out, expected);
    assert!(!out.contains('\x1b'));
    let linked = render(&rows, Format::Term, true);
    assert!(linked.contains("  \x1b]8;;https://apply\x1b\\Apply in browser ↗\x1b]8;;\x1b\\\n"));
    assert_eq!(osc8("u", "t"), "\x1b]8;;u\x1b\\t\x1b]8;;\x1b\\");
}

#[test]
fn the_markdown_digest() {
    let rows: Vec<PostingRow> = vec![(job(7), Some(acme()))];
    assert_eq!(
        render(&rows, Format::Md, true),
        "# jobpipe digest\n\n1 open posting(s).\n\n- **[ 9] #7 [Rust Engineer](https://apply)** — Acme · Berlin · hybrid\n  - good fit\n  - `jobpipe apply 7`\n"
    );
    assert_eq!(render(&[], Format::Md, false), "# jobpipe digest\n\n_No open postings._\n");
    assert_eq!(render(&[], Format::Term, false), "No open postings.\n");
}

#[test]
fn files_are_always_markdown() {
    let rows: Vec<PostingRow> = vec![(job(7), None)];
    assert_eq!(digest(&rows, DigestFormat::Term, true, true), render(&rows, Format::Md, false));
    assert_eq!(digest(&rows, DigestFormat::Term, false, true), render(&rows, Format::Term, true));
    assert_eq!(digest(&rows, DigestFormat::Md, false, false), render(&rows, Format::Md, false));
    assert_eq!(written_line(3, "out.md"), "Wrote 3 posting(s) to out.md.");
}

#[test]
fn wrapping_fits_words_into_the_width() {
    assert_eq!(wrap("aa bb cc", 5), "aa bb\ncc\n");
    assert_eq!(wrap("aa bb cc", 8), "aa bb cc\n");
    assert_eq!(wrap("• aa bb cc", 7), "• aa bb\n  cc\n");
    assert_eq!(wrap("one\n\n  \ntwo", 10), "one\n\n\ntwo\n");
    assert_eq!(wrap("toolongword x", 4), "toolongword\nx\n");
    assert_eq!(wrap("", 4), "\n");
}

#[test]
fn wrapping_keeps_the_words() {
    let text = "The quick  brown fox\n• jumps over the lazy dog again and again\n\nend";
    let wrapped = wrap(text, 12);
    let a: Vec<&str> = text.split_whitespace().collect();
    let b: Vec<&str> = wrapped.split_whitespace().collect();
    assert_eq!(a, b);
    assert!(wrapped.lines().all(|l| l.chars().count() <= 12));
}

#[test]
fn truncation_counts_characters() {
    assert_eq!(truncate("  abc  ", 3), "abc");
    assert_eq!(truncate("abcd", 3), "ab…");
    assert_eq!(truncate("ééééé", 4), "ééé…");
    assert_eq!(truncate("abc", 1), "…");
    assert_eq!(truncate("abc", 0), "");
    assert_eq!(truncate("   ", 0), "");
}

#[test]
fn picker_items_are_single_lines() {
    let mut p = job(7);
    assert_eq!(picker_label(&(p.clone(), Some(acme()))), "[ 9] #7 Rust Engineer — Acme  ·  good fit");
    p.score_reason = Some("x".repeat(80));
    assert!(picker_label(&(p.clone(), None)).ends_with(&format!("  ·  {}…", "x".repeat(71))));
    p.score_reason = None;
    p.score = None;
    assert_eq!(picker_label(&(p, None)), "[ –] #7 Rust Engineer — (unknown)");
    assert_eq!(picked_id(&vec![(job(7), None), (job(8), None)], Some(1)), Some(8));
    assert_eq!(picked_id(&vec![], None), None);
}

#[test]
fn a_named_posting_is_asked_about_once() {
    let look = first_step(Some(3));
    assert_eq!(look, ApplyStep::Look { id: 3 });
    assert_eq!(next_step(look, ApplyEvent::Looked(false), false, true), ApplyStep::NoPosting { id: 3 });
    let ask = next_step(look, ApplyEvent::Looked(true), false, true);
    assert_eq!(ask, ApplyStep::Confirm { id: 3 });
    assert_eq!(next_step(ask, ApplyEvent::Chose(ApplyChoice::Cancel), false, true), ApplyStep::Cancelled);
    let hide = next_step(ask, ApplyEvent::Chose(ApplyChoice::Dismiss), false, true);
    assert_eq!(hide, ApplyStep::Dismiss { id: 3 });
    assert_eq!(next_step(hide, ApplyEvent::Finished, false, true), ApplyStep::Done);
    assert_eq!(next_step(ask, ApplyEvent::Chose(ApplyChoice::Apply), false, true), ApplyStep::Record { id: 3 });
    assert_eq!(next_step(look, ApplyEvent::Looked(true), false, false), ApplyStep::Record { id: 3 });
}

#[test]
fn the_picker_comes_back_after_cancelling() {
    let pick = first_step(None);
    assert_eq!(pick, ApplyStep::Pick);
    assert_eq!(next_step(pick, ApplyEvent::Picked(None), true, true), ApplyStep::Done);
    assert_eq!(next_step(pick, ApplyEvent::Picked(Some(5)), true, true), ApplyStep::Look { id: 5 });
    let ask = ApplyStep::Confirm { id: 5 };
    assert_eq!(next_step(ask, ApplyEvent::Chose(ApplyChoice::Cancel), true, true), ApplyStep::Pick);
    assert_eq!(next_step(ApplyStep::Dismiss { id: 5 }, ApplyEvent::Finished, true, true), ApplyStep::Pick);
    assert_eq!(next_step(ApplyStep::Record { id: 5 }, ApplyEvent::Finished, true, true), ApplyStep::Done);
    assert!(asks(false, true) && !asks(true, true) && !asks(false, false));
}

#[test]
fn the_menu_under_a_preview() {
    assert_eq!(menu_item(Some(0)), MenuItem::Apply);
    assert_eq!(menu_item(Some(1)), MenuItem::View);
    assert_eq!(menu_item(Some(2)), MenuItem::Dismiss);
    assert_eq!(menu_item(Some(3)), MenuItem::Cancel);
    assert_eq!(menu_item(None), MenuItem::Cancel);
}

#[test]
fn what_applying_says() {
    let p = job(7);
    let c = Some(acme());
    assert_eq!(no_posting(7), "no posting with id 7 — check `jobpipe digest`");
    assert_eq!(
        already_applied_line(&p, &c, &app(2)),
        "Already applied to \"Rust Engineer\" — Acme (application #2, stage screen)."
    );
    assert_eq!(recorded_line(2, &p, &c), "Recorded application #2: \"Rust Engineer\" — Acme.");
    assert_eq!(apply_line(&p), "Apply: https://apply");
    assert_eq!(
        dismissed_line(&p, &c),
        "Dismissed #7 \"Rust Engineer\" — Acme. Restore with `jobpipe dismiss 7 --undo`."
    );
    assert_eq!(restored_line(&p), "Restored #7 \"Rust Engineer\" to the digest.");
    assert_eq!(DEFAULT_MIN_SCORE, 7);
    assert_eq!(
        nothing_to_pick(),
        "No unapplied postings at score >= 7 — apply by id with `jobpipe apply <id>`, lower the bar via `jobpipe digest --min-score N`, or `jobpipe fetch` for more."
    );
}

#[test]
fn tracking_lists_applications() {
    let rows = vec![(app(2), Some(job(12)), Some(acme())), (app(31), None, None)];
    assert_eq!(
        track_report(&rows, None),
        "app #2    job #12    screen    Rust Engineer  —  Acme  (applied 2024-01-05)\n\
         app #31   job #12    screen    (posting gone)  —  (unknown)  (applied 2024-01-05)\n\
         \n2 open application(s).\n"
    );
    assert_eq!(track_report(&vec![], None), "No applications.\n");
    assert_eq!(track_report(&vec![], Some("offer")), "No offer applications.\n");
    assert_eq!(applied_date("no date"), "no date");
    assert_eq!(moved_line(2, "offer"), "Application #2 → offer.");
    assert_eq!(no_application(2), "no application with id 2 — check `jobpipe track`");
    assert_eq!(removed_line(2, &Some(job(1))), "Removed application #2: \"Rust Engineer\".");
    assert_eq!(removed_line(2, &None), "Removed application #2: \"(posting gone)\".");
}

#[test]
fn the_company_list() {
    let mut plain = acme();
    plain.needs_review = 0;
    plain.tags = Some(String::new());
    assert_eq!(
        list_report(&vec![acme(), plain], false),
        "lever       acme                   Acme [needs-review]\n            tags: rust,remote\n\
         lever       acme                   Acme\n\n2 companies.\n"
    );
    assert!(list_report(&vec![acme()], true).ends_with("\n1 company.\n"));
    assert_eq!(list_report(&vec![], false), "No companies.\n");
    assert_eq!(list_report(&vec![], true), "No companies need review.\n");
    let d = Detected::new("lever", "acme-corp");
    assert_eq!(added_line(&d, "u", true), "Added Acme Corp — lever/acme-corp (u).");
    assert_eq!(added_line(&d, "u", false), "Already tracked: lever/acme-corp — nothing added.");
}

#[test]
fn what_setting_up_says() {
    assert_eq!(init_line("jobpipe.db", 1, 12), "Initialized jobpipe.db. Seeded 1 new company (12 total).");
    assert_eq!(init_line("j", 0, 12), "Initialized j. Seeded 0 new companies (12 total).");
    assert!(writes_starter(false, false) && writes_starter(true, true) && !writes_starter(true, false));
    assert_eq!(starter_line("a.toml", true), "Wrote a.toml.");
    assert_eq!(starter_line("a.toml", false), "Kept existing a.toml (use `jobpipe setup --force` to overwrite).");
}

#[test]
fn pagers_are_tried_in_order() {
    assert_eq!(pager_candidates(None), vec![vec!["less", "-RF"], vec!["more"]]);
    assert_eq!(pager_candidates(Some("  ")), vec![vec!["less", "-RF"], vec!["more"]]);
    assert_eq!(pager_candidates(Some(" most  -x ")), vec![vec!["most", "-x"]]);
}

#[test]
fn a_failed_triage_does_not_stop_the_digest() {
    assert_eq!(run_after(Step::Fetch, true), Step::Triage);
    assert_eq!(run_after(Step::Fetch, false), Step::Failed);
    assert_eq!(run_after(Step::Triage, false), Step::Digest);
    assert_eq!(run_after(Step::Triage, true), Step::Digest);
    assert_eq!(run_after(Step::Digest, true), Step::Done);
    assert_eq!(run_after(Step::Digest, false), Step::Failed);
}

#[test]
fn stages_have_names() {
    let all = [Stage::Applied, Stage::Screen, Stage::Interview, Stage::Offer, Stage::Rejected, Stage::Ghosted];
    let names: Vec<&str> = all.iter().map(|s| s.as_str()).collect();
    assert_eq!(names, vec!["applied", "screen", "interview", "offer", "rejected", "ghosted"]);
}

#[test]
fn wrapped_lines_stand_alone_and_fit() {
    let (a, b) = ("• one two three four", "\nincomprehensibilities a bb ccc\n");
    for width in [0, 1, 5, 9, 40] {
        let whole = wrap(&format!("{a}\n{b}"), width);
        assert_eq!(whole, wrap(a, width) + &wrap(b, width));
        for line in whole.split('\n') {
            assert!(line.chars().count() <= width || line.split_whitespace().count() == 1);
        }
    }
}
