use jobpipe::config::{prefilter_or_default, Prefilter};
use jobpipe::db::entities::posting;
use jobpipe::pattern::compile_alternation;
use jobpipe::triage::prompt::{score_request, system_prompt, user_message, RUBRIC};
use jobpipe::triage::run::{
    batches, cleared_line, clears_first, complete_line, estimate_line, no_profile, plan, prefilter_line, prepare,
    preview_line, progress_line, reject_only_line, scoring_line, spend_line, Plan, Tally,
};
use jobpipe::triage::scores::{
    apply_scores, check_reply, enforce_location_gate, left_out, parse_scores, reply_text,
    AnthropicResponse, ContentBlock, ScoreError, Scored, Usage, LOCATION_FAIL_CAP,
};
use jobpipe::triage::screen::{drops, screen_postings, Screen};

fn flags(fs: &[&str]) -> Vec<String> {
    fs.iter().map(|s| s.to_string()).collect()
}

fn job(id: i32, title: &str, description: &str) -> posting::Model {
    posting::Model {
        id,
        company_id: 1,
        external_id: format!("x{id}"),
        title: title.to_string(),
        location: None,
        remote: None,
        description: description.to_string(),
        apply_url: "https://example.com".to_string(),
        first_seen: "2024-01-01T00:00:00+00:00".to_string(),
        last_seen: "2024-01-01T00:00:00+00:00".to_string(),
        closed_at: None,
        score: None,
        score_reason: None,
        flags: None,
        triaged_at: None,
        dismissed_at: None,
    }
}

fn scored(id: i32, score: i64, reason: &str, fs: &[&str]) -> Scored {
    Scored { external_id: format!("x{id}"), score, reason: reason.to_string(), flags: flags(fs) }
}

fn usage(n: u64) -> Usage {
    Usage {
        input_tokens: n,
        output_tokens: 2 * n,
        cache_creation_input_tokens: 3 * n,
        cache_read_input_tokens: 4 * n,
    }
}

#[test]
fn no_location_flag_forces_the_cap_even_on_a_high_score() {
    let (score, reason) = enforce_location_gate(8, "great AI fit", &flags(&["no_location"]));
    assert_eq!(score, LOCATION_FAIL_CAP);
    assert!(reason.starts_with("[location gate]"));
}

#[test]
fn hybrid_offsite_flag_also_forces_the_cap() {
    let (score, _) =
        enforce_location_gate(9, "Toronto hybrid", &flags(&["priority_stack", "hybrid_offsite"]));
    assert_eq!(score, LOCATION_FAIL_CAP);
}

#[test]
fn a_workable_posting_is_left_untouched() {
    let (score, reason) =
        enforce_location_gate(9, "Vancouver, priority stack", &flags(&["priority_stack"]));
    assert_eq!(score, 9);
    assert_eq!(reason, "Vancouver, priority stack");
}

#[test]
fn an_already_capped_score_keeps_its_original_reason() {
    let (score, reason) = enforce_location_gate(2, "SF onsite", &flags(&["no_location"]));
    assert_eq!(score, 2);
    assert_eq!(reason, "SF onsite");
}

#[test]
fn the_capped_reason_is_marked() {
    let (score, reason) = enforce_location_gate(4, "why", &flags(&["no_location"]));
    assert_eq!((score, reason.as_str()), (3, "[location gate] why"));
    let (score, reason) = enforce_location_gate(3, "why", &flags(&["no_location"]));
    assert_eq!((score, reason.as_str()), (3, "why"));
}

#[test]
fn the_default_prefilter_rejects_other_disciplines() {
    let p = prefilter_or_default(None);
    assert_eq!(p.reject_titles, vec!["Recruiter", "Sales", "Marketing"]);
    assert!(p.keep_keywords.is_empty());
    let d = Prefilter::default();
    assert_eq!(d.reject_titles, p.reject_titles);
    let given = Prefilter { reject_titles: vec![], keep_keywords: flags(&["rust"]) };
    assert_eq!(prefilter_or_default(Some(given)).keep_keywords, vec!["rust"]);
}

#[test]
fn word_lists_become_escaped_alternations() {
    assert!(compile_alternation(&vec![]).unwrap().is_none());
    assert_eq!(
        compile_alternation(&flags(&["C++", "a|b", "plain"])).unwrap().unwrap().text(),
        r"(?i)\b(?:C\+\+|a\|b|plain)\b"
    );
}

#[test]
fn titles_are_screened_by_word_and_rescued_by_keyword() {
    let cfg = Prefilter { reject_titles: flags(&["Sales", "Senior"]), keep_keywords: flags(&["Rust"]) };
    let s = Screen::build(&cfg).unwrap();
    let verdict = |t: &str, d: &str| s.is_reject(&job(1, t, d));
    assert!(verdict("SALES engineer", "python"));
    assert!(!verdict("Salesforce engineer", "python"));
    assert!(!verdict("senior engineer", "we use rust daily"));
    assert!(verdict("senior engineer", "trust us"));
    assert!(!verdict("engineer", "python"));
    assert!(drops(true, false) && !drops(true, true) && !drops(false, false));
}

#[test]
fn an_empty_prefilter_rejects_nothing() {
    let cfg = Prefilter { reject_titles: vec![], keep_keywords: vec![] };
    let s = Screen::build(&cfg).unwrap();
    assert!(!s.is_reject(&job(1, "Sales", "")));
    let (rejects, passed) = screen_postings(&s, vec![job(1, "Sales", ""), job(2, "b", "")]);
    assert!(rejects.is_empty());
    assert_eq!(passed.iter().map(|p| p.id).collect::<Vec<_>>(), vec![1, 2]);
}

#[test]
fn screening_splits_in_order() {
    let s = Screen::build(&prefilter_or_default(None)).unwrap();
    let all = vec![job(1, "Sales lead", ""), job(2, "Engineer", ""), job(3, "Recruiter", ""), job(4, "SRE", "")];
    let (rejects, passed) = screen_postings(&s, all);
    assert_eq!(rejects.iter().map(|p| p.id).collect::<Vec<_>>(), vec![1, 3]);
    assert_eq!(passed.iter().map(|p| p.id).collect::<Vec<_>>(), vec![2, 4]);
    let (rejects, passed) = screen_postings(&s, vec![]);
    assert!(rejects.is_empty() && passed.is_empty());
}

#[test]
fn the_prompt_ends_with_the_profile() {
    let s = system_prompt("[candidate]\nname = \"A\"");
    assert!(s.starts_with("You are screening job postings against one candidate's profile."));
    assert!(s.contains("[{\"external_id\": \"...\", \"score\": 0,"));
    assert!(s.ends_with("CANDIDATE PROFILE (TOML):\n[candidate]\nname = \"A\""));
    assert_eq!(RUBRIC.len(), 5423);
    assert_eq!(s, format!("{RUBRIC}[candidate]\nname = \"A\""));
}

#[test]
fn the_message_lists_the_batch() {
    let mut p = job(7, "Engineer", &"d".repeat(1300));
    p.location = Some("Berlin".to_string());
    p.remote = Some("hybrid".to_string());
    let m = user_message(&[p, job(8, "SRE", "ops")]);
    let expected = format!(
        "Score these postings:\n\n---\nexternal_id: x7\ntitle: Engineer\nlocation: Berlin (hybrid)\ndescription: {}\n---\nexternal_id: x8\ntitle: SRE\nlocation: unspecified (unknown)\ndescription: ops\n",
        "d".repeat(1200)
    );
    assert_eq!(m, expected);
    assert_eq!(user_message(&[]), "Score these postings:\n\n");
}

#[test]
fn a_request_carries_prompt_and_message() {
    let r = score_request("small-model", "sys", &[job(1, "a", "b")]);
    assert_eq!(r.url, "https://api.anthropic.com/v1/messages");
    assert_eq!(r.version, "2023-06-01");
    assert_eq!(r.model, "small-model");
    assert_eq!(r.max_tokens, 4096);
    assert_eq!(r.system, "sys");
    assert_eq!(r.user, user_message(&[job(1, "a", "b")]));
}

#[test]
fn batches_hold_fifteen() {
    let all: Vec<posting::Model> = (0..31).map(|i| job(i, "t", "d")).collect();
    let b = batches(&all);
    assert_eq!(b.iter().map(|v| v.len()).collect::<Vec<_>>(), vec![15, 15, 1]);
    let ids: Vec<i32> = b.iter().flatten().map(|p| p.id).collect();
    assert_eq!(ids, (0..31).collect::<Vec<i32>>());
    assert!(batches(&[]).is_empty());
    assert_eq!(batches(&all[..15]).len(), 1);
}

#[test]
fn a_dry_run_only_previews() {
    let cands: Vec<posting::Model> = (0..16).map(|i| job(i, "t", "d")).collect();
    let rejects = vec![job(90, "Sales", "")];
    match plan(&rejects, &cands, true, "profile") {
        Plan::Preview { dropped, candidates, requests, input, output } => {
            assert_eq!((dropped, candidates, requests, output), (1, 16, 2, 800));
            let system = system_prompt("profile");
            let a = (system.len() + user_message(&cands[..15]).len()) / 4;
            let b = (system.len() + user_message(&cands[15..]).len()) / 4;
            assert_eq!(input, (a + b) as u128);
        }
        other => panic!("{other:?}"),
    }
}

#[test]
fn estimates_count_bytes_of_non_ascii_text() {
    let p = vec![job(1, "é€😀", "")];
    match plan(&[], &p, true, "ü") {
        Plan::Preview { input, .. } => {
            assert_eq!(input, ((system_prompt("ü").len() + user_message(&p).len()) / 4) as u128);
        }
        other => panic!("{other:?}"),
    }
}

#[test]
fn plans_follow_what_there_is_to_do() {
    assert!(matches!(plan(&[], &[], false, ""), Plan::Nothing));
    assert!(matches!(plan(&[], &[], true, ""), Plan::Nothing));
    match plan(&[job(3, "Sales", ""), job(5, "Sales", "")], &[], false, "") {
        Plan::RejectOnly { rejected } => assert_eq!(rejected, vec![3, 5]),
        other => panic!("{other:?}"),
    }
    match plan(&[job(3, "Sales", "")], &[job(4, "SRE", "")], false, "me") {
        Plan::Score { rejected, system, batches } => {
            assert_eq!(rejected, vec![3]);
            assert_eq!(system, system_prompt("me"));
            assert_eq!(batches.len(), 1);
            assert_eq!(batches[0][0].id, 4);
        }
        other => panic!("{other:?}"),
    }
}

#[test]
fn preparing_screens_and_plans() {
    let cfg = prefilter_or_default(None);
    match prepare(vec![job(1, "Marketing lead", ""), job(2, "SRE", "")], &cfg, false, "p").unwrap() {
        Plan::Score { rejected, batches, .. } => {
            assert_eq!(rejected, vec![1]);
            assert_eq!(batches[0].iter().map(|p| p.id).collect::<Vec<_>>(), vec![2]);
        }
        other => panic!("{other:?}"),
    }
    assert!(matches!(prepare(vec![], &cfg, false, "p"), Ok(Plan::Nothing)));
}

#[test]
fn usages_add_up() {
    let mut u = Usage::none();
    u.add(&usage(5));
    u.add(&usage(1));
    assert_eq!(u, usage(6));
    assert!(u.can_add(&usage(1)));
    let full = Usage { input_tokens: u64::MAX, ..Usage::none() };
    assert!(!full.can_add(&usage(1)));
}

#[test]
fn replies_are_checked_by_status() {
    assert!(check_reply(200, "200 OK", "").is_ok());
    assert!(check_reply(299, "299", "").is_ok());
    assert!(check_reply(199, "199", "").is_err());
    let e = check_reply(429, "429 Too Many Requests", "slow down").unwrap_err();
    assert_eq!(e.message(), "Anthropic API returned 429 Too Many Requests: slow down");
}

fn reply(stop: Option<&str>, blocks: &[(&str, &str)]) -> AnthropicResponse {
    AnthropicResponse {
        content: blocks
            .iter()
            .map(|(k, t)| ContentBlock { kind: k.to_string(), text: t.to_string() })
            .collect(),
        stop_reason: stop.map(|s| s.to_string()),
        usage: Usage::none(),
    }
}

#[test]
fn the_first_text_block_is_the_reply() {
    let r = reply(Some("end_turn"), &[("thinking", "hm"), ("text", "[1]"), ("text", "[2]")]);
    assert_eq!(reply_text(&r).unwrap(), "[1]");
    let e = reply_text(&reply(Some("refusal"), &[("text", "[1]")])).unwrap_err();
    assert!(matches!(e, ScoreError::Refused));
    assert_eq!(e.message(), "model refused to score this batch");
    let e = reply_text(&reply(None, &[("tool", "x")])).unwrap_err();
    assert_eq!(e.message(), "no text block in Anthropic response");
}

#[test]
fn arrays_are_cut_out_of_prose() {
    assert_eq!(parse_scores("```json\n[{\"a\": [1]}]\n```").unwrap(), "[{\"a\": [1]}]");
    assert_eq!(parse_scores("nothing").unwrap_err().message(), "no JSON array in output");
    assert_eq!(parse_scores("open [").unwrap_err().message(), "no JSON array terminator in output");
    assert_eq!(parse_scores("x][y").unwrap_err().message(), "no JSON array terminator in output");
    assert_eq!(parse_scores("x[]y").unwrap(), "[]");
    assert_eq!(parse_scores("] [").unwrap_err().message(), "no JSON array terminator in output");
    assert_eq!(parse_scores("a ] b [ c").unwrap_err().message(), "no JSON array terminator in output");
    assert_eq!(ScoreError::Other("boom".to_string()).message(), "boom");
}

#[test]
fn scores_are_matched_clamped_and_gated() {
    let batch = vec![job(1, "a", ""), job(2, "b", ""), job(3, "c", ""), job(4, "d", "")];
    let results = vec![
        scored(3, 99, "top", &[]),
        scored(1, 9, "far", &["no_location", "a \"b\"\n"]),
        scored(1, 1, "second", &[]),
        scored(4, -5, "low", &["x", "y"]),
    ];
    let v = apply_scores(&batch, &results);
    assert_eq!(v.len(), 3);
    assert_eq!((v[0].posting_id, v[0].score, v[0].reason.as_str()), (1, 3, "[location gate] far"));
    assert_eq!(v[0].flags_json, r#"["no_location","a \"b\"\n"]"#);
    assert_eq!((v[1].posting_id, v[1].score, v[1].flags_json.as_str()), (3, 10, "[]"));
    assert_eq!((v[2].posting_id, v[2].score, v[2].flags_json.as_str()), (4, 0, r#"["x","y"]"#));
    assert_eq!(left_out(&batch, &results), vec![batch[1].external_id.clone()]);
    assert_eq!(v.len() + left_out(&batch, &results).len(), batch.len());
    assert_eq!(left_out(&batch, &[]).len(), 4);
}

#[test]
fn flags_are_escaped_as_json() {
    let batch = vec![job(1, "a", "")];
    let odd = "\u{8}\u{c}\t\r\\\u{1}\u{1f}\u{7f}é";
    let v = apply_scores(&batch, &[scored(1, 5, "r", &[odd])]);
    assert_eq!(v[0].flags_json, "[\"\\b\\f\\t\\r\\\\\\u0001\\u001f\u{7f}é\"]");
}

#[test]
fn batches_are_absorbed_or_counted_failed() {
    let batch = vec![job(1, "a", ""), job(2, "b", "")];
    let mut t = Tally::new();
    let good: Result<(Vec<Scored>, Usage), ScoreError> = Ok((vec![scored(2, 7, "ok", &[])], usage(10)));
    assert!(t.can_absorb(&batch, &good));
    let v = t.absorb(&batch, &good);
    assert_eq!(v.len(), 1);
    assert_eq!((t.scored, t.failed, t.completed, t.usage), (1, 0, 1, usage(10)));
    let bad: Result<(Vec<Scored>, Usage), ScoreError> = Err(ScoreError::Refused);
    assert!(t.absorb(&batch, &bad).is_empty());
    assert_eq!((t.scored, t.failed, t.completed, t.usage), (1, 2, 2, usage(10)));
    let full = Tally { completed: usize::MAX, ..t };
    assert!(!full.can_absorb(&batch, &bad));
}

#[test]
fn the_lines_of_a_run() {
    let t = Tally { scored: 28, failed: 0, completed: 2, usage: usage(1) };
    assert_eq!(
        preview_line("small-model", 9, 28, 2),
        "Dry run: 37 untriaged, 9 pre-filtered out, 28 would be sent to small-model across 2 request(s)."
    );
    assert_eq!(
        estimate_line(1000, 50, "0.00"),
        "Estimated tokens: ~1000 in, ~50 out. Estimated cost if you run it: ~$0.00 (upper bound — prompt caching makes real runs cheaper)."
    );
    assert_eq!(prefilter_line(3), "Pre-filtering 3 posting(s) by title (no API cost)…");
    assert_eq!(reject_only_line(3), "Triage complete: 3 pre-filtered, 0 scored by LLM.");
    assert_eq!(
        scoring_line("small-model", 28, 2, 9),
        "Scoring 28 posting(s) in 2 batch(es) via small-model, up to 8 at a time (9 pre-filtered already). Safe to Ctrl-C — progress is saved per batch."
    );
    assert_eq!(progress_line(&t, 3, 37), "  batch 2/3 · 28/37 postings · 28 scored, 0 failed");
    let full = Tally { scored: u64::MAX, failed: 1, completed: 2, usage: usage(1) };
    assert_eq!(
        progress_line(&full, 3, 37),
        "  batch 2/3 · 18446744073709551616/37 postings · 18446744073709551615 scored, 1 failed"
    );
    assert_eq!(complete_line(9, &t), "Triage complete: 9 pre-filtered, 28 scored, 0 failed (left untriaged).");
    assert_eq!(
        spend_line(&usage(1), "0.0001"),
        "Actual spend: $0.0001 (1 input, 2 output, 3 cache-write, 4 cache-read tokens)."
    );
    assert!(clears_first(true, false) && !clears_first(true, true) && !clears_first(false, false));
    assert_eq!(no_profile("p.toml"), "p.toml not found — it holds the candidate profile for scoring");
    assert_eq!(cleared_line(4), "Cleared scores on 4 open posting(s) for re-triage.");
}
