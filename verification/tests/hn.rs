use jobpipe::sources::hn::{derive_title, is_hiring, pick_thread, thread_url, title_from, Comment, SearchHit};
use jobpipe::sources::postings;

#[test]
fn substantial_pipe_head_stands_alone_as_the_title() {
    let html = "<p>Fastly Edge Cloud | San Francisco | Senior Rust Engineer | Remote</p>\
                <p>We build a global edge network. Apply within.</p>";
    assert_eq!(derive_title(html), "Fastly Edge Cloud");
}

#[test]
fn short_head_falls_back_to_the_whole_first_line_not_the_body() {
    let html = "<p>Acme | Berlin | Backend Engineer (Go)</p>\
                <p>Series B. We ship daily and pay well.</p>";
    assert_eq!(derive_title(html), "Acme | Berlin | Backend Engineer (Go)");
}

#[test]
fn title_never_spans_multiple_lines() {
    let html = "<p>Widgets Inc — we are hiring</p>\
                <p>Location: remote</p><p>Role: platform</p>";
    assert!(!derive_title(html).contains('\n'));
}

#[test]
fn long_titles_are_cut_with_a_mark() {
    let long = "x".repeat(200);
    let title = title_from(&long);
    assert_eq!(title.chars().count(), 111);
    assert!(title.ends_with('…'));
    let exact = "y".repeat(110);
    assert_eq!(title_from(&exact), exact);
}

#[test]
fn heads_of_fifteen_characters_stand_alone() {
    assert_eq!(title_from("123456789012345 | rest"), "123456789012345");
    assert_eq!(title_from("12345678901234 | rest"), "12345678901234 | rest");
    assert_eq!(title_from("\n  \n"), "");
}

fn hit(id: &str, title: Option<&str>) -> SearchHit {
    SearchHit { object_id: id.to_string(), title: title.map(|t| t.to_string()) }
}

#[test]
fn the_newest_hiring_thread_is_picked() {
    let hits = vec![
        hit("1", Some("Ask HN: Who wants to be hired? (May 2024)")),
        hit("2", None),
        hit("3", Some("Ask HN: WHO IS HIRING? (May 2024)")),
        hit("4", Some("Ask HN: Who is hiring? (April 2024)")),
    ];
    assert_eq!(pick_thread(&hits).as_deref(), Some("3"));
    assert_eq!(pick_thread(&vec![hit("1", None)]), None);
    assert!(!is_hiring("who is hiring and wants to be hired"));
    assert_eq!(thread_url("42"), "https://hn.algolia.com/api/v1/items/42");
}

#[test]
fn blank_comments_are_skipped() {
    let comments = vec![
        Comment { id: 1, text: None },
        Comment { id: 2, text: Some(" \n".to_string()) },
        Comment { id: 3, text: Some("<p>Acme &amp; Sons | Berlin</p>".to_string()) },
    ];
    let p = postings(&comments);
    assert_eq!(p.len(), 1);
    assert_eq!(p[0].external_id, "3");
    assert_eq!(p[0].title, "Acme & Sons | Berlin");
    assert_eq!(p[0].description, "<p>Acme &amp; Sons | Berlin</p>");
    assert_eq!(p[0].apply_url, "https://news.ycombinator.com/item?id=3");
    assert_eq!(p[0].location, None);
    assert_eq!(p[0].remote, None);
}
