use jobpipe::normalize::{
    clean_html, infer_remote, is_break_tag, normalize, single_line, tag_name,
};
use jobpipe::sources::RawPosting;
use jobpipe::text::is_whitespace;

fn raw(location: Option<&str>, remote: Option<&str>) -> RawPosting {
    RawPosting {
        external_id: "1".to_string(),
        title: "Engineer".to_string(),
        location: location.map(|l| l.to_string()),
        description: "<p>Build &amp; ship</p>".to_string(),
        apply_url: "https://example.com".to_string(),
        remote: remote.map(|r| r.to_string()),
    }
}

#[test]
fn title_is_flattened_to_a_single_line() {
    let raw = RawPosting {
        external_id: "1".into(),
        title: "Acme Corp\n\nHiring Rust\nengineers".into(),
        location: None,
        description: String::new(),
        apply_url: "https://example.com".into(),
        remote: None,
    };
    assert_eq!(normalize(raw).title, "Acme Corp Hiring Rust engineers");
}

#[test]
fn paragraphs_get_a_blank_line_and_br_stays_within_the_block() {
    let html = "<p>First para.</p><p>Second para.<br>Same para new line.</p>";
    assert_eq!(clean_html(html), "First para.\n\nSecond para.\nSame para new line.");
}

#[test]
fn list_items_are_bulleted_and_kept_tight() {
    let html = "<ul><li>One</li><li>Two</li></ul>";
    assert_eq!(clean_html(html), "• One\n• Two");
}

#[test]
fn a_paragraph_before_a_list_is_separated_by_a_blank_line() {
    let html = "<p>Requirements:</p><ul><li>One</li><li>Two</li></ul>";
    assert_eq!(clean_html(html), "Requirements:\n\n• One\n• Two");
}

#[test]
fn inline_tags_stay_on_one_line_and_entities_decode() {
    let html = "Ship <b>fast</b> &amp; <i>safe</i>";
    assert_eq!(clean_html(html), "Ship fast & safe");
}

#[test]
fn entity_escaped_markup_is_handled() {
    assert_eq!(clean_html("&lt;p&gt;Hello&lt;/p&gt;"), "Hello");
}

#[test]
fn empty_blocks_are_dropped() {
    let html = "<div>A</div><div></div><div></div><div>B</div>";
    assert_eq!(clean_html(html), "A\n\nB");
}

#[test]
fn an_unclosed_tag_swallows_the_rest() {
    assert_eq!(clean_html("before <b"), "before");
    assert_eq!(clean_html(""), "");
}

#[test]
fn whitespace_inside_a_block_is_collapsed() {
    assert_eq!(clean_html("<p>  a \t b  </p>"), "a b");
}

#[test]
fn numeric_references_decode() {
    assert_eq!(clean_html("it&#39;s &#x41;"), "it's A");
}

#[test]
fn plain_text_comes_back_as_it_is() {
    assert_eq!(clean_html("Just some words"), "Just some words");
}

#[test]
fn tag_names_are_lowered_and_bare() {
    assert_eq!(tag_name("P class=\"x\""), "p");
    assert_eq!(tag_name("/LI"), "li");
    assert_eq!(tag_name("// h1"), "h1");
    assert_eq!(tag_name(""), "");
}

#[test]
fn block_tags_break_and_inline_tags_do_not() {
    for t in ["br", "p", "div", "/ul", "H3", "blockquote", "hr", "table"] {
        assert!(is_break_tag(t), "{}", t);
    }
    for t in ["b", "span", "a href='x'", "h7", "strong", ""] {
        assert!(!is_break_tag(t), "{}", t);
    }
}

#[test]
fn single_line_collapses_every_kind_of_whitespace() {
    assert_eq!(single_line(" a\t\tb\u{a0}c\n"), "a b c");
    assert_eq!(single_line(" \n "), "");
}

#[test]
fn flattening_twice_is_flattening_once() {
    let once = single_line(" a \n b ");
    assert_eq!(single_line(&once), once);
}

#[test]
fn remote_is_inferred_from_the_location() {
    assert_eq!(infer_remote(Some("Remote - Canada")), "remote");
    assert_eq!(infer_remote(Some("HYBRID, Berlin")), "hybrid");
    assert_eq!(infer_remote(Some("Vancouver, BC")), "onsite");
    assert_eq!(infer_remote(None), "unknown");
}

#[test]
fn a_stated_remote_flag_wins_over_the_location() {
    let n = normalize(raw(Some("Remote"), Some("hybrid")));
    assert_eq!(n.remote, "hybrid");
    let n = normalize(raw(Some("Remote"), Some("")));
    assert_eq!(n.remote, "remote");
}

#[test]
fn a_blank_location_is_no_location() {
    let n = normalize(raw(Some("   "), None));
    assert_eq!(n.location, None);
    assert_eq!(n.remote, "unknown");
    let n = normalize(raw(Some("  Berlin "), None));
    assert_eq!(n.location.as_deref(), Some("Berlin"));
    assert_eq!(n.description, "Build & ship");
    assert_eq!(n.external_id, "1");
    assert_eq!(n.apply_url, "https://example.com");
}

#[test]
fn whitespace_is_the_same_everywhere() {
    for n in 0..=0x10FFFFu32 {
        if let Some(c) = char::from_u32(n) {
            assert_eq!(is_whitespace(c), c.is_whitespace(), "{:x}", n);
        }
    }
}

#[test]
fn cleaning_text_without_markup_twice_is_cleaning_it_once() {
    for s in ["", "  plain\ttext  ", "a  b\n\n\n c > d\n", "•  x\ny"] {
        let once = clean_html(s);
        assert_eq!(clean_html(&once), once);
    }
    let listed = clean_html("<ul><li>a</li><li>b<br>c</li></ul>");
    assert_eq!(listed, "• a\n• b\nc");
    assert_eq!(clean_html(&listed), listed);
    // Blank lines separate paragraphs only as tags do.
    assert_eq!(clean_html(&clean_html("<p>a</p><p>b</p>")), "a\nb");
}

#[test]
fn single_lines_have_single_spaces() {
    for s in ["a  b", "\ta \n b\r\n\nc  ", "   ", "x\u{a0}\u{2003}y"] {
        assert!(!single_line(s).contains("  "));
    }
    assert_eq!(single_line("x\u{a0}\u{2003}y"), "x y");
}
