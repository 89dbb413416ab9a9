use jobpipe::sniff::{from_captures, from_markers, from_url, parts, query_value, subdomain, title_case};

#[test]
fn sniffs_url_patterns() {
    let cases = [
        ("https://boards.greenhouse.io/acme", "greenhouse", "acme"),
        ("https://boards.greenhouse.io/embed/job_board?for=acme", "greenhouse", "acme"),
        ("job-boards.greenhouse.io/acme/jobs/123", "greenhouse", "acme"),
        ("https://jobs.lever.co/acme", "lever", "acme"),
        ("https://jobs.ashbyhq.com/acme", "ashby", "acme"),
        ("https://apply.workable.com/acme/", "workable", "acme"),
        ("https://acme.recruitee.com/", "recruitee", "acme"),
    ];
    for (url, ats, slug) in cases {
        let d = from_url(url).unwrap_or_else(|| panic!("no detection for {url}"));
        assert_eq!((d.ats.as_str(), d.slug.as_str()), (ats, slug), "for {url}");
    }
}

#[test]
fn title_cases_slugs() {
    assert_eq!(title_case("acme-corp"), "Acme Corp");
    assert_eq!(title_case("openai"), "Openai");
}

#[test]
fn title_case_skips_empty_words_and_maps_beyond_ascii() {
    assert_eq!(title_case("__acme--corp_"), "Acme Corp");
    assert_eq!(title_case("ßeta"), "SSeta");
    assert_eq!(title_case(""), "");
    assert_eq!(title_case("9lives-Zed"), "9lives Zed");
    assert_eq!(title_case("élan-vital"), "Élan Vital");
}

#[test]
fn hosts_are_lowered_and_schemes_are_optional() {
    let (host, seg, query) = parts("  HTTP://Jobs.Lever.CO//acme/x?a=b?c ");
    // the scheme itself is matched as it is written
    assert_eq!(host, "http:");
    assert_eq!(seg.as_deref(), Some("Jobs.Lever.CO"));
    assert_eq!(query.as_deref(), Some("a=b?c"));
    let (host, seg, query) = parts("http://Jobs.Lever.CO//acme/x");
    assert_eq!(host, "jobs.lever.co");
    assert_eq!(seg.as_deref(), Some("acme"));
    assert_eq!(query, None);
    let (host, seg, query) = parts("");
    assert_eq!((host.as_str(), seg, query), ("", None, None));
}

#[test]
fn the_first_field_with_the_key_counts() {
    assert_eq!(query_value(Some("a=1&for=x&for=y"), "for").as_deref(), Some("x"));
    assert_eq!(query_value(Some("for"), "for"), None);
    assert_eq!(query_value(Some("for=a=b"), "for").as_deref(), Some("a=b"));
    assert_eq!(query_value(None, "for"), None);
}

#[test]
fn subdomains_are_single_labels() {
    assert_eq!(subdomain("acme.workable.com", "workable.com").as_deref(), Some("acme"));
    assert_eq!(subdomain("a.b.workable.com", "workable.com"), None);
    assert_eq!(subdomain("workable.com", "workable.com"), None);
    assert_eq!(subdomain("acme..workable.com", "workable.com").as_deref(), Some("acme"));
    assert_eq!(subdomain("example.com", "workable.com"), None);
}

#[test]
fn greenhouse_subdomains_and_reserved_hosts() {
    let d = from_url("https://acme.greenhouse.io").unwrap();
    assert_eq!((d.ats.as_str(), d.slug.as_str()), ("greenhouse", "acme"));
    assert!(from_url("https://boards.greenhouse.io").is_none());
    assert!(from_url("https://boards-api.greenhouse.io/job_board").is_none());
    assert!(from_url("https://boards.greenhouse.io/embed/job_board").is_none());
}

#[test]
fn workable_and_recruitee_subdomains() {
    let d = from_url("https://acme-corp.workable.com/jobs").unwrap();
    assert_eq!((d.ats.as_str(), d.slug.as_str(), d.name.as_str()), ("workable", "acme-corp", "Acme Corp"));
    assert!(from_url("https://www.workable.com").is_none());
    assert!(from_url("https://www.recruitee.com").is_none());
    assert!(from_url("https://example.com/careers").is_none());
}

#[test]
fn the_scheme_does_not_matter() {
    for url in ["jobs.lever.co/acme", "acme.recruitee.com/", "boards.greenhouse.io/acme"] {
        let bare = from_url(url).unwrap();
        for scheme in ["https://", "http://"] {
            let full = from_url(&format!("{scheme}{url}")).unwrap();
            assert_eq!((full.ats, full.slug, full.name), (bare.ats.clone(), bare.slug.clone(), bare.name.clone()));
        }
    }
}

#[test]
fn markers_are_found_in_a_page() {
    let cases = [
        ("<script src='https://boards.greenhouse.io/embed/job_board?for=acme_1'>", "greenhouse", "acme_1"),
        ("<a href='https://job-boards.greenhouse.io/acme'>", "greenhouse", "acme"),
        ("<a href='https://jobs.lever.co/acme-corp/1'>", "lever", "acme-corp"),
        ("fetch('https://api.ashbyhq.com/posting-api/job-board/Acme')", "ashby", "Acme"),
        ("<a href='https://apply.workable.com/acme/'>", "workable", "acme"),
        ("<a href='https://acme.workable.com'>", "workable", "acme"),
        ("<a href='https://acme.recruitee.com/o/1'>", "recruitee", "acme"),
    ];
    for (body, ats, slug) in cases {
        let d = from_markers(body).unwrap_or_else(|_| panic!("nothing in {body}"));
        assert_eq!((d.ats.as_str(), d.slug.as_str()), (ats, slug), "for {body}");
    }
}

#[test]
fn reserved_names_are_no_company() {
    // "boards.greenhouse.io/embed" holds no reserved name, "www.workable.com" does
    assert!(from_markers("see www.workable.com").is_err());
    let d = from_markers("www.workable.com and acme.recruitee.com").unwrap();
    assert_eq!((d.ats.as_str(), d.slug.as_str()), ("recruitee", "acme"));
    let e = from_markers("<html></html>").unwrap_err();
    assert_eq!(e.message(), "no known ATS markers found in page");
}

#[test]
fn the_first_usable_mark_decides() {
    let found = vec![None, Some("www".to_string()), Some("acme".to_string()), Some("other".to_string())];
    let d = from_captures(&found).unwrap();
    assert_eq!((d.ats.as_str(), d.slug.as_str(), d.name.as_str()), ("lever", "acme", "Acme"));
    assert!(from_captures(&vec![None, None]).is_err());
}
