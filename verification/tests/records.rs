use rustle::clock::Timestamp;
use rustle::config::Config;
use rustle::domain::{Domain, DomainRow};
use rustle::error::Errors;
use rustle::site::{read_links, write_links, Site, SiteRow};
use rustle::url_set::UrlSet;

fn set_of(urls: &[&str]) -> UrlSet {
    let mut s = UrlSet::new();
    for u in urls {
        s.insert(u.to_string());
    }
    s
}

fn sorted(s: &UrlSet) -> Vec<String> {
    let mut v = s.to_vec();
    v.sort();
    v
}

fn at(secs: i64, nanos: u32) -> Timestamp {
    Timestamp { secs, nanos }
}

#[test]
fn timestamp_text_is_rfc3339_in_utc() {
    assert_eq!(at(0, 0).to_rfc3339(), Some("1970-01-01T00:00:00+00:00".to_string()));
    assert_eq!(
        at(1_700_000_000, 500_000_000).to_rfc3339(),
        Some("2023-11-14T22:13:20.500+00:00".to_string())
    );
    assert_eq!(at(-1, 1).to_rfc3339(), Some("1969-12-31T23:59:59.000000001+00:00".to_string()));
}

#[test]
fn timestamp_outside_the_calendar_has_no_text() {
    assert_eq!(at(i64::MAX, 0).to_rfc3339(), None);
    assert_eq!(at(0, 2_000_000_000).to_rfc3339(), None);
}

#[test]
fn timestamp_parses_rfc3339_and_moves_it_to_utc() {
    assert_eq!(Timestamp::parse_from_rfc3339("1970-01-01T00:00:00+00:00"), Some(at(0, 0)));
    assert_eq!(Timestamp::parse_from_rfc3339("1970-01-01T01:00:00+01:00"), Some(at(0, 0)));
    assert_eq!(
        Timestamp::parse_from_rfc3339("2023-11-14T22:13:20.5Z"),
        Some(at(1_700_000_000, 500_000_000))
    );
    assert_eq!(Timestamp::parse_from_rfc3339("yesterday"), None);
    assert_eq!(Timestamp::parse_from_rfc3339(""), None);
}

#[test]
fn timestamp_text_round_trips() {
    for t in [at(0, 0), at(1_700_000_000, 123_456_789), at(-86_400, 999_999_999)] {
        let text = t.to_rfc3339().unwrap();
        assert_eq!(Timestamp::parse_from_rfc3339(&text), Some(t));
    }
}

#[test]
fn freshness_window_is_one_day_exclusive() {
    let now = at(1_000_000, 500);
    assert!(at(1_000_000, 500).is_within_a_day_of(&now));
    assert!(at(1_000_000 - 86_399, 0).is_within_a_day_of(&now));
    assert!(at(1_000_000 - 86_400, 501).is_within_a_day_of(&now));
    assert!(!at(1_000_000 - 86_400, 500).is_within_a_day_of(&now));
    assert!(!at(1_000_000 - 86_400, 499).is_within_a_day_of(&now));
    assert!(!at(1_000_000 - 86_401, 999_999_999).is_within_a_day_of(&now));
    assert!(at(2_000_000, 0).is_within_a_day_of(&now));
    assert!(at(i64::MIN, 0).is_within_a_day_of(&at(i64::MIN + 10, 0)));
}

#[test]
fn links_column_of_empty_set_is_empty() {
    assert_eq!(write_links(&UrlSet::new()), "");
    assert_eq!(read_links("").len(), 0);
}

#[test]
fn links_column_joins_with_commas_and_doubles_quotes() {
    let links = set_of(&["https://a.test/x", "https://a.test/it's"]);
    assert_eq!(write_links(&links), "https://a.test/x,https://a.test/it''s");
}

#[test]
fn links_column_is_split_trimmed_and_collapsed() {
    let links = read_links(" https://a.test/x , https://a.test/it''s,https://a.test/x");
    assert_eq!(links.to_vec(), vec!["https://a.test/x", "https://a.test/it's"]);
}

#[test]
fn links_round_trip_for_sets_of_size_zero_one_and_many() {
    for urls in [
        vec![],
        vec!["https://a.test/"],
        vec!["https://a.test/a", "https://b.test/ü?q='1'", "//c.test", "https://d.test/x y"],
    ] {
        let links = set_of(&urls);
        let back = read_links(&write_links(&links));
        assert_eq!(back.to_vec(), links.to_vec());
    }
}

#[test]
fn site_write_gives_the_stored_columns() {
    let site = Site {
        url: "https://a.test/o'brien".to_string(),
        crawl_time: at(0, 0),
        links_to: set_of(&["https://a.test/b", "https://a.test/c"]),
    };
    let row = site.write_into().unwrap();
    assert_eq!(row.url, "https://a.test/o''brien");
    assert_eq!(row.crawl_time, "1970-01-01T00:00:00+00:00");
    assert_eq!(row.links_to, "https://a.test/b,https://a.test/c");
    assert_eq!(Site::key("https://a.test/o'brien"), row.url);
}

#[test]
fn site_read_of_no_row_is_no_record() {
    assert!(matches!(Site::read_into(None), Ok(None)));
}

#[test]
fn site_read_decodes_the_columns() {
    let row = SiteRow {
        url: "https://a.test/o''brien".to_string(),
        crawl_time: "2023-11-14T22:13:20+00:00".to_string(),
        links_to: "https://a.test/b, https://a.test/c".to_string(),
    };
    let site = Site::read_into(Some(row)).unwrap().unwrap();
    assert_eq!(site.url, "https://a.test/o'brien");
    assert_eq!(site.crawl_time, at(1_700_000_000, 0));
    assert_eq!(site.links_to.to_vec(), vec!["https://a.test/b", "https://a.test/c"]);
}

#[test]
fn site_read_rejects_a_malformed_time() {
    let row = SiteRow {
        url: "https://a.test/".to_string(),
        crawl_time: "last tuesday".to_string(),
        links_to: String::new(),
    };
    match Site::read_into(Some(row)) {
        Err(Errors::EncodingError(m)) => assert_eq!(m, "Failed to parse crawl_time as RFC 3339"),
        other => panic!("unexpected: {:?}", other),
    }
}

#[test]
fn site_write_rejects_a_time_outside_the_calendar() {
    let site = Site { url: "https://a.test/".to_string(), crawl_time: at(i64::MAX, 0), links_to: UrlSet::new() };
    assert!(matches!(site.write_into(), Err(Errors::DatabaseError(_))));
}

#[test]
fn site_round_trips_with_ascii_and_non_ascii_urls() {
    for (url, links) in [
        ("https://a.test/", vec![]),
        ("https://a.test/caf\u{e9}", vec!["https://a.test/\u{65e5}\u{672c}"]),
        ("https://a.test/it's", vec!["https://a.test/1", "https://a.test/'2'", "https://a.test/3"]),
    ] {
        let site = Site { url: url.to_string(), crawl_time: at(1_700_000_000, 42), links_to: set_of(&links) };
        let back = Site::read_into(Some(site.write_into().unwrap())).unwrap().unwrap();
        assert_eq!(back.url, site.url);
        assert_eq!(back.crawl_time, site.crawl_time);
        assert_eq!(sorted(&back.links_to), sorted(&site.links_to));
    }
}

#[test]
fn site_write_is_the_same_for_the_same_record() {
    let site = Site { url: "https://a.test/".to_string(), crawl_time: at(5, 0), links_to: set_of(&["https://a.test/b"]) };
    let one = site.write_into().unwrap();
    let two = site.write_into().unwrap();
    assert_eq!((one.url, one.crawl_time, one.links_to), (two.url, two.crawl_time, two.links_to));
}

#[test]
fn domain_round_trips_with_quotes_in_robots() {
    for robots in ["", "User-agent: *\nDisallow: /it's\n", "''", "# 'quoted' ''twice''"] {
        let domain = Domain { domain: "a.test".to_string(), crawl_time: at(1_700_000_000, 0), robots: robots.to_string() };
        let row = domain.write_into().unwrap();
        let back = Domain::read_into(Some(row)).unwrap().unwrap();
        assert_eq!(back.domain, "a.test");
        assert_eq!(back.crawl_time, domain.crawl_time);
        assert_eq!(back.robots, robots);
    }
}

#[test]
fn domain_write_gives_the_stored_columns() {
    let domain = Domain { domain: "a.test".to_string(), crawl_time: at(0, 0), robots: "Disallow: /it's".to_string() };
    let row = domain.write_into().unwrap();
    assert_eq!(row.domain, "a.test");
    assert_eq!(row.crawl_time, "1970-01-01T00:00:00+00:00");
    assert_eq!(row.robots, "Disallow: /it''s");
    assert_eq!(Domain::key("a.test"), "a.test");
}

#[test]
fn domain_read_rejects_a_malformed_time() {
    let row = DomainRow { domain: "a.test".to_string(), crawl_time: "".to_string(), robots: String::new() };
    assert!(matches!(Domain::read_into(Some(row)), Err(Errors::EncodingError(_))));
    assert!(matches!(Domain::read_into(None), Ok(None)));
}

#[test]
fn domain_write_rejects_a_time_outside_the_calendar() {
    let domain = Domain { domain: "a.test".to_string(), crawl_time: at(i64::MIN, 0), robots: String::new() };
    assert!(matches!(domain.write_into(), Err(Errors::DatabaseError(_))));
}

#[test]
fn summaries_report_the_count() {
    assert_eq!(Site::summarize_site_table(5), "5 Entries in site table");
    assert_eq!(Site::summarize_site_table(0), "0 Entries in site table");
    assert_eq!(Domain::summarize_domain_table(12), "12 Entries in domain table");
}

#[test]
fn config_holds_the_settings() {
    let c = Config {
        origin_url: "https://a.test".to_string(),
        depth: 2,
        database_name: "rustle".to_string(),
        user_agent: None,
    };
    assert_eq!(c.origin_url, "https://a.test");
    assert_eq!(c.depth, 2);
    assert_eq!(c.database_name, "rustle");
    assert_eq!(c.agent(), "Rustle");
    let named = Config { user_agent: Some("OtherBot".to_string()), ..c };
    assert_eq!(named.agent(), "OtherBot");
}

#[test]
fn url_set_keeps_each_member_once_in_order() {
    let mut s = UrlSet::new();
    assert!(s.is_empty());
    assert!(s.insert("b".to_string()));
    assert!(s.insert("a".to_string()));
    assert!(!s.insert("b".to_string()));
    assert_eq!(s.len(), 2);
    assert_eq!(s.to_vec(), vec!["b", "a"]);
    assert!(s.contains(&"a".to_string()));
    assert!(!s.contains(&"c".to_string()));
    assert_eq!(s.get(1), "a");
    assert_eq!(s.clone().to_vec(), s.to_vec());
}

#[test]
fn url_set_union_and_difference() {
    let mut a = set_of(&["1", "2", "3"]);
    let b = set_of(&["3", "4"]);
    assert_eq!(a.difference(&b).to_vec(), vec!["1", "2"]);
    assert_eq!(b.difference(&a).to_vec(), vec!["4"]);
    a.extend(&b);
    assert_eq!(a.to_vec(), vec!["1", "2", "3", "4"]);
    assert_eq!(
        UrlSet::from_vec(vec!["x".to_string(), "y".to_string(), "x".to_string()]).to_vec(),
        vec!["x", "y"]
    );
}

#[test]
fn timestamp_beyond_year_9999_does_not_read_back() {
    let t = at(253_402_300_800, 0);
    let text = t.to_rfc3339().unwrap();
    assert_eq!(text, "+10000-01-01T00:00:00+00:00");
    assert_eq!(Timestamp::parse_from_rfc3339(&text), None);
}

#[test]
fn leap_second_reads_as_nanoseconds_past_a_billion() {
    assert_eq!(
        Timestamp::parse_from_rfc3339("2016-12-31T23:59:60Z"),
        Some(at(1_483_228_799, 1_000_000_000))
    );
    assert_eq!(at(1_483_228_799, 1_000_000_000).to_rfc3339(), Some("2016-12-31T23:59:60+00:00".to_string()));
}

#[test]
fn site_describes_itself_by_url_and_link_count() {
    let site = Site { url: "https://a.test/".to_string(), crawl_time: at(0, 0), links_to: set_of(&["a", "b", "c"]) };
    assert_eq!(site.describe(), "https://a.test/ (3)");
    let bare = Site { url: "u".to_string(), crawl_time: at(0, 0), links_to: UrlSet::new() };
    assert_eq!(bare.describe(), "u (0)");
}

#[test]
fn single_empty_link_is_stored_like_no_link() {
    let links = set_of(&[""]);
    assert_eq!(write_links(&links), "");
    assert!(read_links(&write_links(&links)).is_empty());
}

#[test]
fn link_with_a_comma_is_read_back_as_two() {
    let links = set_of(&["https://a.test/x,y"]);
    assert_eq!(read_links(&write_links(&links)).to_vec(), vec!["https://a.test/x", "y"]);
}

#[test]
fn record_with_a_time_that_would_not_read_back_is_not_written() {
    let late = at(253_402_300_800, 0);
    let site = Site { url: "https://a.test/".to_string(), crawl_time: late, links_to: UrlSet::new() };
    match site.write_into() {
        Err(Errors::DatabaseError(m)) => assert_eq!(m, "crawl_time cannot be stored"),
        other => panic!("unexpected: {:?}", other),
    }
    let domain = Domain { domain: "a.test".to_string(), crawl_time: late, robots: String::new() };
    assert!(matches!(domain.write_into(), Err(Errors::DatabaseError(_))));
    assert_eq!(late.stored_text(), None);
    assert_eq!(at(253_402_300_799, 0).stored_text(), Some("9999-12-31T23:59:59+00:00".to_string()));
}

#[test]
fn leap_second_is_stored_and_read_back() {
    let leap = at(1_483_228_799, 1_000_000_000);
    let domain = Domain { domain: "a.test".to_string(), crawl_time: leap, robots: "x".to_string() };
    let back = Domain::read_into(Some(domain.write_into().unwrap())).unwrap().unwrap();
    assert_eq!(back.crawl_time, leap);
}
