use notsu::calendar::civil_from_days;
use notsu::model::{base_profile, profile_from_stats, Lang, Profile};
use notsu::github::Stats;
use notsu::svg::hero::group;
use notsu::svg::logos::{logo, Logos};
use notsu::svg::companies::when_color;
use notsu::svg::util::{esc, lines, wrap};
use notsu::text::{fmt_dec, join, same_text, strip_ws, text_ge};

#[test]
fn esc_escapes_markup() {
    assert_eq!(esc("a < b && c > d"), "a &lt; b &amp;&amp; c &gt; d");
    assert_eq!(esc("&amp;"), "&amp;amp;");
    assert_eq!(esc("plain ünïcode ★"), "plain ünïcode ★");
    assert_eq!(esc(""), "");
}

#[test]
fn wrap_is_greedy() {
    assert_eq!(wrap("the quick brown fox jumps", 10), vec!["the quick", "brown fox", "jumps"]);
    assert_eq!(wrap("  spaced   out\twords\n", 20), vec!["spaced out words"]);
    assert_eq!(wrap("", 5), Vec::<String>::new());
    assert_eq!(wrap("   ", 5), Vec::<String>::new());
    // a word longer than the limit is cut into pieces that fit
    assert_eq!(wrap("a incomprehensibilities b", 5), vec!["a", "incom", "prehe", "nsibi", "litie", "s b"]);
    assert_eq!(wrap("abcdefgh", 5), vec!["abcde", "fgh"]);
    assert_eq!(wrap("abcdefghij", 5), vec!["abcde", "fghij"]);
    assert_eq!(wrap("x abcdefgh yz", 4), vec!["x", "abcd", "efgh", "yz"]);
    // exactly at the limit still fits
    assert_eq!(wrap("abcd efgh", 9), vec!["abcd efgh"]);
    assert_eq!(wrap("abcd efgh", 8), vec!["abcd", "efgh"]);
}

#[test]
fn lines_stack_wrapped_text() {
    assert_eq!(
        lines("one two three", 170, 1000, 155, 115, "#8B95A1", 7),
        "<text x=\"17\" y=\"100\" font-size=\"11.5\" fill=\"#8B95A1\">one two</text>\
<text x=\"17\" y=\"115.5\" font-size=\"11.5\" fill=\"#8B95A1\">three</text>"
    );
}

#[test]
fn group_thousands() {
    assert_eq!(group(4812), "4,812");
    assert_eq!(group(0), "0");
    assert_eq!(group(999), "999");
    assert_eq!(group(1000), "1,000");
    assert_eq!(group(1_000_001), "1,000,001");
    assert_eq!(group(u64::MAX), "18,446,744,073,709,551,615");
}

#[test]
fn decimal_numbers() {
    assert_eq!(fmt_dec(0), "0");
    assert_eq!(fmt_dec(907), "907");
    assert_eq!(fmt_dec(u64::MAX), "18446744073709551615");
}

#[test]
fn strip_white_space() {
    assert_eq!(strip_ws(" a\tb\nc\r d\u{3000}e\u{a0}"), "abcde");
    assert_eq!(strip_ws("abc"), "abc");
}

#[test]
fn string_helpers() {
    assert!(same_text("Go", "Go"));
    assert!(!same_text("Go", "Gö"));
    assert!(text_ge("2024-05-01T00:00:00Z", "2024-03-03"));
    assert!(text_ge("2024-03-03", "2024-03-03"));
    assert!(!text_ge("2024-03-02T23:59:59Z", "2024-03-03"));
    assert!(!text_ge("2024", "2024-03-03"));
    let parts = vec!["Rust".to_string(), "Go".to_string(), "SQL".to_string()];
    assert_eq!(join(&parts, "  ·  "), "Rust  ·  Go  ·  SQL");
    assert_eq!(join(&Vec::new(), ", "), "");
}

#[test]
fn civil_dates() {
    assert_eq!(civil_from_days(0), (1970, 1, 1));
    assert_eq!(civil_from_days(31), (1970, 2, 1));
    assert_eq!(civil_from_days(59), (1970, 3, 1));
    assert_eq!(civil_from_days(11016), (2000, 2, 29));
    assert_eq!(civil_from_days(11017), (2000, 3, 1));
    assert_eq!(civil_from_days(19967), (2024, 9, 1));
    assert_eq!(civil_from_days(-1), (1969, 12, 31));
    assert_eq!(civil_from_days(-719_468), (0, 3, 1));
    assert_eq!(civil_from_days(-719_469), (0, 2, 29));
    assert_eq!(civil_from_days(47482), (2100, 1, 1));
    assert_eq!(civil_from_days(47541), (2100, 3, 1)); // 2100 is not a leap year
}

#[test]
fn logos_by_name() {
    let l = Logos { dup: "A".into(), cavemode: "B".into(), cattype: "C".into(), devpon: "D".into() };
    assert_eq!(logo(&l, "dup"), Some("A"));
    assert_eq!(logo(&l, "devpon"), Some("D"));
    assert_eq!(logo(&l, "other"), None);
}

#[test]
fn badge_colours() {
    assert_eq!(when_color("now"), "#E4572E");
    assert_eq!(when_color("consulting"), "#56B6C2");
    assert_eq!(when_color("prev"), "#8B95A1");
}

fn empty_stats() -> Stats {
    Stats {
        commits_year: 0,
        commits_week: 0,
        followers: 0,
        stars: 0,
        current_streak: 0,
        longest_streak: 0,
        weeks: Vec::new(),
        week_days: Vec::new(),
        langs: Vec::new(),
    }
}

#[test]
fn profile_falls_back_without_weeks() {
    assert!(profile_from_stats(empty_stats()).is_none());
    let mut st = empty_stats();
    st.commits_year = 900;
    st.commits_week = 5;
    st.followers = 3;
    st.stars = 4;
    st.current_streak = 2;
    st.longest_streak = 8;
    st.weeks = vec![vec![0, 1]];
    st.langs = vec![Lang { name: "Rust".into(), pct: 100, color: "#DEA584".into() }];
    let p: Profile = profile_from_stats(st).unwrap();
    assert_eq!(p.name, "Pichet Itngam");
    assert_eq!(p.commits_year, 900);
    assert_eq!(p.commits_week, 0);
    assert_eq!((p.followers, p.stars, p.current_streak, p.longest_streak), (3, 4, 2, 8));
    assert_eq!(p.weeks, vec![vec![0, 1]]);
    assert_eq!(p.langs[0].name, "Rust");
}

#[test]
fn profile_falls_back_without_activity() {
    let mut st = empty_stats();
    st.commits_year = 12;
    st.weeks = vec![vec![0, 0, 0], vec![0; 7]];
    assert!(profile_from_stats(st).is_none());
    let mut st = empty_stats();
    st.weeks = vec![vec![0; 7], vec![0, 0, 0, 0, 0, 0, 3]];
    assert!(profile_from_stats(st).is_some());
}

#[test]
fn esc_decodes_by_replacement() {
    for s in ["a < b && c > d", "&lt;&gt;&amp;", "<<>>&&", "plain", ""] {
        let e = esc(s);
        assert!(!e.contains('<') && !e.contains('>'));
        assert_eq!(e.replace("&lt;", "<").replace("&gt;", ">").replace("&amp;", "&"), s);
        let count = |c: char| s.chars().filter(|&x| x == c).count();
        assert_eq!(e.chars().count(), s.chars().count() + 4 * count('&') + 3 * count('<') + 3 * count('>'));
    }
}

#[test]
fn base_identity() {
    let p = base_profile();
    assert_eq!(p.handle, "notsu");
    assert_eq!(p.years, 16);
    assert_eq!(p.active_cells(), 0);
}

#[test]
fn active_cells_counts_non_empty() {
    let mut p = base_profile();
    p.weeks = vec![vec![0, 1, 4, 0], vec![], vec![2, 0, 0, 3]];
    assert_eq!(p.active_cells(), 4);
}
