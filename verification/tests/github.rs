use notsu::github::{
    cutoff_date, level, reply_fits, stats_from_reply, streaks, token, top_langs, ContributionCalendar,
    FetchError, LangEdge, Reply, Repo, UserReply,
};

#[test]
fn level_quartiles() {
    assert_eq!(level(0, 10), 0);
    assert_eq!(level(5, 0), 0); // guard against div-by-zero
    assert_eq!(level(2, 10), 1);
    assert_eq!(level(5, 10), 2);
    assert_eq!(level(7, 10), 3);
    assert_eq!(level(10, 10), 4);
}

#[test]
fn streak_counts_trailing_run() {
    // ...1,1,1 at the end => current 3
    let days = [0, 1, 0, 1, 1, 1];
    assert_eq!(streaks(&days), (3, 3));
}

#[test]
fn streak_grants_today_grace() {
    // trailing zero (today, not yet active) must not break the current run
    let days = [1, 1, 1, 0];
    assert_eq!(streaks(&days).0, 3);
}

#[test]
fn longest_is_max_run() {
    let days = [1, 1, 0, 1, 1, 1, 1, 0, 1];
    let (current, longest) = streaks(&days);
    assert_eq!(longest, 4);
    assert_eq!(current, 1);
}

#[test]
fn top_langs_sorted_and_normalised() {
    let mut m = Vec::new();
    m.push(("Rust".to_string(), (300u64, "#DEA584".to_string())));
    m.push(("Go".to_string(), (100u64, "#00ADD8".to_string())));
    let langs = top_langs(m);
    assert_eq!(langs[0].name, "Rust");
    assert_eq!(langs[0].pct, 75);
    assert_eq!(langs[1].pct, 25);
}

#[test]
fn level_boundaries_are_inclusive() {
    assert_eq!(level(1, 4), 1);
    assert_eq!(level(2, 4), 2);
    assert_eq!(level(3, 4), 3);
    assert_eq!(level(4, 4), 4);
    assert_eq!(level(26, 100), 2);
    assert_eq!(level(51, 100), 3);
    assert_eq!(level(76, 100), 4);
    assert_eq!(level(u64::MAX, u64::MAX), 4);
}

#[test]
fn streaks_of_nothing() {
    assert_eq!(streaks(&[]), (0, 0));
    assert_eq!(streaks(&[0]), (0, 0));
    assert_eq!(streaks(&[0, 0]), (0, 0));
    assert_eq!(streaks(&[5]), (1, 1));
    // only one trailing zero is forgiven
    assert_eq!(streaks(&[1, 1, 0, 0]), (0, 2));
}

#[test]
fn top_langs_keeps_five_largest() {
    let names = ["A", "B", "C", "D", "E", "F", "G"];
    let sizes = [10u64, 70, 30, 50, 20, 60, 40];
    let mut m = Vec::new();
    for (n, s) in names.iter().zip(sizes.iter()) {
        m.push((n.to_string(), (*s, "#000000".to_string())));
    }
    let langs = top_langs(m);
    let got: Vec<&str> = langs.iter().map(|l| l.name.as_str()).collect();
    assert_eq!(got, vec!["B", "F", "D", "G", "C"]);
    // 70 / 280 = 25%, 60 / 280 = 21.4%, 50 / 280 = 17.9%, 40 / 280 = 14.3%, 30 / 280 = 10.7%
    let pcts: Vec<u8> = langs.iter().map(|l| l.pct).collect();
    assert_eq!(pcts, vec![25, 21, 18, 14, 11]);
}

#[test]
fn top_langs_of_nothing() {
    assert!(top_langs(Vec::new()).is_empty());
    let m = vec![("Rust".to_string(), (0u64, "#DEA584".to_string()))];
    assert!(top_langs(m).is_empty());
}

#[test]
fn top_langs_rounds_half_up() {
    // 1/8 = 12.5% rounds to 13, 7/8 = 87.5% to 88
    let m = vec![
        ("A".to_string(), (7u64, "#1".to_string())),
        ("B".to_string(), (1u64, "#2".to_string())),
    ];
    let langs = top_langs(m);
    assert_eq!(langs[0].pct, 88);
    assert_eq!(langs[1].pct, 13);
    assert_eq!(langs[1].color, "#2");
}

#[test]
fn token_prefers_the_stats_pat() {
    assert_eq!(token(Some("a".into()), Some("b".into())), Some("a".to_string()));
    assert_eq!(token(Some("".into()), Some("b".into())), Some("b".to_string()));
    assert_eq!(token(None, Some("b".into())), Some("b".to_string()));
    assert_eq!(token(Some("".into()), Some("".into())), None);
    assert_eq!(token(None, None), None);
}

#[test]
fn cutoff_is_six_months_back() {
    // 2024-09-01T00:00:00Z is day 19967; 182 days earlier is 2024-03-03.
    assert_eq!(cutoff_date(19967 * 86_400), "2024-03-03");
    assert_eq!(cutoff_date(19967 * 86_400 + 86_399), "2024-03-03");
    // never before the epoch
    assert_eq!(cutoff_date(0), "1970-01-01");
    assert_eq!(cutoff_date(182 * 86_400), "1970-01-01");
    assert_eq!(cutoff_date(183 * 86_400), "1970-01-02");
    // leap day
    assert_eq!(cutoff_date((11016 + 182) * 86_400), "2000-02-29");
}

fn edge(size: u64, name: &str, color: Option<&str>) -> LangEdge {
    LangEdge { size: Some(size), name: Some(name.to_string()), color: color.map(|c| c.to_string()) }
}

fn sample_reply() -> Reply {
    let weeks = vec![
        Some(vec![Some(0), Some(1), Some(2), Some(0), Some(4), Some(8), None]),
        Some(vec![Some(3), Some(3), Some(0), Some(1), Some(1), Some(1), Some(0)]),
    ];
    let repos = vec![
        Repo {
            stars: Some(5),
            pushed_at: Some("2024-08-01T10:00:00Z".to_string()),
            edges: Some(vec![edge(300, "Rust", Some("#DEA584")), edge(50, "HTML", None), edge(100, "Go", None)]),
        },
        Repo {
            stars: Some(7),
            pushed_at: Some("2023-01-01T00:00:00Z".to_string()),
            edges: Some(vec![edge(1000, "Java", Some("#b07219"))]),
        },
        Repo {
            stars: None,
            pushed_at: Some("2024-05-05T00:00:00Z".to_string()),
            edges: Some(vec![edge(200, "Go", Some("#00ADD8")), edge(5, "", None)]),
        },
    ];
    Reply {
        status_ok: true,
        has_errors: false,
        user: Some(UserReply {
            followers: Some(42),
            calendar: Some(ContributionCalendar { total: Some(1234), weeks: Some(weeks) }),
            repos: Some(repos),
        }),
    }
}

#[test]
fn stats_from_a_reply() {
    let reply = sample_reply();
    assert!(reply_fits(&reply, "2024-03-03"));
    let st = stats_from_reply(&reply, "2024-03-03").unwrap();
    assert_eq!(st.commits_year, 1234);
    assert_eq!(st.followers, 42);
    assert_eq!(st.stars, 12);
    assert_eq!(st.weeks, vec![vec![0, 1, 1, 0, 2, 4, 0], vec![2, 2, 0, 1, 1, 1, 0]]);
    assert_eq!(st.week_days, vec![3, 3, 0, 1, 1, 1, 0]);
    assert_eq!(st.commits_week, 9);
    // days: 0 1 2 0 4 8 0 3 3 0 1 1 1 0 -> longest run 3, current 3 with grace
    assert_eq!(st.longest_streak, 3);
    assert_eq!(st.current_streak, 3);
    // Go: 100 + 200 (first colour seen wins), Rust: 300; HTML excluded, Java too old
    assert_eq!(st.langs.len(), 2);
    assert_eq!(st.langs[0].name, "Rust");
    assert_eq!(st.langs[0].pct, 50);
    assert_eq!(st.langs[1].name, "Go");
    assert_eq!(st.langs[1].color, "#E4572E");
    assert_eq!(st.langs[1].pct, 50);
}

#[test]
fn reply_errors_in_order() {
    let mut r = sample_reply();
    r.status_ok = false;
    r.has_errors = true;
    assert!(matches!(stats_from_reply(&r, "x"), Err(FetchError::HttpStatus)));
    r.status_ok = true;
    assert!(matches!(stats_from_reply(&r, "x"), Err(FetchError::GraphQl)));
    r.has_errors = false;
    r.user.as_mut().unwrap().calendar = None;
    assert!(matches!(stats_from_reply(&r, "x"), Err(FetchError::NoCalendar)));
    r.user = None;
    assert!(matches!(stats_from_reply(&r, "x"), Err(FetchError::NoUser)));
}

#[test]
fn reply_without_weeks_or_repos() {
    let r = Reply {
        status_ok: true,
        has_errors: false,
        user: Some(UserReply {
            followers: None,
            calendar: Some(ContributionCalendar { total: None, weeks: None }),
            repos: None,
        }),
    };
    let st = stats_from_reply(&r, "2024-01-01").unwrap();
    assert_eq!(st.commits_year, 0);
    assert_eq!(st.followers, 0);
    assert!(st.weeks.is_empty());
    assert!(st.week_days.is_empty());
    assert_eq!((st.current_streak, st.longest_streak), (0, 0));
    assert!(st.langs.is_empty());
}

#[test]
fn reply_that_overflows_is_flagged() {
    let mut r = sample_reply();
    r.user.as_mut().unwrap().repos.as_mut().unwrap()[0].stars = Some(u64::MAX);
    assert!(!reply_fits(&r, "2024-03-03"));
}
