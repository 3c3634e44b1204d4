//! Live statistics computed from the GitHub GraphQL reply: heatmap levels,
//! streaks, the language shares and the recency cutoff. The request itself is
//! made by the program around the library; it hands the reply over as plain
//! values.
use vstd::prelude::*;
use crate::text::{opt_view, dec_pad, push_dec_pad, push_char, text_lt, text_ge, same_text, owned};
use crate::calendar::{civil_from_days, valid_date, days_from_civil};
use crate::model::Lang;
use vstd::set_lib::{set_int_range, lemma_int_range, lemma_map_size_bound, lemma_len_subset};

verus! {

/// The token to use: the first of `GH_STATS_PAT` and `GITHUB_TOKEN` that is
/// set and not empty.
pub open spec fn chosen_token(pat: Option<Seq<char>>, github: Option<Seq<char>>) -> Option<Seq<char>> {
    if pat is Some && pat->0.len() > 0 {
        pat
    } else if github is Some && github->0.len() > 0 {
        github
    } else {
        None
    }
}

/// Picks the API token from the values of `GH_STATS_PAT` and `GITHUB_TOKEN`
/// (each `None` when the variable is unset or not Unicode).
pub fn token(pat: Option<String>, github: Option<String>) -> (res: Option<String>)
    ensures
        opt_view(res) == chosen_token(opt_view(pat), opt_view(github)),
{
    match pat {
        Some(t) if t.as_str().unicode_len() > 0 => Some(t),
        _ => match github {
            Some(t) if t.as_str().unicode_len() > 0 => Some(t),
            _ => None,
        },
    }
}

/// The heatmap level of a day with `count` contributions when the busiest day
/// of the year had `max`: 0 for an empty day, else the quartile of
/// `count / max` (1 up to a quarter, 2 up to a half, 3 up to three quarters,
/// 4 above).
pub open spec fn level_of(count: nat, max: nat) -> nat {
    if count == 0 || max == 0 {
        0
    } else if 4 * count <= max {
        1
    } else if 2 * count <= max {
        2
    } else if 4 * count <= 3 * max {
        3
    } else {
        4
    }
}

/// Contribution count to heatmap level 0..=4 (quartiles of the year's maximum).
pub fn level(count: u64, max: u64) -> (res: u8)
    ensures
        res as nat == level_of(count as nat, max as nat),
        res <= 4,
{
    if count == 0 || max == 0 {
        return 0;
    }
    let c = count as u128;
    let m = max as u128;
    if 4 * c <= m {
        1
    } else if 2 * c <= m {
        2
    } else if 4 * c <= 3 * m {
        3
    } else {
        4
    }
}

/// The number of days with contributions at the end of `days`.
pub open spec fn trailing_run(days: Seq<u64>) -> nat
    decreases days.len(),
{
    if days.len() == 0 {
        0
    } else if days.last() > 0 {
        trailing_run(days.drop_last()) + 1
    } else {
        0
    }
}

/// The length of the longest run of consecutive days with contributions.
pub open spec fn longest_run(days: Seq<u64>) -> nat
    decreases days.len(),
{
    if days.len() == 0 {
        0
    } else {
        let before = longest_run(days.drop_last());
        let here = trailing_run(days);
        if here > before { here } else { before }
    }
}

/// The current streak: the trailing run of active days, where a last day
/// without contributions (today, not yet active) is passed over.
pub open spec fn current_run(days: Seq<u64>) -> nat {
    if days.len() > 0 && days.last() == 0 {
        trailing_run(days.drop_last())
    } else {
        trailing_run(days)
    }
}

/// A prefix has no longer run than the whole sequence.
proof fn lemma_longest_prefix(days: Seq<u64>, k: int)
    requires
        0 <= k <= days.len(),
    ensures
        longest_run(days.take(k)) <= longest_run(days),
    decreases days.len() - k,
{
    if k < days.len() {
        lemma_longest_prefix(days, k + 1);
        assert(days.take(k + 1).drop_last() =~= days.take(k));
    } else {
        assert(days.take(k) =~= days);
    }
}

/// No run is longer than the sequence.
proof fn lemma_runs_bounded(days: Seq<u64>)
    ensures
        trailing_run(days) <= days.len(),
        longest_run(days) <= days.len(),
    decreases days.len(),
{
    if days.len() > 0 {
        lemma_runs_bounded(days.drop_last());
    }
}

/// (current, longest) run of days with contributions. Today is allowed a
/// grace: a trailing zero does not break the current streak.
pub fn streaks(days: &[u64]) -> (res: (u32, u32))
    requires
        longest_run(days@) <= u32::MAX,
    ensures
        res.0 as nat == current_run(days@),
        res.1 as nat == longest_run(days@),
{
    let n = days.len();
    let mut longest: u32 = 0;
    let mut run: u32 = 0;
    for i in 0..n
        invariant
            n == days@.len(),
            longest_run(days@) <= u32::MAX,
            run as nat == trailing_run(days@.take(i as int)),
            longest as nat == longest_run(days@.take(i as int)),
    {
        assert(days@.take(i + 1).drop_last() =~= days@.take(i as int));
        proof {
            lemma_longest_prefix(days@, i + 1);
            lemma_trailing_within_longest(days@.take(i + 1));
        }
        if days[i] > 0 {
            run = run + 1;
            if run > longest {
                longest = run;
            }
        } else {
            run = 0;
        }
    }
    assert(days@.take(n as int) =~= days@);

    let mut end = n;
    if n > 0 && days[n - 1] == 0 {
        end = n - 1;
    }
    let ghost counted = days@.take(end as int);
    proof { lemma_current_within_longest(days@); }
    assert(current_run(days@) == trailing_run(counted)) by {
        if n > 0 && days@.last() == 0 {
            assert(counted =~= days@.drop_last());
        } else {
            assert(counted =~= days@);
        }
    }
    // Walk back from `end` while days are active.
    let mut current: u32 = 0;
    let mut k = end;
    while k > 0 && days[k - 1] > 0
        invariant
            k <= end <= n == days@.len(),
            current_run(days@) <= u32::MAX,
            current_run(days@) == trailing_run(counted),
            counted == days@.take(end as int),
            current == end - k,
            trailing_run(counted) == current + trailing_run(days@.take(k as int)),
        decreases k,
    {
        assert(days@.take(k as int).drop_last() =~= days@.take(k - 1));
        assert(days@.take(k as int).last() == days@[k - 1]);
        assert(trailing_run(days@.take(k as int)) >= 1);
        current = current + 1;
        k = k - 1;
    }
    assert(trailing_run(days@.take(k as int)) == 0) by {
        if k > 0 {
            assert(days@.take(k as int).last() == days@[k - 1]);
        }
    }
    (current, longest)
}

/// The current streak never exceeds the longest one.
pub proof fn lemma_current_within_longest(days: Seq<u64>)
    ensures
        current_run(days) <= longest_run(days),
{
    lemma_trailing_within_longest(days);
    if days.len() > 0 && days.last() == 0 {
        lemma_trailing_within_longest(days.drop_last());
    }
}

/// The run that ends the sequence is one of its runs.
proof fn lemma_trailing_within_longest(days: Seq<u64>)
    ensures
        trailing_run(days) <= longest_run(days),
        days.len() > 0 ==> longest_run(days.drop_last()) <= longest_run(days),
{
}


/// The day, in days from 1970-01-01, about six months (182 days) before the
/// moment `secs` seconds after the epoch; never before the epoch.
pub open spec fn cutoff_day(secs: nat) -> int {
    let d = secs / 86400;
    if d >= 182 { d - 182 } else { 0 }
}

/// The ISO form `YYYY-MM-DD` of a date.
pub open spec fn date_text(y: int, m: int, d: int) -> Seq<char> {
    dec_pad(y as nat, 4) + seq!['-'] + dec_pad(m as nat, 2) + seq!['-'] + dec_pad(d as nat, 2)
}

/// ISO date (`YYYY-MM-DD`) about six months before `now_secs` (seconds since
/// the Unix epoch), the start of the language recency window.
pub fn cutoff_date(now_secs: u64) -> (res: String)
    ensures
        exists|y: int, m: int, d: int|
            y >= 1970 && valid_date(y, m, d) && days_from_civil(y, m, d) == cutoff_day(now_secs as nat)
                && res@ == date_text(y, m, d),
{
    let whole_days = now_secs / 86_400;
    let days: i64 = whole_days.saturating_sub(182) as i64;
    let (y, m, d) = civil_from_days(days);
    proof {
        crate::calendar::lemma_civil_not_before_epoch(y as int, m as int, d as int);
    }
    let mut out = String::new();
    push_dec_pad(&mut out, y as u64, 4);
    push_char(&mut out, '-');
    push_dec_pad(&mut out, m as u64, 2);
    push_char(&mut out, '-');
    push_dec_pad(&mut out, d as u64, 2);
    assert(out@ =~= date_text(y as int, m as int, d as int));
    out
}


/// A language's aggregated size in bytes and its colour, keyed by its name.
pub type LangEntry = (String, (u64, String));

/// The sum of the sizes of `entries`.
pub open spec fn sizes_total(entries: Seq<LangEntry>) -> nat
    decreases entries.len(),
{
    if entries.len() == 0 {
        0
    } else {
        sizes_total(entries.drop_last()) + entries.last().1.0 as nat
    }
}

/// `size` as a percentage of `total`, rounded to the nearest whole number
/// (halves up).
pub open spec fn percent(size: nat, total: nat) -> nat
    recommends
        total > 0,
{
    (200 * size + total) / (2 * total)
}

/// `idx` picks the (at most five) largest of `sizes`, largest first: distinct
/// positions, sizes not increasing, and nothing left out larger than what
/// was picked.
pub open spec fn top_pick(sizes: Seq<nat>, idx: Seq<int>, count: nat) -> bool {
    &&& idx.len() == (if sizes.len() < count { sizes.len() } else { count })
    &&& forall|k: int| 0 <= k < idx.len() ==> 0 <= #[trigger] idx[k] < sizes.len()
    &&& forall|k: int, l: int| 0 <= k < l < idx.len() ==> idx[k] != idx[l]
    &&& forall|k: int, l: int| 0 <= k < l < idx.len() ==> sizes[idx[k]] >= sizes[idx[l]]
    &&& forall|j: int, k: int|
        0 <= j < sizes.len() && 0 <= k < idx.len() && !idx.contains(j) ==> sizes[j] <= sizes[idx[k]]
}

/// A language's name, aggregated size and colour, as plain values.
pub type Agg = (Seq<char>, nat, Seq<char>);

/// The entries as plain values.
pub open spec fn entries_view(entries: Seq<LangEntry>) -> Seq<Agg> {
    entries.map_values(|e: LangEntry| (e.0@, e.1.0 as nat, e.1.1@))
}

/// The sizes of aggregated languages.
pub open spec fn agg_sizes(acc: Seq<Agg>) -> Seq<nat> {
    acc.map_values(|a: Agg| a.1)
}

/// The sizes of the entries.
pub open spec fn entry_sizes(entries: Seq<LangEntry>) -> Seq<nat> {
    agg_sizes(entries_view(entries))
}

/// `lang` shows the aggregated language `a` as a share of `total`.
pub open spec fn lang_shows(lang: Lang, a: Agg, total: nat) -> bool {
    &&& lang.name@ == a.0
    &&& lang.pct == percent(a.1, total)
    &&& lang.color@ == a.2
}

/// A prefix sum never exceeds the whole.
proof fn lemma_sizes_prefix(entries: Seq<LangEntry>, k: int)
    requires
        0 <= k <= entries.len(),
    ensures
        sizes_total(entries.take(k)) <= sizes_total(entries),
        forall|j: int| 0 <= j < k ==> entries[j].1.0 <= sizes_total(entries.take(k)),
    decreases entries.len() - k,
{
    if k < entries.len() {
        lemma_sizes_prefix(entries, k + 1);
        assert(entries.take(k + 1).drop_last() =~= entries.take(k));
    } else {
        assert(entries.take(k) =~= entries);
    }
    lemma_entries_within(entries.take(k));
    assert forall|j: int| 0 <= j < k implies entries[j] == entries.take(k)[j] by {}
}

/// Every entry's size is within the total.
proof fn lemma_entries_within(entries: Seq<LangEntry>)
    ensures
        forall|j: int| 0 <= j < entries.len() ==> entries[j].1.0 <= sizes_total(entries),
    decreases entries.len(),
{
    if entries.len() > 0 {
        lemma_entries_within(entries.drop_last());
        assert forall|j: int| 0 <= j < entries.len() - 1 implies entries[j] == entries.drop_last()[j] by {}
    }
}

/// Sums the sizes.
fn sum_sizes(entries: &Vec<LangEntry>) -> (total: u64)
    requires
        sizes_total(entries@) <= u64::MAX,
    ensures
        total == sizes_total(entries@),
{
    let mut total: u64 = 0;
    for i in 0..entries.len()
        invariant
            sizes_total(entries@) <= u64::MAX,
            total == sizes_total(entries@.take(i as int)),
    {
        proof { lemma_sizes_prefix(entries@, i + 1); }
        assert(entries@.take(i + 1).drop_last() =~= entries@.take(i as int));
        total = total + entries[i].1.0;
    }
    assert(entries@.take(entries.len() as int) =~= entries@);
    total
}

/// Top 5 languages by aggregated size, as a rounded percentage of the total.
/// Nothing when the total is zero.
pub fn top_langs(entries: Vec<LangEntry>) -> (res: Vec<Lang>)
    requires
        sizes_total(entries@) <= u64::MAX,
    ensures
        sizes_total(entries@) == 0 ==> res@.len() == 0,
        forall|k: int| 0 <= k < res@.len() ==> (#[trigger] res@[k]).pct <= 100,
        sizes_total(entries@) > 0 ==> exists|idx: Seq<int>|
            #[trigger] top_pick(entry_sizes(entries@), idx, 5) && idx.len() == res@.len()
                && forall|k: int| 0 <= k < idx.len() ==>
                    lang_shows(#[trigger] res@[k], entries_view(entries@)[idx[k]], sizes_total(entries@)),
{
    let total = sum_sizes(&entries);
    if total == 0 {
        return Vec::new();
    }
    let n = entries.len();
    let ghost sizes = entry_sizes(entries@);
    let want: usize = if n < 5 { n } else { 5 };
    let mut used: Vec<bool> = Vec::new();
    for i in 0..n
        invariant
            used@.len() == i,
            forall|j: int| 0 <= j < i ==> !used@[j],
    {
        used.push(false);
    }
    let mut picks: Vec<usize> = Vec::new();
    let mut res: Vec<Lang> = Vec::new();
    proof { lemma_entries_within(entries@); }
    while picks.len() < want
        invariant
            n == entries@.len(),
            sizes == entry_sizes(entries@),
            total == sizes_total(entries@),
            total > 0,
            forall|j: int| 0 <= j < n ==> entries@[j].1.0 <= total,
            want == (if n < 5 { n } else { 5 }),
            used@.len() == n,
            picks@.len() <= want,
            res@.len() == picks@.len(),
            forall|k: int| 0 <= k < picks@.len() ==> 0 <= #[trigger] picks@[k] < n,
            forall|j: int| 0 <= j < n ==> (used@[j] <==> picks@.contains(j as usize)),
            forall|k: int, l: int| 0 <= k < l < picks@.len() ==> picks@[k] != picks@[l],
            forall|k: int, l: int| 0 <= k < l < picks@.len() ==> sizes[picks@[k] as int] >= sizes[picks@[l] as int],
            forall|j: int, k: int| 0 <= j < n && 0 <= k < picks@.len() && !used@[j]
                ==> sizes[j] <= sizes[picks@[k] as int],
            forall|k: int| 0 <= k < picks@.len() ==>
                lang_shows(#[trigger] res@[k], entries_view(entries@)[picks@[k] as int], total as nat),
            forall|k: int| 0 <= k < res@.len() ==> (#[trigger] res@[k]).pct <= 100,
        decreases want - picks@.len(),
    {
        // Some position is still free: fewer picks than entries.
        assert(exists|j: int| 0 <= j < n && !used@[j]) by {
            lemma_free_position(used@, picks@, n as int);
        }
        let mut best: usize = n;
        for j in 0..n
            invariant
                n == entries@.len(),
                sizes == entry_sizes(entries@),
                used@.len() == n,
                best == n || (best < j && !used@[best as int]),
                best < n ==> forall|i: int| 0 <= i < j && !used@[i] ==> sizes[i] <= sizes[best as int],
                best == n ==> forall|i: int| 0 <= i < j ==> used@[i],
        {
            if !used[j] && (best == n || entries[j].1.0 > entries[best].1.0) {
                best = j;
            }
        }
        assert(best < n);
        used.set(best, true);
        let e = &entries[best];
        let size = e.1.0;
        let pct: u8 = ((200 * (size as u128) + total as u128) / (2 * total as u128)) as u8;
        assert((200 * (size as u128) + total as u128) / (2 * total as u128) <= 100) by (nonlinear_arith)
            requires size <= total, total > 0;
        let lang = Lang { name: e.0.clone(), pct, color: e.1.1.clone() };
        let ghost old_picks = picks@;
        picks.push(best);
        res.push(lang);
        assert forall|j: int| 0 <= j < n implies (used@[j] <==> picks@.contains(j as usize)) by {
            if j == best as int {
                assert(picks@[picks@.len() - 1] == best);
            } else {
                if old_picks.contains(j as usize) {
                    let k = choose|k: int| 0 <= k < old_picks.len() && old_picks[k] == j as usize;
                    assert(picks@[k] == j as usize);
                }
                if picks@.contains(j as usize) {
                    let k = choose|k: int| 0 <= k < picks@.len() && picks@[k] == j as usize;
                    assert(k < old_picks.len());
                    assert(old_picks[k] == j as usize);
                }
            }
        }
    }
    let ghost idx = picks@.map_values(|p: usize| p as int);
    assert(top_pick(sizes, idx, 5)) by {
        assert forall|j: int, k: int|
            0 <= j < sizes.len() && 0 <= k < idx.len() && !idx.contains(j) implies sizes[j] <= sizes[idx[k]] by {
            if used@[j] {
                let m = choose|m: int| 0 <= m < picks@.len() && picks@[m] == j as usize;
                assert(idx[m] == j);
            }
        }
    }
    res
}

/// While fewer positions are picked than there are, one is free.
proof fn lemma_free_position(used: Seq<bool>, picks: Seq<usize>, n: int)
    requires
        used.len() == n,
        n <= usize::MAX,
        picks.len() < n,
        forall|k: int| 0 <= k < picks.len() ==> 0 <= #[trigger] picks[k] < n,
        forall|j: int| 0 <= j < n ==> (used[j] <==> picks.contains(j as usize)),
        forall|k: int, l: int| 0 <= k < l < picks.len() ==> picks[k] != picks[l],
    ensures
        exists|j: int| 0 <= j < n && !used[j],
{
    if forall|j: int| 0 <= j < n ==> used[j] {
        // Then every position 0..n occurs among fewer than n picks.
        let x = set_int_range(0, picks.len() as int);
        let g = |k: int| picks[k] as int;
        lemma_int_range(0, picks.len() as int);
        lemma_map_size_bound(x, x.map(g), g);
        lemma_int_range(0, n);
        assert forall|j: int| #[trigger] set_int_range(0, n).contains(j) implies x.map(g).contains(j) by {
            assert(used[j]);
            assert(picks.contains(j as usize));
            let k = choose|k: int| 0 <= k < picks.len() && picks[k] == j as usize;
            assert(x.contains(k) && g(k) == j);
        }
        lemma_len_subset(set_int_range(0, n), x.map(g));
        assert(false);
    }
}


/// One language edge of a repository in the reply: its size and the
/// language's name and colour, each as far as the reply held it.
pub struct LangEdge {
    pub size: Option<u64>,
    pub name: Option<String>,
    pub color: Option<String>,
}

/// One repository in the reply.
pub struct Repo {
    pub stars: Option<u64>,
    /// `pushedAt`, an ISO timestamp.
    pub pushed_at: Option<String>,
    pub edges: Option<Vec<LangEdge>>,
}

/// The contribution calendar in the reply: the year's total, and per week
/// the day counts.
pub struct ContributionCalendar {
    pub total: Option<u64>,
    pub weeks: Option<Vec<Option<Vec<Option<u64>>>>>,
}

/// The user object of the reply.
pub struct UserReply {
    pub followers: Option<u64>,
    pub calendar: Option<ContributionCalendar>,
    pub repos: Option<Vec<Repo>>,
}

/// The GraphQL reply as the library reads it.
pub struct Reply {
    /// Whether the HTTP status was a success.
    pub status_ok: bool,
    /// Whether the body held an `errors` member.
    pub has_errors: bool,
    pub user: Option<UserReply>,
}

/// Why a reply gives no statistics.
#[derive(Debug, PartialEq, Eq, Structural, Clone, Copy)]
pub enum FetchError {
    /// GitHub answered with a status that is not a success.
    HttpStatus,
    /// The GraphQL reply reported errors.
    GraphQl,
    /// The reply held no user.
    NoUser,
    /// The user held no contribution calendar.
    NoCalendar,
}

/// The live fields the renderer fills in around the static identity.
pub struct Stats {
    pub commits_year: u64,
    pub commits_week: u64,
    pub followers: u64,
    pub stars: u64,
    pub current_streak: u32,
    pub longest_streak: u32,
    pub weeks: Vec<Vec<u8>>,
    pub week_days: Vec<u64>,
    pub langs: Vec<Lang>,
}

/// A count, zero where the reply held none.
pub open spec fn or_zero(o: Option<u64>) -> u64 {
    match o {
        Some(v) => v,
        None => 0,
    }
}

/// The day counts of one week of the calendar.
pub open spec fn day_counts_of(w: Option<Vec<Option<u64>>>) -> Seq<u64> {
    match w {
        Some(v) => v@.map_values(|c: Option<u64>| or_zero(c)),
        None => Seq::empty(),
    }
}

/// The day counts of the calendar, week by week.
pub open spec fn week_counts(weeks: Option<Vec<Option<Vec<Option<u64>>>>>) -> Seq<Seq<u64>> {
    match weeks {
        Some(ws) => ws@.map_values(|w: Option<Vec<Option<u64>>>| day_counts_of(w)),
        None => Seq::empty(),
    }
}

/// The largest of `s`, 0 for none.
pub open spec fn max_of(s: Seq<u64>) -> u64
    decreases s.len(),
{
    if s.len() == 0 {
        0
    } else {
        let m = max_of(s.drop_last());
        if s.last() > m { s.last() } else { m }
    }
}

/// The heatmap levels of the calendar.
pub open spec fn level_grid(wc: Seq<Seq<u64>>, max: u64) -> Seq<Seq<u8>> {
    wc.map_values(|w: Seq<u64>| w.map_values(|c: u64| level_of(c as nat, max as nat) as u8))
}

/// The last seven days (all of them when there are fewer).
pub open spec fn last_days(s: Seq<u64>) -> Seq<u64> {
    if s.len() > 7 { s.skip(s.len() - 7) } else { s }
}

/// The sum of `s`.
pub open spec fn sum_of(s: Seq<u64>) -> nat
    decreases s.len(),
{
    if s.len() == 0 { 0 } else { sum_of(s.drop_last()) + s.last() as nat }
}

/// The repositories of the reply.
pub open spec fn repos_of(u: UserReply) -> Seq<Repo> {
    match u.repos {
        Some(v) => v@,
        None => Seq::empty(),
    }
}

/// All-time stars over all repositories.
pub open spec fn stars_total(repos: Seq<Repo>) -> nat
    decreases repos.len(),
{
    if repos.len() == 0 { 0 } else { stars_total(repos.drop_last()) + or_zero(repos.last().stars) as nat }
}

/// Markup / config "languages" that are not interesting on a developer profile.
pub open spec fn excluded(name: Seq<char>) -> bool {
    ||| name == "HTML"@
    ||| name == "CSS"@
    ||| name == "SCSS"@
    ||| name == "Less"@
    ||| name == "Blade"@
    ||| name == "Makefile"@
    ||| name == "Dockerfile"@
    ||| name == "Shell"@
    ||| name == "Batchfile"@
    ||| name == "PowerShell"@
    ||| name == "Roff"@
    ||| name == "Vim Script"@
    ||| name == "Procfile"@
    ||| name == "Mustache"@
}

/// Whether `name` is one of the excluded languages.
pub fn is_excluded(name: &str) -> (res: bool)
    ensures
        res == excluded(name@),
{
    same_text(name, "HTML") || same_text(name, "CSS") || same_text(name, "SCSS")
        || same_text(name, "Less") || same_text(name, "Blade") || same_text(name, "Makefile")
        || same_text(name, "Dockerfile") || same_text(name, "Shell") || same_text(name, "Batchfile")
        || same_text(name, "PowerShell") || same_text(name, "Roff") || same_text(name, "Vim Script")
        || same_text(name, "Procfile") || same_text(name, "Mustache")
}

/// The language name of an edge, empty where the reply held none.
pub open spec fn edge_name(e: LangEdge) -> Seq<char> {
    match e.name {
        Some(n) => n@,
        None => Seq::empty(),
    }
}

/// The colour of an edge, the accent colour where the reply held none.
pub open spec fn edge_color(e: LangEdge) -> Seq<char> {
    match e.color {
        Some(c) => c@,
        None => "#E4572E"@,
    }
}

/// Whether an edge counts: it names a language that is not excluded.
pub open spec fn edge_kept(e: LangEdge) -> bool {
    edge_name(e).len() > 0 && !excluded(edge_name(e))
}

/// The position of `name` among the aggregated languages, -1 if absent.
pub open spec fn find_name(acc: Seq<Agg>, name: Seq<char>) -> int
    decreases acc.len(),
{
    if acc.len() == 0 {
        -1
    } else if acc.last().0 == name {
        acc.len() - 1
    } else {
        find_name(acc.drop_last(), name)
    }
}

/// Adds `size` bytes of language `name`: to its entry if it has one (the
/// first colour seen stays), else as a new entry at the end.
pub open spec fn agg_add(acc: Seq<Agg>, name: Seq<char>, size: nat, color: Seq<char>) -> Seq<Agg> {
    let i = find_name(acc, name);
    if i >= 0 {
        acc.update(i, (name, acc[i].1 + size, acc[i].2))
    } else {
        acc.push((name, size, color))
    }
}

/// Aggregates the kept edges of one repository.
pub open spec fn agg_edges(acc: Seq<Agg>, edges: Seq<LangEdge>) -> Seq<Agg>
    decreases edges.len(),
{
    if edges.len() == 0 {
        acc
    } else {
        let a = agg_edges(acc, edges.drop_last());
        let e = edges.last();
        if edge_kept(e) { agg_add(a, edge_name(e), or_zero(e.size) as nat, edge_color(e)) } else { a }
    }
}

/// The language edges of a repository.
pub open spec fn repo_edges(r: Repo) -> Seq<LangEdge> {
    match r.edges {
        Some(v) => v@,
        None => Seq::empty(),
    }
}

/// Whether a repository was pushed on or after the cutoff.
pub open spec fn repo_recent(r: Repo, cutoff: Seq<char>) -> bool {
    match r.pushed_at {
        Some(p) => !text_lt(p@, cutoff),
        None => false,
    }
}

/// Languages aggregated over the recently pushed repositories, in order of
/// first appearance.
pub open spec fn agg_repos(repos: Seq<Repo>, cutoff: Seq<char>) -> Seq<Agg>
    decreases repos.len(),
{
    if repos.len() == 0 {
        Seq::empty()
    } else {
        let a = agg_repos(repos.drop_last(), cutoff);
        let r = repos.last();
        if repo_recent(r, cutoff) { agg_edges(a, repo_edges(r)) } else { a }
    }
}

/// The sum of the aggregated sizes.
pub open spec fn agg_total(acc: Seq<Agg>) -> nat
    decreases acc.len(),
{
    if acc.len() == 0 { 0 } else { agg_total(acc.drop_last()) + acc.last().1 }
}

/// What stops a reply from giving statistics, checked in this order.
pub open spec fn reply_error(r: Reply) -> Option<FetchError> {
    if !r.status_ok {
        Some(FetchError::HttpStatus)
    } else if r.has_errors {
        Some(FetchError::GraphQl)
    } else if r.user is None {
        Some(FetchError::NoUser)
    } else if r.user->0.calendar is None {
        Some(FetchError::NoCalendar)
    } else {
        None
    }
}

/// The day counts of the reply's calendar, oldest first.
pub open spec fn reply_days(u: UserReply) -> Seq<u64> {
    week_counts(u.calendar->0.weeks).flatten_alt()
}

/// The totals of a usable reply fit the counters they are kept in.
pub open spec fn reply_in_range(r: Reply, cutoff: Seq<char>) -> bool {
    let u = r.user->0;
    &&& stars_total(repos_of(u)) <= u64::MAX
    &&& agg_total(agg_repos(repos_of(u), cutoff)) <= u64::MAX
    &&& sum_of(last_days(reply_days(u))) <= u64::MAX
    &&& longest_run(reply_days(u)) <= u32::MAX
}

/// The statistics a usable reply gives.
pub open spec fn stats_match(st: Stats, u: UserReply, cutoff: Seq<char>) -> bool {
    let cal = u.calendar->0;
    let wc = week_counts(cal.weeks);
    let days = wc.flatten_alt();
    let langs = agg_repos(repos_of(u), cutoff);
    &&& st.commits_year == or_zero(cal.total)
    &&& st.followers == or_zero(u.followers)
    &&& st.weeks@.map_values(|w: Vec<u8>| w@) == level_grid(wc, max_of(days))
    &&& st.current_streak as nat == current_run(days)
    &&& st.longest_streak as nat == longest_run(days)
    &&& st.commits_week as nat == sum_of(last_days(days))
    &&& st.week_days@ == last_days(days)
    &&& st.stars as nat == stars_total(repos_of(u))
    &&& agg_total(langs) == 0 ==> st.langs@.len() == 0
    &&& agg_total(langs) > 0 ==> exists|idx: Seq<int>|
        #[trigger] top_pick(agg_sizes(langs), idx, 5) && idx.len() == st.langs@.len()
            && forall|k: int| 0 <= k < idx.len() ==>
                lang_shows(#[trigger] st.langs@[k], langs[idx[k]], agg_total(langs))
}


/// `find_name` is -1 or a position holding `name`.
proof fn lemma_find_name(acc: Seq<Agg>, name: Seq<char>)
    ensures
        -1 <= find_name(acc, name) < acc.len(),
        find_name(acc, name) >= 0 ==> acc[find_name(acc, name)].0 == name,
    decreases acc.len(),
{
    if acc.len() > 0 && acc.last().0 != name {
        lemma_find_name(acc.drop_last(), name);
    }
}

/// Changing one entry changes the total by the change of its size.
proof fn lemma_agg_update_total(acc: Seq<Agg>, i: int, v: Agg)
    requires
        0 <= i < acc.len(),
    ensures
        agg_total(acc.update(i, v)) + acc[i].1 == agg_total(acc) + v.1,
    decreases acc.len(),
{
    if i < acc.len() - 1 {
        lemma_agg_update_total(acc.drop_last(), i, v);
        assert(acc.update(i, v).drop_last() =~= acc.drop_last().update(i, v));
    } else {
        assert(acc.update(i, v).drop_last() =~= acc.drop_last());
    }
}

/// Adding bytes of a language adds them to the total.
proof fn lemma_agg_add_total(acc: Seq<Agg>, name: Seq<char>, size: nat, color: Seq<char>)
    ensures
        agg_total(agg_add(acc, name, size, color)) == agg_total(acc) + size,
{
    lemma_find_name(acc, name);
    let i = find_name(acc, name);
    if i >= 0 {
        lemma_agg_update_total(acc, i, (name, acc[i].1 + size, acc[i].2));
    } else {
        assert(acc.push((name, size, color)).drop_last() =~= acc);
    }
}

/// Aggregating more edges never lowers the total.
proof fn lemma_agg_edges_grow(acc: Seq<Agg>, edges: Seq<LangEdge>, k: int)
    requires
        0 <= k <= edges.len(),
    ensures
        agg_total(acc) <= agg_total(agg_edges(acc, edges.take(k))),
        agg_total(agg_edges(acc, edges.take(k))) <= agg_total(agg_edges(acc, edges)),
    decreases edges.len() - k, 1int,
{
    lemma_agg_edges_base(acc, edges.take(k));
    if k < edges.len() {
        lemma_agg_edges_grow(acc, edges, k + 1);
        assert(edges.take(k + 1).drop_last() =~= edges.take(k));
        let e = edges.take(k + 1).last();
        lemma_agg_add_total(agg_edges(acc, edges.take(k)), edge_name(e), or_zero(e.size) as nat, edge_color(e));
    } else {
        assert(edges.take(k) =~= edges);
    }
}

/// Aggregating edges never lowers the total.
proof fn lemma_agg_edges_base(acc: Seq<Agg>, edges: Seq<LangEdge>)
    ensures
        agg_total(acc) <= agg_total(agg_edges(acc, edges)),
    decreases edges.len(), 0int,
{
    if edges.len() > 0 {
        lemma_agg_edges_base(acc, edges.drop_last());
        let e = edges.last();
        lemma_agg_add_total(agg_edges(acc, edges.drop_last()), edge_name(e), or_zero(e.size) as nat, edge_color(e));
    }
}

/// Aggregating more repositories never lowers the total.
proof fn lemma_agg_repos_grow(repos: Seq<Repo>, cutoff: Seq<char>, k: int)
    requires
        0 <= k <= repos.len(),
    ensures
        agg_total(agg_repos(repos.take(k), cutoff)) <= agg_total(agg_repos(repos, cutoff)),
    decreases repos.len() - k,
{
    if k < repos.len() {
        lemma_agg_repos_grow(repos, cutoff, k + 1);
        assert(repos.take(k + 1).drop_last() =~= repos.take(k));
        let r = repos.take(k + 1).last();
        lemma_agg_edges_base(agg_repos(repos.take(k), cutoff), repo_edges(r));
    } else {
        assert(repos.take(k) =~= repos);
    }
}

/// The total of the aggregated entries, as plain values.
proof fn lemma_entries_total(entries: Seq<LangEntry>)
    ensures
        sizes_total(entries) == agg_total(entries_view(entries)),
    decreases entries.len(),
{
    if entries.len() > 0 {
        lemma_entries_total(entries.drop_last());
        assert(entries_view(entries.drop_last()) =~= entries_view(entries).drop_last());
    }
}

/// Each aggregated size is within the total.
proof fn lemma_agg_within(acc: Seq<Agg>)
    ensures
        forall|j: int| 0 <= j < acc.len() ==> acc[j].1 <= agg_total(acc),
    decreases acc.len(),
{
    if acc.len() > 0 {
        lemma_agg_within(acc.drop_last());
        assert forall|j: int| 0 <= j < acc.len() - 1 implies acc[j] == acc.drop_last()[j] by {}
    }
}

/// The position of `name` in `out`, searching from the end (-1 if absent).
fn find_entry(out: &Vec<LangEntry>, name: &str) -> (res: Option<usize>)
    ensures
        match res {
            Some(j) => j as int == find_name(entries_view(out@), name@),
            None => find_name(entries_view(out@), name@) == -1,
        },
{
    let ghost v = entries_view(out@);
    let mut j = out.len();
    assert(v.take(j as int) =~= v);
    while j > 0
        invariant
            j <= out@.len(),
            v == entries_view(out@),
            find_name(v, name@) == find_name(v.take(j as int), name@),
        decreases j,
    {
        assert(v.take(j as int).drop_last() =~= v.take(j - 1));
        assert(v.take(j as int).last() == v[j - 1]);
        if same_text(out[j - 1].0.as_str(), name) {
            return Some(j - 1);
        }
        j = j - 1;
    }
    None
}

/// Adds one edge's bytes to the aggregation.
fn add_edge(out: &mut Vec<LangEntry>, e: &LangEdge, bound: Ghost<nat>)
    requires
        edge_kept(*e) ==> agg_total(entries_view(old(out)@)) + or_zero(e.size) <= bound@,
        bound@ <= u64::MAX,
    ensures
        entries_view(final(out)@) == if edge_kept(*e) {
            agg_add(entries_view(old(out)@), edge_name(*e), or_zero(e.size) as nat, edge_color(*e))
        } else {
            entries_view(old(out)@)
        },
{
    let name: String = match &e.name {
        Some(n) => n.clone(),
        None => String::new(),
    };
    assert(name@ == edge_name(*e));
    if name.as_str().unicode_len() == 0 || is_excluded(name.as_str()) {
        return;
    }
    let size: u64 = match e.size {
        Some(v) => v,
        None => 0,
    };
    let color: String = match &e.color {
        Some(c) => c.clone(),
        None => owned("#E4572E"),
    };
    assert(color@ == edge_color(*e));
    let ghost before = entries_view(out@);
    let j = find_entry(out, name.as_str());
    proof { lemma_find_name(before, name@); lemma_agg_within(before); }
    if let Some(j) = j {
        let nm = out[j].0.clone();
        let col = out[j].1.1.clone();
        let sz = out[j].1.0;
        out.set(j, (nm, (sz + size, col)));
        assert(entries_view(out@) =~= agg_add(before, name@, size as nat, color@));
    } else {
        out.push((name, (size, color)));
        assert(entries_view(out@) =~= agg_add(before, name@, size as nat, color@));
    }
}

/// Languages aggregated over the repositories pushed on or after `cutoff`.
fn aggregate_langs(repos: &Vec<Repo>, cutoff: &str) -> (res: Vec<LangEntry>)
    requires
        agg_total(agg_repos(repos@, cutoff@)) <= u64::MAX,
    ensures
        entries_view(res@) == agg_repos(repos@, cutoff@),
{
    let ghost bound = agg_total(agg_repos(repos@, cutoff@));
    let mut out: Vec<LangEntry> = Vec::new();
    for i in 0..repos.len()
        invariant
            bound == agg_total(agg_repos(repos@, cutoff@)),
            bound <= u64::MAX,
            entries_view(out@) == agg_repos(repos@.take(i as int), cutoff@),
    {
        assert(repos@.take(i + 1).drop_last() =~= repos@.take(i as int));
        let r = &repos[i];
        let recent = match &r.pushed_at {
            Some(p) => text_ge(p.as_str(), cutoff),
            None => false,
        };
        assert(recent == repo_recent(*r, cutoff@));
        proof { lemma_agg_repos_grow(repos@, cutoff@, i + 1); }
        if recent {
            match &r.edges {
                Some(edges) => {
                    let ghost start = entries_view(out@);
                    assert(repo_edges(*r) == edges@);
                    for j in 0..edges.len()
                        invariant
                            bound <= u64::MAX,
                            agg_total(agg_edges(start, edges@)) <= bound,
                            entries_view(out@) == agg_edges(start, edges@.take(j as int)),
                    {
                        assert(edges@.take(j + 1).drop_last() =~= edges@.take(j as int));
                        proof {
                            lemma_agg_edges_grow(start, edges@, j + 1);
                            lemma_agg_add_total(agg_edges(start, edges@.take(j as int)),
                                edge_name(edges@[j as int]), or_zero(edges@[j as int].size) as nat,
                                edge_color(edges@[j as int]));
                        }
                        add_edge(&mut out, &edges[j], Ghost(bound));
                    }
                    assert(edges@.take(edges.len() as int) =~= edges@);
                }
                None => {
                    assert(repo_edges(*r) =~= Seq::<LangEdge>::empty());
                }
            }
        }
    }
    assert(repos@.take(repos.len() as int) =~= repos@);
    out
}


/// The day counts of the calendar, week by week, and all of them in order.
fn calendar_counts(weeks: &Option<Vec<Option<Vec<Option<u64>>>>>) -> (res: (Vec<Vec<u64>>, Vec<u64>))
    ensures
        res.0@.map_values(|w: Vec<u64>| w@) == week_counts(*weeks),
        res.1@ == week_counts(*weeks).flatten_alt(),
{
    let mut grid: Vec<Vec<u64>> = Vec::new();
    let mut days: Vec<u64> = Vec::new();
    match weeks {
        Some(ws) => {
            let ghost wc = week_counts(*weeks);
            for i in 0..ws.len()
                invariant
                    wc == week_counts(*weeks),
                    *weeks == Some(*ws),
                    wc.len() == ws@.len(),
                    grid@.map_values(|w: Vec<u64>| w@) == wc.take(i as int),
                    days@ == wc.take(i as int).flatten_alt(),
            {
                let mut week: Vec<u64> = Vec::new();
                let ghost wk = day_counts_of(ws@[i as int]);
                assert(wc[i as int] == wk);
                match &ws[i] {
                    Some(ds) => {
                        for j in 0..ds.len()
                            invariant
                                wk == ds@.map_values(|c: Option<u64>| or_zero(c)),
                                week@ == wk.take(j as int),
                        {
                            let c: u64 = match ds[j] {
                                Some(v) => v,
                                None => 0,
                            };
                            week.push(c);
                            assert(wk.take(j + 1) =~= wk.take(j as int).push(c));
                        }
                        assert(wk.take(ds.len() as int) =~= wk);
                    }
                    None => {
                        assert(wk =~= Seq::<u64>::empty());
                    }
                }
                let ghost prev_days = days@;
                let mut k: usize = 0;
                while k < week.len()
                    invariant
                        k <= week.len(),
                        days@ == prev_days + week@.take(k as int),
                    decreases week.len() - k,
                {
                    days.push(week[k]);
                    assert(prev_days + week@.take(k + 1) =~= (prev_days + week@.take(k as int)).push(week@[k as int]));
                    k = k + 1;
                }
                assert(week@.take(week.len() as int) =~= week@);
                let ghost prev_grid = grid@.map_values(|w: Vec<u64>| w@);
                grid.push(week);
                assert(grid@.map_values(|w: Vec<u64>| w@) =~= prev_grid.push(wk));
                assert(wc.take(i + 1) =~= wc.take(i as int).push(wk));
                assert(wc.take(i + 1).drop_last() =~= wc.take(i as int));
            }
            assert(wc.take(ws.len() as int) =~= wc);
        }
        None => {
            assert(week_counts(*weeks) =~= Seq::<Seq<u64>>::empty());
            assert(grid@.map_values(|w: Vec<u64>| w@) =~= Seq::<Seq<u64>>::empty());
        }
    }
    (grid, days)
}

/// The busiest day's count.
fn max_count(days: &Vec<u64>) -> (m: u64)
    ensures
        m == max_of(days@),
{
    let mut m: u64 = 0;
    for i in 0..days.len()
        invariant
            m == max_of(days@.take(i as int)),
    {
        assert(days@.take(i + 1).drop_last() =~= days@.take(i as int));
        if days[i] > m {
            m = days[i];
        }
    }
    assert(days@.take(days.len() as int) =~= days@);
    m
}

/// Heatmap levels of every day, week by week.
fn level_rows(grid: &Vec<Vec<u64>>, max: u64) -> (res: Vec<Vec<u8>>)
    ensures
        res@.map_values(|w: Vec<u8>| w@) == level_grid(grid@.map_values(|w: Vec<u64>| w@), max),
{
    let ghost g = grid@.map_values(|w: Vec<u64>| w@);
    let ghost lg = level_grid(g, max);
    let mut rows: Vec<Vec<u8>> = Vec::new();
    for i in 0..grid.len()
        invariant
            g == grid@.map_values(|w: Vec<u64>| w@),
            lg == level_grid(g, max),
            rows@.map_values(|w: Vec<u8>| w@) == lg.take(i as int),
    {
        let week = &grid[i];
        let ghost target = lg[i as int];
        assert(target == week@.map_values(|c: u64| level_of(c as nat, max as nat) as u8));
        let mut row: Vec<u8> = Vec::new();
        for j in 0..week.len()
            invariant
                target == week@.map_values(|c: u64| level_of(c as nat, max as nat) as u8),
                row@ == target.take(j as int),
        {
            let l = level(week[j], max);
            row.push(l);
            assert(target.take(j + 1) =~= target.take(j as int).push(l));
        }
        assert(target.take(week.len() as int) =~= target);
        let ghost prev = rows@.map_values(|w: Vec<u8>| w@);
        rows.push(row);
        assert(rows@.map_values(|w: Vec<u8>| w@) =~= prev.push(target));
        assert(lg.take(i + 1) =~= lg.take(i as int).push(target));
    }
    assert(lg.take(grid.len() as int) =~= lg);
    rows
}

/// A suffix sum is within the whole sum.
proof fn lemma_sum_prefix(s: Seq<u64>, k: int)
    requires
        0 <= k <= s.len(),
    ensures
        sum_of(s.take(k)) <= sum_of(s),
    decreases s.len() - k,
{
    if k < s.len() {
        lemma_sum_prefix(s, k + 1);
        assert(s.take(k + 1).drop_last() =~= s.take(k));
    } else {
        assert(s.take(k) =~= s);
    }
}

/// The commits of the last seven days and their counts, oldest first.
fn last_week(days: &Vec<u64>) -> (res: (u64, Vec<u64>))
    requires
        sum_of(last_days(days@)) <= u64::MAX,
    ensures
        res.0 as nat == sum_of(last_days(days@)),
        res.1@ == last_days(days@),
{
    let n = days.len();
    let start: usize = if n > 7 { n - 7 } else { 0 };
    let ghost tail = last_days(days@);
    assert(tail =~= days@.skip(start as int));
    let mut sum: u64 = 0;
    let mut week: Vec<u64> = Vec::new();
    let mut i = start;
    while i < n
        invariant
            start <= i <= n == days@.len(),
            tail == days@.skip(start as int),
            sum_of(tail) <= u64::MAX,
            week@ == tail.take(i - start),
            sum as nat == sum_of(tail.take(i - start)),
        decreases n - i,
    {
        proof { lemma_sum_prefix(tail, i - start + 1); }
        assert(tail.take(i - start + 1).drop_last() =~= tail.take(i - start));
        assert(tail.take(i - start + 1).last() == days@[i as int]);
        sum = sum + days[i];
        week.push(days[i]);
        assert(week@ =~= tail.take(i - start + 1));
        i = i + 1;
    }
    assert(tail.take(n - start) =~= tail);
    (sum, week)
}

/// All-time stars over all repositories.
fn sum_stars(repos: &Vec<Repo>) -> (total: u64)
    requires
        stars_total(repos@) <= u64::MAX,
    ensures
        total == stars_total(repos@),
{
    let mut total: u64 = 0;
    for i in 0..repos.len()
        invariant
            stars_total(repos@) <= u64::MAX,
            total == stars_total(repos@.take(i as int)),
    {
        proof { lemma_stars_prefix(repos@, i + 1); }
        assert(repos@.take(i + 1).drop_last() =~= repos@.take(i as int));
        let s: u64 = match repos[i].stars {
            Some(v) => v,
            None => 0,
        };
        total = total + s;
    }
    assert(repos@.take(repos.len() as int) =~= repos@);
    total
}

/// A prefix has no more stars than the whole.
proof fn lemma_stars_prefix(repos: Seq<Repo>, k: int)
    requires
        0 <= k <= repos.len(),
    ensures
        stars_total(repos.take(k)) <= stars_total(repos),
    decreases repos.len() - k,
{
    if k < repos.len() {
        lemma_stars_prefix(repos, k + 1);
        assert(repos.take(k + 1).drop_last() =~= repos.take(k));
    } else {
        assert(repos.take(k) =~= repos);
    }
}


/// Whether an edge names a language that counts.
fn edge_counts(e: &LangEdge) -> (res: bool)
    ensures
        res == edge_kept(*e),
{
    match &e.name {
        Some(n) => n.as_str().unicode_len() > 0 && !is_excluded(n.as_str()),
        None => false,
    }
}

/// Whether the aggregated language sizes fit in a `u64`.
fn agg_fits(repos: &Vec<Repo>, cutoff: &str) -> (res: bool)
    ensures
        res == (agg_total(agg_repos(repos@, cutoff@)) <= u64::MAX),
{
    let mut total: u64 = 0;
    for i in 0..repos.len()
        invariant
            total == agg_total(agg_repos(repos@.take(i as int), cutoff@)),
    {
        assert(repos@.take(i + 1).drop_last() =~= repos@.take(i as int));
        let r = &repos[i];
        let recent = match &r.pushed_at {
            Some(p) => text_ge(p.as_str(), cutoff),
            None => false,
        };
        if recent {
            match &r.edges {
                Some(edges) => {
                    let ghost start = agg_repos(repos@.take(i as int), cutoff@);
                    assert(repo_edges(*r) == edges@);
                    for j in 0..edges.len()
                        invariant
                            total == agg_total(agg_edges(start, edges@.take(j as int))),
                            start == agg_repos(repos@.take(i as int), cutoff@),
                            repo_edges(*r) == edges@,
                            repo_recent(*r, cutoff@),
                            0 <= i < repos@.len(),
                            *r == repos@[i as int],
                    {
                        assert(edges@.take(j + 1).drop_last() =~= edges@.take(j as int));
                        let e = &edges[j];
                        proof {
                            lemma_agg_add_total(agg_edges(start, edges@.take(j as int)),
                                edge_name(*e), or_zero(e.size) as nat, edge_color(*e));
                        }
                        if edge_counts(e) {
                            let size: u64 = match e.size {
                                Some(v) => v,
                                None => 0,
                            };
                            if size > u64::MAX - total {
                                proof {
                                    lemma_agg_edges_grow(start, edges@, j + 1);
                                    lemma_agg_repos_grow(repos@, cutoff@, i + 1);
                                    assert(repos@.take(i + 1).drop_last() =~= repos@.take(i as int));
                                    assert(repos@.take(i + 1).last() == *r);
                                    assert(agg_repos(repos@.take(i + 1), cutoff@) == agg_edges(start, edges@));
                                }
                                return false;
                            }
                            total = total + size;
                        }
                    }
                    assert(edges@.take(edges.len() as int) =~= edges@);
                }
                None => {
                    assert(repo_edges(*r) =~= Seq::<LangEdge>::empty());
                }
            }
        }
    }
    assert(repos@.take(repos.len() as int) =~= repos@);
    true
}

/// Whether the stars fit in a `u64`.
fn stars_fit(repos: &Vec<Repo>) -> (res: bool)
    ensures
        res == (stars_total(repos@) <= u64::MAX),
{
    let mut total: u64 = 0;
    for i in 0..repos.len()
        invariant
            total == stars_total(repos@.take(i as int)),
    {
        assert(repos@.take(i + 1).drop_last() =~= repos@.take(i as int));
        let s: u64 = match repos[i].stars {
            Some(v) => v,
            None => 0,
        };
        if s > u64::MAX - total {
            proof { lemma_stars_prefix(repos@, i + 1); }
            return false;
        }
        total = total + s;
    }
    assert(repos@.take(repos.len() as int) =~= repos@);
    true
}

/// The longest run of active days.
fn longest_run_len(days: &Vec<u64>) -> (res: usize)
    ensures
        res == longest_run(days@),
{
    let mut longest: usize = 0;
    let mut run: usize = 0;
    for i in 0..days.len()
        invariant
            run == trailing_run(days@.take(i as int)),
            longest == longest_run(days@.take(i as int)),
            run <= i,
    {
        assert(days@.take(i + 1).drop_last() =~= days@.take(i as int));
        if days[i] > 0 {
            run = run + 1;
            if run > longest {
                longest = run;
            }
        } else {
            run = 0;
        }
    }
    assert(days@.take(days.len() as int) =~= days@);
    longest
}

/// Whether the last seven days' commits fit in a `u64`.
fn last_week_fits(days: &Vec<u64>) -> (res: bool)
    ensures
        res == (sum_of(last_days(days@)) <= u64::MAX),
{
    let n = days.len();
    let start: usize = if n > 7 { n - 7 } else { 0 };
    let ghost tail = last_days(days@);
    assert(tail =~= days@.skip(start as int));
    let mut sum: u128 = 0;
    let mut i = start;
    while i < n
        invariant
            start <= i <= n == days@.len(),
            n - start <= 7,
            tail == days@.skip(start as int),
            sum == sum_of(tail.take(i - start)),
            sum <= (i - start) * 0xFFFF_FFFF_FFFF_FFFFu128,
        decreases n - i,
    {
        assert(tail.take(i - start + 1).drop_last() =~= tail.take(i - start));
        assert(tail.take(i - start + 1).last() == days@[i as int]);
        sum = sum + days[i] as u128;
        i = i + 1;
    }
    assert(tail.take(n - start) =~= tail);
    sum <= u64::MAX as u128
}

/// Whether the totals of the reply fit the counters they are kept in (a
/// reply that gives no statistics has none). The program checks this before
/// `stats_from_reply`; beyond it the counters would overflow.
pub fn reply_fits(reply: &Reply, cutoff: &str) -> (res: bool)
    ensures
        res == (reply_error(*reply) is None ==> reply_in_range(*reply, cutoff@)),
{
    if !reply.status_ok || reply.has_errors {
        return true;
    }
    let u = match &reply.user {
        Some(u) => u,
        None => { return true; }
    };
    let cal = match &u.calendar {
        Some(c) => c,
        None => { return true; }
    };
    let (_grid, days) = calendar_counts(&cal.weeks);
    let (s_ok, a_ok) = match &u.repos {
        Some(repos) => (stars_fit(repos), agg_fits(repos, cutoff)),
        None => {
            assert(stars_total(Seq::<Repo>::empty()) == 0);
            assert(agg_repos(Seq::<Repo>::empty(), cutoff@) =~= Seq::<Agg>::empty());
            (true, true)
        }
    };
    s_ok && a_ok && last_week_fits(&days) && longest_run_len(&days) <= u32::MAX as usize
}

/// The statistics of a GraphQL reply: the error that stops it (checked in
/// the order status, GraphQL errors, user, calendar), or the live figures —
/// heatmap levels, streaks, the last week, stars, and the top languages of
/// the repositories pushed on or after `cutoff`.
pub fn stats_from_reply(reply: &Reply, cutoff: &str) -> (res: Result<Stats, FetchError>)
    requires
        reply_error(*reply) is None ==> reply_in_range(*reply, cutoff@),
    ensures
        match res {
            Err(e) => reply_error(*reply) == Some(e),
            Ok(st) => reply_error(*reply) is None && stats_match(st, reply.user->0, cutoff@),
        },
{
    if !reply.status_ok {
        return Err(FetchError::HttpStatus);
    }
    if reply.has_errors {
        return Err(FetchError::GraphQl);
    }
    let u = match &reply.user {
        Some(u) => u,
        None => { return Err(FetchError::NoUser); }
    };
    let followers: u64 = match u.followers {
        Some(v) => v,
        None => 0,
    };
    let cal = match &u.calendar {
        Some(c) => c,
        None => { return Err(FetchError::NoCalendar); }
    };
    let commits_year: u64 = match cal.total {
        Some(v) => v,
        None => 0,
    };
    let (grid, days) = calendar_counts(&cal.weeks);
    let max = max_count(&days);
    let weeks = level_rows(&grid, max);
    let (current_streak, longest_streak) = streaks(days.as_slice());
    let (commits_week, week_days) = last_week(&days);
    let (stars, entries) = match &u.repos {
        Some(repos) => (sum_stars(repos), aggregate_langs(repos, cutoff)),
        None => {
            assert(stars_total(Seq::<Repo>::empty()) == 0);
            assert(agg_repos(Seq::<Repo>::empty(), cutoff@) =~= Seq::<Agg>::empty());
            assert(entries_view(Seq::<LangEntry>::empty()) =~= Seq::<Agg>::empty());
            (0, Vec::new())
        }
    };
    proof { lemma_entries_total(entries@); }
    let langs = top_langs(entries);
    let st = Stats {
        commits_year,
        commits_week,
        followers,
        stars,
        current_streak,
        longest_streak,
        weeks,
        week_days,
        langs,
    };
    Ok(st)
}


/// More contributions never give a lower level: the heatmap is monotone.
pub proof fn lemma_level_monotone(c1: nat, c2: nat, max: nat)
    requires
        c1 <= c2,
    ensures
        level_of(c1, max) <= level_of(c2, max),
        level_of(c2, max) <= 4,
        level_of(c2, max) == 0 <==> (c2 == 0 || max == 0),
{
}

/// The statistics of a reply agree with themselves: the week's commits are
/// the sum of the week's days, there are at most seven of them, and every
/// heatmap level is between 0 and 4.
pub proof fn lemma_stats_consistent(st: Stats, u: UserReply, cutoff: Seq<char>)
    requires
        stats_match(st, u, cutoff),
    ensures
        st.commits_week as nat == sum_of(st.week_days@),
        st.week_days@.len() <= 7,
        st.current_streak <= st.longest_streak,
        forall|w: int, d: int| 0 <= w < st.weeks@.len() && 0 <= d < st.weeks@[w]@.len()
            ==> #[trigger] st.weeks@[w]@[d] <= 4,
{
    let wc = week_counts(u.calendar->0.weeks);
    let days = wc.flatten_alt();
    lemma_current_within_longest(days);
    assert forall|w: int, d: int| 0 <= w < st.weeks@.len() && 0 <= d < st.weeks@[w]@.len()
        implies #[trigger] st.weeks@[w]@[d] <= 4 by {
        assert(st.weeks@.map_values(|v: Vec<u8>| v@).len() == st.weeks@.len());
        assert(level_grid(wc, max_of(days)).len() == wc.len());
        assert(st.weeks@.map_values(|v: Vec<u8>| v@)[w] == st.weeks@[w]@);
        assert(level_grid(wc, max_of(days))[w] == wc[w].map_values(|c: u64| level_of(c as nat, max_of(days) as nat) as u8));
        let c = wc[w][d];
        assert(level_of(c as nat, max_of(days) as nat) <= 4);
    }
}

} // verus!

verus! {

/// A non-empty personal token always wins, whatever `GITHUB_TOKEN` holds;
/// otherwise a non-empty `GITHUB_TOKEN` is used; an empty or missing value is
/// never chosen, so with neither there is no token.
pub proof fn lemma_token_choice(pat: Option<Seq<char>>, github: Option<Seq<char>>, other: Option<Seq<char>>)
    ensures
        pat is Some && pat->0.len() > 0 ==> chosen_token(pat, github) == pat
            && chosen_token(pat, github) == chosen_token(pat, other),
        !(pat is Some && pat->0.len() > 0) && github is Some && github->0.len() > 0
            ==> chosen_token(pat, github) == github,
        !(pat is Some && pat->0.len() > 0) && !(github is Some && github->0.len() > 0)
            ==> chosen_token(pat, github) is None,
        chosen_token(pat, github) is Some ==> chosen_token(pat, github)->0.len() > 0
            && (chosen_token(pat, github) == pat || chosen_token(pat, github) == github),
{
}

/// No aggregated language is unnamed or one of the markup and configuration
/// languages left off the profile: HTML, CSS, SCSS, Less, Blade, Makefile,
/// Dockerfile, Shell, Batchfile, PowerShell, Roff, Vim Script, Procfile and
/// Mustache.
pub proof fn lemma_agg_skips_excluded(repos: Seq<Repo>, cutoff: Seq<char>)
    ensures
        forall|k: int| 0 <= k < agg_repos(repos, cutoff).len() ==>
            #[trigger] wanted_name(agg_repos(repos, cutoff)[k].0),
    decreases repos.len(),
{
    if repos.len() > 0 {
        lemma_agg_skips_excluded(repos.drop_last(), cutoff);
        let r = repos.last();
        if repo_recent(r, cutoff) {
            lemma_edges_skip_excluded(agg_repos(repos.drop_last(), cutoff), repo_edges(r));
        }
    }
}

/// A language name that may appear on the profile: non-empty and none of
/// HTML, CSS, SCSS, Less, Blade, Makefile, Dockerfile, Shell, Batchfile,
/// PowerShell, Roff, Vim Script, Procfile and Mustache.
pub open spec fn wanted_name(name: Seq<char>) -> bool {
    &&& name.len() > 0
    &&& name != "HTML"@
    &&& name != "CSS"@
    &&& name != "SCSS"@
    &&& name != "Less"@
    &&& name != "Blade"@
    &&& name != "Makefile"@
    &&& name != "Dockerfile"@
    &&& name != "Shell"@
    &&& name != "Batchfile"@
    &&& name != "PowerShell"@
    &&& name != "Roff"@
    &&& name != "Vim Script"@
    &&& name != "Procfile"@
    &&& name != "Mustache"@
}

/// Exactly the names `wanted_name` lists are excluded: a non-empty name is left
/// off the profile if and only if it is one of them.
pub proof fn lemma_excluded_exactly(name: Seq<char>)
    ensures
        name.len() > 0 ==> (excluded(name) <==> !wanted_name(name)),
{
}

proof fn lemma_edges_skip_excluded(acc: Seq<Agg>, edges: Seq<LangEdge>)
    requires
        forall|k: int| 0 <= k < acc.len() ==> #[trigger] wanted_name(acc[k].0),
    ensures
        forall|k: int| 0 <= k < agg_edges(acc, edges).len() ==> #[trigger] wanted_name(agg_edges(acc, edges)[k].0),
    decreases edges.len(),
{
    if edges.len() > 0 {
        lemma_edges_skip_excluded(acc, edges.drop_last());
        let a = agg_edges(acc, edges.drop_last());
        let e = edges.last();
        if edge_kept(e) {
            let name = edge_name(e);
            assert(wanted_name(name));
            lemma_find_name(a, name);
            let next = agg_add(a, name, or_zero(e.size) as nat, edge_color(e));
            assert forall|k: int| 0 <= k < next.len() implies #[trigger] wanted_name(next[k].0) by {
                if k < a.len() && k != find_name(a, name) {
                    assert(next[k] == a[k]);
                }
            }
        }
    }
}

/// The languages of the statistics never include an unnamed or excluded
/// language (see `wanted_name`).
pub proof fn lemma_stats_langs_wanted(st: Stats, u: UserReply, cutoff: Seq<char>)
    requires
        stats_match(st, u, cutoff),
    ensures
        forall|k: int| 0 <= k < st.langs@.len() ==> #[trigger] wanted_name(st.langs@[k].name@),
{
    let langs = agg_repos(repos_of(u), cutoff);
    lemma_agg_skips_excluded(repos_of(u), cutoff);
    if agg_total(langs) > 0 {
        let idx = choose|idx: Seq<int>|
            #[trigger] top_pick(agg_sizes(langs), idx, 5) && idx.len() == st.langs@.len()
                && forall|k: int| 0 <= k < idx.len() ==>
                    lang_shows(#[trigger] st.langs@[k], langs[idx[k]], agg_total(langs));
        assert forall|k: int| 0 <= k < st.langs@.len() implies #[trigger] wanted_name(st.langs@[k].name@) by {
            assert(lang_shows(st.langs@[k], langs[idx[k]], agg_total(langs)));
            assert(0 <= idx[k] < agg_sizes(langs).len());
            assert(wanted_name(langs[idx[k]].0));
        }
    }
}

} // verus!
