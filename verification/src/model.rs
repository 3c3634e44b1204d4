//! The data the profile is compiled from. Kept deliberately small so that a
//! fixture file and a live GitHub fetch are interchangeable.
use vstd::prelude::*;

verus! {

/// One programming language slice for the "top languages" bars.
pub struct Lang {
    pub name: String,
    /// 0–100, already normalised across the languages we keep.
    pub pct: u8,
    /// Hex colour (`#RRGGBB`) used for the bar.
    pub color: String,
}

/// Everything the SVGs render. `weeks` is a 53×7 grid of contribution
/// *levels* (0–4), oldest week first, matching GitHub's calendar layout.
pub struct Profile {
    pub name: String,
    pub handle: String,
    pub role: String,
    pub company: String,
    pub location: String,
    /// Years shipping. Rendered in the hero.
    pub years: u32,
    pub commits_year: u64,
    /// Commits of the last seven days (shown on the "Now" card).
    pub commits_week: u64,
    pub current_streak: u32,
    pub longest_streak: u32,
    pub followers: u64,
    pub stars: u64,
    /// Contribution levels, 0–4, `weeks[w][day]`.
    pub weeks: Vec<Vec<u8>>,
    /// Contribution counts of the last seven days, oldest first.
    pub week_days: Vec<u64>,
    pub langs: Vec<Lang>,
}

/// A company on the companies rail.
pub struct Company {
    pub name: String,
    /// What was done there; wrapped onto the card.
    pub role: String,
    /// `now`, `consulting`, or anything else for a previous position.
    pub when: String,
}

/// A side project on the projects grid.
pub struct Project {
    pub name: String,
    /// The icon drawn when the project has no logo.
    pub icon: String,
    pub desc: String,
    /// The link label shown at the top right of the card.
    pub label: String,
    pub stack: Vec<String>,
}

/// The contribution levels of a grid, row by row.
pub open spec fn grid_view(weeks: Seq<Vec<u8>>) -> Seq<Seq<u8>> {
    weeks.map_values(|w: Vec<u8>| w@)
}

/// The number of cells of the grid that are not empty.
pub open spec fn active_in(weeks: Seq<Seq<u8>>) -> nat
    decreases weeks.len(),
{
    if weeks.len() == 0 {
        0
    } else {
        active_in(weeks.drop_last()) + weeks.last().filter(|l: u8| l > 0).len()
    }
}

/// The number of cells of the grid.
pub open spec fn cells_in(weeks: Seq<Seq<u8>>) -> nat
    decreases weeks.len(),
{
    if weeks.len() == 0 {
        0
    } else {
        cells_in(weeks.drop_last()) + weeks.last().len()
    }
}

impl Profile {
    /// Total contribution cells that are non-empty — a cheap sanity signal
    /// used to decide whether a live fetch produced anything usable.
    pub fn active_cells(&self) -> (res: usize)
        requires
            cells_in(grid_view(self.weeks@)) <= usize::MAX,
        ensures
            res == active_in(grid_view(self.weeks@)),
            res <= cells_in(grid_view(self.weeks@)),
    {
        let ghost g = grid_view(self.weeks@);
        let mut count: usize = 0;
        for w in 0..self.weeks.len()
            invariant
                g == grid_view(self.weeks@),
                cells_in(g) <= usize::MAX,
                count == active_in(g.take(w as int)),
                count <= cells_in(g.take(w as int)),
        {
            let week = &self.weeks[w];
            assert(g.take(w + 1).drop_last() =~= g.take(w as int));
            assert(g.take(w + 1).last() == week@);
            proof { lemma_cells_prefix(g, w + 1); }
            let ghost before = count;
            for d in 0..week.len()
                invariant
                    before == active_in(g.take(w as int)),
                    before <= cells_in(g.take(w as int)),
                    cells_in(g.take(w as int)) + week@.len() <= usize::MAX,
                    count == before + week@.take(d as int).filter(|l: u8| l > 0).len(),
                    week@.take(d as int).filter(|l: u8| l > 0).len() <= d,
            {
                reveal_with_fuel(Seq::<_>::filter, 1);
                assert(week@.take(d + 1).drop_last() =~= week@.take(d as int));
                if week[d] > 0 {
                    count = count + 1;
                }
            }
            assert(week@.take(week.len() as int) =~= week@);
        }
        assert(g.take(self.weeks.len() as int) =~= g);
        count
    }
}

/// A prefix of a grid has no more cells than the grid.
proof fn lemma_cells_prefix(g: Seq<Seq<u8>>, k: int)
    requires
        0 <= k <= g.len(),
    ensures
        cells_in(g.take(k)) <= cells_in(g),
        k > 0 ==> cells_in(g.take(k)) == cells_in(g.take(k - 1)) + g[k - 1].len(),
    decreases g.len() - k,
{
    if k > 0 {
        assert(g.take(k).drop_last() =~= g.take(k - 1));
    }
    if k < g.len() {
        lemma_cells_prefix(g, k + 1);
        assert(g.take(k + 1).drop_last() =~= g.take(k));
    } else {
        assert(g.take(k) =~= g);
    }
}

} // verus!

verus! {

/// Static identity — the parts GitHub can't tell us; every live figure starts
/// at zero and empty.
pub fn base_profile() -> (p: Profile)
    ensures
        p.name@ == "Pichet Itngam"@,
        p.handle@ == "notsu"@,
        p.role@ == "Head of Engineering"@,
        p.company@ == "Fastwork"@,
        p.location@ == "Bangkok, Thailand"@,
        p.years == 16,
        p.commits_year == 0,
        p.commits_week == 0,
        p.current_streak == 0,
        p.longest_streak == 0,
        p.followers == 0,
        p.stars == 0,
        p.weeks@.len() == 0,
        p.week_days@.len() == 0,
        p.langs@.len() == 0,
{
    Profile {
        name: String::from_str("Pichet Itngam"),
        handle: String::from_str("notsu"),
        role: String::from_str("Head of Engineering"),
        company: String::from_str("Fastwork"),
        location: String::from_str("Bangkok, Thailand"),
        years: 16,
        commits_year: 0,
        commits_week: 0,
        current_streak: 0,
        longest_streak: 0,
        followers: 0,
        stars: 0,
        weeks: Vec::new(),
        week_days: Vec::new(),
        langs: Vec::new(),
    }
}

} // verus!

verus! {

/// Whether any cell of the grid is above level 0.
pub fn any_active(weeks: &Vec<Vec<u8>>) -> (res: bool)
    ensures
        res == (active_in(grid_view(weeks@)) > 0),
{
    let ghost g = grid_view(weeks@);
    for w in 0..weeks.len()
        invariant
            g == grid_view(weeks@),
            active_in(g.take(w as int)) == 0,
    {
        let week = &weeks[w];
        assert(g.take(w + 1).drop_last() =~= g.take(w as int));
        assert(g.take(w + 1).last() == week@);
        let mut found = false;
        for d in 0..week.len()
            invariant
                found == (week@.take(d as int).filter(|l: u8| l > 0).len() > 0),
        {
            reveal_with_fuel(Seq::<_>::filter, 1);
            assert(week@.take(d + 1).drop_last() =~= week@.take(d as int));
            if week[d] > 0 {
                found = true;
            }
        }
        assert(week@.take(week.len() as int) =~= week@);
        if found {
            assert(active_in(g.take(w + 1)) > 0);
            proof { lemma_active_prefix(g, w + 1); }
            return true;
        }
    }
    assert(g.take(weeks.len() as int) =~= g);
    false
}

/// A prefix of a grid has no more active cells than the grid.
proof fn lemma_active_prefix(g: Seq<Seq<u8>>, k: int)
    requires
        0 <= k <= g.len(),
    ensures
        active_in(g.take(k)) <= active_in(g),
    decreases g.len() - k,
{
    if k < g.len() {
        lemma_active_prefix(g, k + 1);
        assert(g.take(k + 1).drop_last() =~= g.take(k));
    } else {
        assert(g.take(k) =~= g);
    }
}

/// The profile a live fetch gives: the static identity with the live figures
/// (commits, followers, stars, streaks, heatmap and languages), provided the
/// calendar holds at least one active cell; `None` — fall back to the
/// fixture — when it is empty or holds no activity at all.
pub fn profile_from_stats(stats: crate::github::Stats) -> (res: Option<Profile>)
    ensures
        res is None <==> active_in(grid_view(stats.weeks@)) == 0,
        res matches Some(p) ==> {
            &&& p.name@ == "Pichet Itngam"@
            &&& p.handle@ == "notsu"@
            &&& p.role@ == "Head of Engineering"@
            &&& p.company@ == "Fastwork"@
            &&& p.location@ == "Bangkok, Thailand"@
            &&& p.years == 16
            &&& p.commits_year == stats.commits_year
            &&& p.commits_week == 0
            &&& p.followers == stats.followers
            &&& p.stars == stats.stars
            &&& p.current_streak == stats.current_streak
            &&& p.longest_streak == stats.longest_streak
            &&& p.weeks == stats.weeks
            &&& p.week_days@.len() == 0
            &&& p.langs == stats.langs
        },
{
    if !any_active(&stats.weeks) {
        return None;
    }
    let mut p = base_profile();
    p.commits_year = stats.commits_year;
    p.followers = stats.followers;
    p.stars = stats.stars;
    p.current_streak = stats.current_streak;
    p.longest_streak = stats.longest_streak;
    p.weeks = stats.weeks;
    p.langs = stats.langs;
    Some(p)
}

} // verus!
