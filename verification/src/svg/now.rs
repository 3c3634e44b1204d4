//! The "Now" card — updated from live GitHub activity, but never naming a
//! repository or project. A typing headline teases, a "sneak peek" hints at
//! the tech (not the product), and an animated sparkline shows the last days
//! of momentum. CSS-only animation.
use vstd::prelude::*;
use crate::model::Profile;
use crate::svg::icons::{place, placed_icon};
use crate::svg::util::{esc_seq, push_esc};
use crate::text::{dec, fixed, fixed_signed, push_dec, push_dec_wide, push_fixed_wide, push_fixed_signed, round_half_even};
use crate::theme::{base_style, base_style_text, Fonts, ACCENT, CARD_TOP, CYAN, DIM, LINE, TEXT, WHITE};

verus! {

/// Where the first of `n` bars starts, in tenths of a pixel: the bars (18 px
/// wide, 8 px apart) end 22 px before the card's right edge at 780.
pub open spec fn x0_tenths(n: nat) -> int {
    7660 - 260 * n
}

/// The largest count, at least 1.
pub open spec fn peak_of(days: Seq<u64>) -> nat
    decreases days.len(),
{
    if days.len() == 0 {
        1
    } else {
        let m = peak_of(days.drop_last());
        if days.last() as nat > m { days.last() as nat } else { m }
    }
}

/// Bar `i` of `n` for a day with `v` commits when the busiest had `max`:
/// 8 px plus up to 54 px in proportion, standing on the baseline at y = 150;
/// the busiest day in full accent, the others faded.
pub open spec fn bar_text(n: nat, i: nat, v: nat, max: nat) -> Seq<char> {
    "<rect x=\""@
        + fixed_signed(x0_tenths(n) + 260 * i, 1)
        + "\" y=\""@
        + fixed(round_half_even((1420 * max - 540 * v) as nat, max), 1)
        + "\" width=\"18\" height=\""@
        + fixed(round_half_even(80 * max + 540 * v, max), 1)
        + "\" rx=\"3\" fill=\""@
        + ACCENT@
        + "\" opacity=\""@
        + (if v >= max { "1"@ } else { "0.4"@ })
        + "\" class=\"bar\" style=\"animation-delay:"@
        + dec((300 + 80 * i) as nat)
        + "ms\"/>"@
}

/// The bars of the first `k` days.
pub open spec fn bars(days: Seq<u64>, k: nat, max: nat) -> Seq<char>
    decreases k,
{
    if k == 0 {
        Seq::empty()
    } else {
        bars(days, (k - 1) as nat, max) + bar_text(days.len(), (k - 1) as nat, days[k - 1] as nat, max)
    }
}

/// The sparkline: nothing without days, else its label and one bar per day.
pub open spec fn spark_text(days: Seq<u64>) -> Seq<char> {
    if days.len() == 0 {
        Seq::empty()
    } else {
        "<text x=\""@
        + fixed_signed(x0_tenths(days.len()), 1)
        + "\" y=\"78\" font-size=\"10.5\" letter-spacing=\"0.6\" fill=\""@
        + DIM@
        + "\">COMMITS · LAST 7 DAYS</text>"@ + bars(days, days.len(), peak_of(days))
    }
}

/// The sparkline of the recent days' commits.
pub fn sparkline(days: &[u64]) -> (res: String)
    ensures
        res@ == spark_text(days@),
{
    let n = days.len();
    if n == 0 {
        return String::new();
    }
    let mut max: u64 = 1;
    for k in 0..n
        invariant
            n == days@.len(),
            max as nat == peak_of(days@.take(k as int)),
            max >= 1,
            forall|j: int| 0 <= j < k ==> days@[j] <= max,
    {
        assert(days@.take(k + 1).drop_last() =~= days@.take(k as int));
        if days[k] > max {
            max = days[k];
        }
    }
    assert(days@.take(n as int) =~= days@);
    let x0: i128 = 7660 - 260 * (n as i128);
    let mut out = String::from_str("<text x=\"");
    push_fixed_signed(&mut out, x0, 1);
    out.append("\" y=\"78\" font-size=\"10.5\" letter-spacing=\"0.6\" fill=\"");
    out.append(DIM);
    out.append("\">COMMITS · LAST 7 DAYS</text>");
    for k in 0..n
        invariant
            n == days@.len(),
            max as nat == peak_of(days@),
            max >= 1,
            forall|j: int| 0 <= j < n ==> days@[j] <= max,
            x0 == x0_tenths(n as nat),
            out@ == "<text x=\""@         + fixed_signed(x0_tenths(days@.len()), 1)         + "\" y=\"78\" font-size=\"10.5\" letter-spacing=\"0.6\" fill=\""@         + DIM@         + "\">COMMITS · LAST 7 DAYS</text>"@ + bars(days@, k as nat, max as nat),
    {
        let i: u64 = k as u64;
        let v = days[k];
        let x10: i128 = x0 + 260 * (k as i128);
        let h10: u128 = crate::text::round_half_even_wide(80 * (max as u128) + 540 * (v as u128), max as u128);
        let y10: u128 = crate::text::round_half_even_wide(1420 * (max as u128) - 540 * (v as u128), max as u128);
        let op = if v >= max { "1" } else { "0.4" };
        let mut piece = String::from_str("<rect x=\"");
    push_fixed_signed(&mut piece, x10, 1);
    piece.append("\" y=\"");
    push_fixed_wide(&mut piece, y10, 1);
    piece.append("\" width=\"18\" height=\"");
    push_fixed_wide(&mut piece, h10, 1);
    piece.append("\" rx=\"3\" fill=\"");
    piece.append(ACCENT);
    piece.append("\" opacity=\"");
    piece.append(op);
    piece.append("\" class=\"bar\" style=\"animation-delay:");
    push_dec_wide(&mut piece, 300 + 80 * (k as u128));
    piece.append("ms\"/>");
        out.append(piece.as_str());
    }
    out
}

/// What the card says the profile is into: the top language (or "code"),
/// the second one if any, and a dash of AI.
pub open spec fn peek_text(p: Profile) -> Seq<char> {
    let l1 = if p.langs@.len() > 0 { p.langs@[0].name@ } else { "code"@ };
    if p.langs@.len() > 1 {
        l1 + " · "@ + p.langs@[1].name@ + " · a dash of AI"@
    } else {
        l1 + " · a dash of AI"@
    }
}

/// "{commits_week} commits this week · {current_streak}-day streak".
pub open spec fn stats_text(p: Profile) -> Seq<char> {
    dec(p.commits_week as nat)
        + " commits this week · "@
        + dec(p.current_streak as nat)
        + "-day streak"@
}

/// The "Now" card.
pub open spec fn now_svg(p: Profile, fonts: Fonts) -> Seq<char> {
    let style = base_style_text(fonts)
        + ".type{clip-path:inset(0 100% 0 0);animation:type 1.4s steps(32) .3s both;}.dot{animation:pulse 1.6s ease-in-out infinite;transform-box:fill-box;transform-origin:center;}.ring{animation:ring 1.6s ease-out infinite;transform-box:fill-box;transform-origin:center;}.bar{transform:scaleY(0);transform-box:fill-box;transform-origin:bottom;animation:grow .5s cubic-bezier(.2,.8,.2,1) both;}@keyframes type{to{clip-path:inset(0 0 0 0);}}@keyframes pulse{0%,100%{opacity:1;}50%{opacity:.4;}}@keyframes ring{0%{opacity:.6;transform:scale(.6);}100%{opacity:0;transform:scale(2.4);}}@keyframes grow{to{transform:scaleY(1);}}"@;
    "<svg xmlns=\"http://www.w3.org/2000/svg\" width=\"780\" height=\"182\" viewBox=\"0 0 780 182\" role=\"img\" aria-label=\"Now: "@
        + esc_seq("I'm heads-down on something new."@)
        + ". "@
        + esc_seq(stats_text(p))
        + ".\"><defs><style>"@
        + style
        + "</style></defs><rect x=\"1\" y=\"1\" width=\"778\" height=\"180\" rx=\"14\" fill=\""@
        + CARD_TOP@
        + "\" stroke=\""@
        + LINE@
        + "\"/>"@
        + placed_icon("broadcast"@, 200, 220, 22, ACCENT@)
        + "<text x=\"52\" y=\"38\" font-size=\"14\" font-weight=\"700\" fill=\""@
        + TEXT@
        + "\">NOW</text><text x=\"90\" y=\"38\" font-size=\"12\" fill=\""@
        + DIM@
        + "\">// what I'm building</text><circle cx=\"692\" cy=\"33\" r=\"12\" fill=\""@
        + ACCENT@
        + "\" opacity=\"0.25\" class=\"ring\"/><circle cx=\"692\" cy=\"33\" r=\"4\" fill=\""@
        + ACCENT@
        + "\" class=\"dot\"/><text x=\"758\" y=\"37\" font-size=\"11\" font-weight=\"700\" fill=\""@
        + ACCENT@
        + "\" text-anchor=\"end\">LIVE</text><text x=\"26\" y=\"82\" font-size=\"20\" font-weight=\"800\" fill=\""@
        + WHITE@
        + "\" class=\"type\">"@
        + esc_seq("I'm heads-down on something new."@)
        + "</text><text x=\"26\" y=\"112\" font-size=\"13.5\" fill=\""@
        + CYAN@
        + "\">▸ <tspan fill=\""@
        + DIM@
        + "\">these days:</tspan> <tspan fill=\""@
        + TEXT@
        + "\">"@
        + esc_seq(peek_text(p))
        + "</tspan></text><text x=\"26\" y=\"136\" font-size=\"13\" fill=\""@
        + DIM@
        + "\">Can't say what yet — but it's keeping me up at night (the good kind).</text><text x=\"26\" y=\"162\" font-size=\"12.5\" fill=\""@
        + ACCENT@
        + "\">◆ <tspan fill=\""@
        + TEXT@
        + "\" font-weight=\"700\">"@
        + esc_seq(stats_text(p))
        + "</tspan></text>"@
        + spark_text(p.week_days@)
        + "</svg>"@
}

/// Renders the "Now" card.
pub fn render(p: &Profile, fonts: &Fonts) -> (res: String)
    ensures
        res@ == now_svg(*p, *fonts),
{
    let l1: &str = if p.langs.len() > 0 { p.langs[0].name.as_str() } else { "code" };
    let mut peek = String::from_str(l1);
    if p.langs.len() > 1 {
        peek.append(" · ");
        peek.append(p.langs[1].name.as_str());
        peek.append(" · a dash of AI");
    } else {
        peek.append(" · a dash of AI");
    }
    let mut stats = crate::text::fmt_dec(p.commits_week);
    stats.append(" commits this week · ");
    push_dec(&mut stats, p.current_streak as u64);
    stats.append("-day streak");
    let mut style = base_style(fonts);
    style.append(".type{clip-path:inset(0 100% 0 0);animation:type 1.4s steps(32) .3s both;}.dot{animation:pulse 1.6s ease-in-out infinite;transform-box:fill-box;transform-origin:center;}.ring{animation:ring 1.6s ease-out infinite;transform-box:fill-box;transform-origin:center;}.bar{transform:scaleY(0);transform-box:fill-box;transform-origin:bottom;animation:grow .5s cubic-bezier(.2,.8,.2,1) both;}@keyframes type{to{clip-path:inset(0 0 0 0);}}@keyframes pulse{0%,100%{opacity:1;}50%{opacity:.4;}}@keyframes ring{0%{opacity:.6;transform:scale(.6);}100%{opacity:0;transform:scale(2.4);}}@keyframes grow{to{transform:scaleY(1);}}");
    let icon = place("broadcast", 200, 220, 22, ACCENT);
    let spark = sparkline(p.week_days.as_slice());
    let mut out = String::from_str("<svg xmlns=\"http://www.w3.org/2000/svg\" width=\"780\" height=\"182\" viewBox=\"0 0 780 182\" role=\"img\" aria-label=\"Now: ");
    push_esc(&mut out, "I'm heads-down on something new.");
    out.append(". ");
    push_esc(&mut out, stats.as_str());
    out.append(".\"><defs><style>");
    out.append(style.as_str());
    out.append("</style></defs><rect x=\"1\" y=\"1\" width=\"778\" height=\"180\" rx=\"14\" fill=\"");
    out.append(CARD_TOP);
    out.append("\" stroke=\"");
    out.append(LINE);
    out.append("\"/>");
    out.append(icon.as_str());
    out.append("<text x=\"52\" y=\"38\" font-size=\"14\" font-weight=\"700\" fill=\"");
    out.append(TEXT);
    out.append("\">NOW</text><text x=\"90\" y=\"38\" font-size=\"12\" fill=\"");
    out.append(DIM);
    out.append("\">// what I'm building</text><circle cx=\"692\" cy=\"33\" r=\"12\" fill=\"");
    out.append(ACCENT);
    out.append("\" opacity=\"0.25\" class=\"ring\"/><circle cx=\"692\" cy=\"33\" r=\"4\" fill=\"");
    out.append(ACCENT);
    out.append("\" class=\"dot\"/><text x=\"758\" y=\"37\" font-size=\"11\" font-weight=\"700\" fill=\"");
    out.append(ACCENT);
    out.append("\" text-anchor=\"end\">LIVE</text><text x=\"26\" y=\"82\" font-size=\"20\" font-weight=\"800\" fill=\"");
    out.append(WHITE);
    out.append("\" class=\"type\">");
    push_esc(&mut out, "I'm heads-down on something new.");
    out.append("</text><text x=\"26\" y=\"112\" font-size=\"13.5\" fill=\"");
    out.append(CYAN);
    out.append("\">▸ <tspan fill=\"");
    out.append(DIM);
    out.append("\">these days:</tspan> <tspan fill=\"");
    out.append(TEXT);
    out.append("\">");
    push_esc(&mut out, peek.as_str());
    out.append("</tspan></text><text x=\"26\" y=\"136\" font-size=\"13\" fill=\"");
    out.append(DIM);
    out.append("\">Can't say what yet — but it's keeping me up at night (the good kind).</text><text x=\"26\" y=\"162\" font-size=\"12.5\" fill=\"");
    out.append(ACCENT);
    out.append("\">◆ <tspan fill=\"");
    out.append(TEXT);
    out.append("\" font-weight=\"700\">");
    push_esc(&mut out, stats.as_str());
    out.append("</tspan></text>");
    out.append(spark.as_str());
    out.append("</svg>");
    out
}

} // verus!

verus! {

/// The peek line leads with the top language's name whenever the profile has
/// a language, follows it with the second one's name when there is one, and
/// says "code" only when there is no language at all; it always ends with
/// " · a dash of AI".
pub proof fn lemma_peek_leads(p: Profile)
    ensures
        p.langs@.len() > 0 ==> peek_text(p).len() >= p.langs@[0].name@.len()
            && peek_text(p).take(p.langs@[0].name@.len() as int) == p.langs@[0].name@,
        p.langs@.len() > 1 ==> peek_text(p)
            == p.langs@[0].name@ + " · "@ + p.langs@[1].name@ + " · a dash of AI"@,
        p.langs@.len() == 1 ==> peek_text(p) == p.langs@[0].name@ + " · a dash of AI"@,
        p.langs@.len() == 0 ==> peek_text(p) == "code · a dash of AI"@,
        peek_text(p).len() >= " · a dash of AI"@.len()
            && peek_text(p).skip(peek_text(p).len() - " · a dash of AI"@.len()) == " · a dash of AI"@,
{
    let tail = " · a dash of AI"@;
    let t = peek_text(p);
    if p.langs@.len() > 0 {
        let n0 = p.langs@[0].name@;
        if p.langs@.len() > 1 {
            let mid = " · "@ + p.langs@[1].name@;
            assert(t =~= n0 + mid + tail);
            assert(t.take(n0.len() as int) =~= n0);
            assert(t.skip(t.len() - tail.len()) =~= tail);
        } else {
            assert(t.take(n0.len() as int) =~= n0);
            assert(t.skip(t.len() - tail.len()) =~= tail);
        }
    } else {
        lemma_peek_without_langs(p);
        assert(t.skip(t.len() - tail.len()) =~= tail);
    }
}

proof fn lemma_peek_without_langs(p: Profile)
    requires
        p.langs@.len() == 0,
    ensures
        peek_text(p) == "code · a dash of AI"@,
{
    reveal_strlit("code · a dash of AI");
    reveal_strlit("code");
    reveal_strlit(" · a dash of AI");
    assert("code"@ + " · a dash of AI"@ =~= "code · a dash of AI"@);
}

} // verus!
