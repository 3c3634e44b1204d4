//! The "live pulse" card: a self-rendered contribution heatmap (animated
//! fill sweep) and the top-languages bars (animated grow). CSS-only animation.
use vstd::prelude::*;
use crate::model::{grid_view, Lang, Profile};
use crate::svg::util::{esc_seq, push_esc};
use crate::text::{dec, fixed, push_char, push_dec, push_dec_wide, push_fixed, push_fixed_wide, round_half_even, round_half_even_exec};
use crate::theme::{base_style, base_style_text, heat, heat_color, Fonts, ACCENT, CARD_TOP, DIM, LINE, TEXT};

verus! {

/// One heatmap cell: column `col` (the week), row `row` (the day). Cells are
/// 6.4 px with a 1.64 px gap from (21, 64); positions print to one decimal.
pub open spec fn cell_text(col: nat, row: nat, level: u8) -> Seq<char> {
    "<rect x=\""@
        + fixed(((2100 + 804 * col + 5) / 10) as nat, 1)
        + "\" y=\""@
        + fixed(((6400 + 804 * row + 5) / 10) as nat, 1)
        + "\" width=\"6.4\" height=\"6.4\" rx=\"1.4\" fill=\""@
        + heat_color(level as nat)
        + "\" class=\"cell\" style=\"animation-delay:"@
        + dec((14 * col + 4 * row) as nat)
        + "ms\"/>"@
}

/// The cells of week `col`, top to bottom.
pub open spec fn week_cells(col: nat, levels: Seq<u8>) -> Seq<char>
    decreases levels.len(),
{
    if levels.len() == 0 {
        Seq::empty()
    } else {
        week_cells(col, levels.drop_last()) + cell_text(col, (levels.len() - 1) as nat, levels.last())
    }
}

/// The cells of all weeks, left to right.
pub open spec fn heat_cells(weeks: Seq<Seq<u8>>) -> Seq<char>
    decreases weeks.len(),
{
    if weeks.len() == 0 {
        Seq::empty()
    } else {
        heat_cells(weeks.drop_last()) + week_cells((weeks.len() - 1) as nat, weeks.last())
    }
}

/// The less → more legend below the grid.
pub open spec fn legend_text() -> Seq<char> {
    "<text x=\"21\" y=\"160\" font-size=\"10.5\" fill=\""@
        + DIM@
        + "\">less</text><rect x=\"55.0\" y=\"152.0\" width=\"9\" height=\"9\" rx=\"2\" fill=\""@
        + heat_color(0)
        + "\"/><rect x=\"67.0\" y=\"152.0\" width=\"9\" height=\"9\" rx=\"2\" fill=\""@
        + heat_color(1)
        + "\"/><rect x=\"79.0\" y=\"152.0\" width=\"9\" height=\"9\" rx=\"2\" fill=\""@
        + heat_color(2)
        + "\"/><rect x=\"91.0\" y=\"152.0\" width=\"9\" height=\"9\" rx=\"2\" fill=\""@
        + heat_color(3)
        + "\"/><rect x=\"103.0\" y=\"152.0\" width=\"9\" height=\"9\" rx=\"2\" fill=\""@
        + heat_color(4)
        + "\"/><text x=\"121\" y=\"160\" font-size=\"10.5\" fill=\""@
        + DIM@
        + "\">more</text>"@
}

/// The heatmap: every cell, then the legend.
pub open spec fn heatmap_text(p: Profile) -> Seq<char> {
    heat_cells(grid_view(p.weeks@)) + legend_text()
}

/// The highest percentage among the languages (1 when there is none or all are 0):
/// the leader fills the track and the rest stay proportional.
pub open spec fn top_pct(langs: Seq<Lang>) -> nat
    decreases langs.len(),
{
    if langs.len() == 0 {
        1
    } else {
        let m = top_pct(langs.drop_last());
        if langs.last().pct as nat > m { langs.last().pct as nat } else { m }
    }
}

/// One language row: name, track, bar scaled to the leader, percentage.
pub open spec fn lang_row(i: nat, lang: Lang, max_pct: nat) -> Seq<char> {
    "<text x=\"502\" y=\""@
        + fixed((620 + 230 * i) as nat, 1)
        + "\" font-size=\"12.5\" fill=\""@
        + TEXT@
        + "\">"@
        + esc_seq(lang.name@)
        + "</text><rect x=\"586.0\" y=\""@
        + fixed((535 + 230 * i) as nat, 1)
        + "\" width=\"120\" height=\"7\" rx=\"3.5\" fill=\"#0C1017\"/><rect x=\"586.0\" y=\""@
        + fixed((535 + 230 * i) as nat, 1)
        + "\" width=\""@
        + fixed(round_half_even(1200 * lang.pct as nat, max_pct as nat), 1)
        + "\" height=\"7\" rx=\"3.5\" fill=\""@
        + esc_seq(lang.color@)
        + "\" class=\"bar\" style=\"animation-delay:"@
        + fixed((25 + 12 * i) as nat, 2)
        + "s\"/><text x=\"718.0\" y=\""@
        + fixed((620 + 230 * i) as nat, 1)
        + "\" font-size=\"12\" fill=\""@
        + DIM@
        + "\">"@
        + dec(lang.pct as nat)
        + "%</text>"@
}

/// The rows of the first `k` languages.
pub open spec fn lang_rows(langs: Seq<Lang>, k: nat, max_pct: nat) -> Seq<char>
    decreases k,
{
    if k == 0 {
        Seq::empty()
    } else {
        lang_rows(langs, (k - 1) as nat, max_pct) + lang_row((k - 1) as nat, langs[k - 1], max_pct)
    }
}

/// The language rows: at most five.
pub open spec fn langs_text(p: Profile) -> Seq<char> {
    let n = if p.langs@.len() < 5 { p.langs@.len() } else { 5 };
    lang_rows(p.langs@, n, top_pct(p.langs@))
}

/// An integer in decimal, with a leading `-` when negative.
pub open spec fn dec_signed(v: int) -> Seq<char> {
    if v < 0 { seq!['-'] + dec((-v) as nat) } else { dec(v as nat) }
}

/// A card frame with its title, its right-aligned meta label, and its body.
pub open spec fn card_text(x: nat, w: nat, title: Seq<char>, meta: Seq<char>, body: Seq<char>) -> Seq<char> {
    "<rect x=\""@
        + dec(x)
        + "\" y=\"1\" width=\""@
        + dec(w)
        + "\" height=\"188\" rx=\"14\" fill=\""@
        + CARD_TOP@
        + "\" stroke=\""@
        + LINE@
        + "\"/><text x=\""@
        + dec(x + 20)
        + "\" y=\"32\" font-size=\"11.5\" letter-spacing=\"0.8\" fill=\""@
        + DIM@
        + "\" font-weight=\"700\">"@
        + esc_seq(title)
        + "</text><text x=\""@
        + dec_signed(x + w - 20)
        + "\" y=\"32\" font-size=\"11.5\" letter-spacing=\"0.8\" fill=\""@
        + ACCENT@
        + "\" font-weight=\"700\" text-anchor=\"end\">"@
        + esc_seq(meta)
        + "</text>"@
        + body
}

/// The pulse card.
pub open spec fn pulse_svg(p: Profile, fonts: Fonts) -> Seq<char> {
    let style = base_style_text(fonts)
        + ".cell{opacity:0;transform:scale(.4);transform-box:fill-box;transform-origin:center;animation:cell .4s ease forwards;}.bar{transform:scaleX(0);transform-box:fill-box;transform-origin:left center;animation:grow 1s cubic-bezier(.2,.8,.2,1) forwards;}@keyframes cell{to{opacity:1;transform:scale(1);}}@keyframes grow{to{transform:scaleX(1);}}"@;
    "<svg xmlns=\"http://www.w3.org/2000/svg\" width=\"780\" height=\"190\" viewBox=\"0 0 780 190\" role=\"img\" aria-label=\"Contribution heatmap and top languages for notsu.\"><defs><style>"@
        + style
        + "</style></defs>"@
        + card_text(1, 468, "CONTRIBUTION"@, "52 WEEKS"@, heatmap_text(p))
        + card_text(482, 297, "TOP LANGUAGES"@, "BY BYTES"@, langs_text(p))
        + "</svg>"@
}

/// Appends the cells of all weeks.
fn push_heat_cells(out: &mut String, weeks: &Vec<Vec<u8>>)
    ensures
        final(out)@ == old(out)@ + heat_cells(grid_view(weeks@)),
{
    let ghost g = grid_view(weeks@);
    let ghost start = out@;
    for col in 0..weeks.len()
        invariant
            g == grid_view(weeks@),
            out@ == start + heat_cells(g.take(col as int)),
    {
        let week = &weeks[col];
        let ghost before = out@;
        for row in 0..week.len()
            invariant
                out@ == before + week_cells(col as nat, week@.take(row as int)),
        {
            let level = week[row];
            let ghost mid = out@;
            let mut piece = String::from_str("<rect x=\"");
    push_fixed_wide(&mut piece, (2100 + 804 * (col as u128) + 5) / 10, 1);
    piece.append("\" y=\"");
    push_fixed_wide(&mut piece, (6400 + 804 * (row as u128) + 5) / 10, 1);
    piece.append("\" width=\"6.4\" height=\"6.4\" rx=\"1.4\" fill=\"");
    piece.append(heat(level));
    piece.append("\" class=\"cell\" style=\"animation-delay:");
    push_dec_wide(&mut piece, 14 * (col as u128) + 4 * (row as u128));
    piece.append("ms\"/>");
            out.append(piece.as_str());
            assert(week@.take(row + 1).drop_last() =~= week@.take(row as int));
            assert(out@ =~= before + week_cells(col as nat, week@.take(row + 1)));
        }
        assert(week@.take(week.len() as int) =~= week@);
        assert(g.take(col + 1).drop_last() =~= g.take(col as int));
        assert(g.take(col + 1).last() == week@);
        assert(out@ =~= start + heat_cells(g.take(col + 1)));
    }
    assert(g.take(weeks.len() as int) =~= g);
}

/// The heatmap cells and the legend.
fn heatmap(p: &Profile) -> (res: String)
    ensures
        res@ == heatmap_text(*p),
{
    let mut out = String::new();
    push_heat_cells(&mut out, &p.weeks);
    let mut legend = String::from_str("<text x=\"21\" y=\"160\" font-size=\"10.5\" fill=\"");
    legend.append(DIM);
    legend.append("\">less</text><rect x=\"55.0\" y=\"152.0\" width=\"9\" height=\"9\" rx=\"2\" fill=\"");
    legend.append(heat(0));
    legend.append("\"/><rect x=\"67.0\" y=\"152.0\" width=\"9\" height=\"9\" rx=\"2\" fill=\"");
    legend.append(heat(1));
    legend.append("\"/><rect x=\"79.0\" y=\"152.0\" width=\"9\" height=\"9\" rx=\"2\" fill=\"");
    legend.append(heat(2));
    legend.append("\"/><rect x=\"91.0\" y=\"152.0\" width=\"9\" height=\"9\" rx=\"2\" fill=\"");
    legend.append(heat(3));
    legend.append("\"/><rect x=\"103.0\" y=\"152.0\" width=\"9\" height=\"9\" rx=\"2\" fill=\"");
    legend.append(heat(4));
    legend.append("\"/><text x=\"121\" y=\"160\" font-size=\"10.5\" fill=\"");
    legend.append(DIM);
    legend.append("\">more</text>");
    out.append(legend.as_str());
    assert(out@ =~= heatmap_text(*p));
    out
}

/// The leading language's percentage, at least 1.
fn top_pct_exec(langs: &Vec<Lang>) -> (m: u8)
    ensures
        m as nat == top_pct(langs@),
        m >= 1,
{
    let mut m: u8 = 1;
    for i in 0..langs.len()
        invariant
            m as nat == top_pct(langs@.take(i as int)),
            m >= 1,
    {
        assert(langs@.take(i + 1).drop_last() =~= langs@.take(i as int));
        if langs[i].pct > m {
            m = langs[i].pct;
        }
    }
    assert(langs@.take(langs.len() as int) =~= langs@);
    m
}

/// The language rows, at most five.
fn langs(p: &Profile) -> (res: String)
    ensures
        res@ == langs_text(*p),
{
    let max_pct = top_pct_exec(&p.langs);
    let n: usize = if p.langs.len() < 5 { p.langs.len() } else { 5 };
    let mut out = String::new();
    for k in 0..n
        invariant
            n <= 5,
            n <= p.langs@.len(),
            n == (if p.langs@.len() < 5 { p.langs@.len() } else { 5 }),
            max_pct as nat == top_pct(p.langs@),
            max_pct >= 1,
            out@ == lang_rows(p.langs@, k as nat, max_pct as nat),
    {
        let lang = &p.langs[k];
        let i: u64 = k as u64;
        let fill_w = round_half_even_exec(1200 * lang.pct as u64, max_pct as u64);
        let mut piece = String::from_str("<text x=\"502\" y=\"");
    push_fixed(&mut piece, 620 + 230 * i, 1);
    piece.append("\" font-size=\"12.5\" fill=\"");
    piece.append(TEXT);
    piece.append("\">");
    push_esc(&mut piece, lang.name.as_str());
    piece.append("</text><rect x=\"586.0\" y=\"");
    push_fixed(&mut piece, 535 + 230 * i, 1);
    piece.append("\" width=\"120\" height=\"7\" rx=\"3.5\" fill=\"#0C1017\"/><rect x=\"586.0\" y=\"");
    push_fixed(&mut piece, 535 + 230 * i, 1);
    piece.append("\" width=\"");
    push_fixed(&mut piece, fill_w, 1);
    piece.append("\" height=\"7\" rx=\"3.5\" fill=\"");
    push_esc(&mut piece, lang.color.as_str());
    piece.append("\" class=\"bar\" style=\"animation-delay:");
    push_fixed(&mut piece, 25 + 12 * i, 2);
    piece.append("s\"/><text x=\"718.0\" y=\"");
    push_fixed(&mut piece, 620 + 230 * i, 1);
    piece.append("\" font-size=\"12\" fill=\"");
    piece.append(DIM);
    piece.append("\">");
    push_dec(&mut piece, lang.pct as u64);
    piece.append("%</text>");
        out.append(piece.as_str());
    }
    out
}

/// A card frame with its title, meta label and body.
pub fn card(x: u64, w: u64, title: &str, meta: &str, body: &str) -> (res: String)
    ensures
        res@ == card_text(x as nat, w as nat, title@, meta@, body@),
{
    let mut out = String::from_str("<rect x=\"");
    push_dec(&mut out, x);
    out.append("\" y=\"1\" width=\"");
    push_dec(&mut out, w);
    out.append("\" height=\"188\" rx=\"14\" fill=\"");
    out.append(CARD_TOP);
    out.append("\" stroke=\"");
    out.append(LINE);
    out.append("\"/><text x=\"");
    push_dec_wide(&mut out, x as u128 + 20);
    out.append("\" y=\"32\" font-size=\"11.5\" letter-spacing=\"0.8\" fill=\"");
    out.append(DIM);
    out.append("\" font-weight=\"700\">");
    push_esc(&mut out, title);
    out.append("</text><text x=\"");
    let right: i128 = x as i128 + w as i128 - 20;
    let ghost before = out@;
    if right < 0 {
        push_char(&mut out, '-');
        push_dec_wide(&mut out, (-right) as u128);
        assert(out@ =~= before + dec_signed(right as int));
    } else {
        push_dec_wide(&mut out, right as u128);
    }
    out.append("\" y=\"32\" font-size=\"11.5\" letter-spacing=\"0.8\" fill=\"");
    out.append(ACCENT);
    out.append("\" font-weight=\"700\" text-anchor=\"end\">");
    push_esc(&mut out, meta);
    out.append("</text>");
    out.append(body);
    out
}

/// Renders the pulse card.
pub fn render(p: &Profile, fonts: &Fonts) -> (res: String)
    ensures
        res@ == pulse_svg(*p, *fonts),
{
    let mut style = base_style(fonts);
    style.append(".cell{opacity:0;transform:scale(.4);transform-box:fill-box;transform-origin:center;animation:cell .4s ease forwards;}.bar{transform:scaleX(0);transform-box:fill-box;transform-origin:left center;animation:grow 1s cubic-bezier(.2,.8,.2,1) forwards;}@keyframes cell{to{opacity:1;transform:scale(1);}}@keyframes grow{to{transform:scaleX(1);}}");
    let heat_body = heatmap(p);
    let heat_card = card(1, 468, "CONTRIBUTION", "52 WEEKS", heat_body.as_str());
    let lang_body = langs(p);
    let lang_card = card(482, 297, "TOP LANGUAGES", "BY BYTES", lang_body.as_str());
    let mut out = String::from_str("<svg xmlns=\"http://www.w3.org/2000/svg\" width=\"780\" height=\"190\" viewBox=\"0 0 780 190\" role=\"img\" aria-label=\"Contribution heatmap and top languages for notsu.\"><defs><style>");
    out.append(style.as_str());
    out.append("</style></defs>");
    out.append(heat_card.as_str());
    out.append(lang_card.as_str());
    out.append("</svg>");
    out
}

} // verus!

verus! {

/// The rows of the first `k` languages are, in order, one `lang_row` each.
proof fn lemma_rows_flat(langs: Seq<Lang>, k: nat, m: nat)
    requires
        k <= langs.len(),
    ensures
        lang_rows(langs, k, m) == Seq::new(k, |i: int| lang_row(i as nat, langs[i], m)).flatten(),
    decreases k,
{
    let rows = Seq::new(k, |i: int| lang_row(i as nat, langs[i], m));
    if k == 0 {
        assert(rows =~= Seq::<Seq<char>>::empty());
    } else {
        lemma_rows_flat(langs, (k - 1) as nat, m);
        let prev = Seq::new((k - 1) as nat, |i: int| lang_row(i as nat, langs[i], m));
        assert(rows =~= prev.push(lang_row((k - 1) as nat, langs[k - 1], m)));
        prev.lemma_flatten_push(lang_row((k - 1) as nat, langs[k - 1], m));
    }
}

/// The languages card holds exactly one row for each of the first
/// min(5, n) languages, in order: row `i` shows language `i`'s name, its bar
/// scaled to the highest percentage, and its percentage.
pub proof fn lemma_langs_rows(p: Profile)
    ensures
        ({
            let n = p.langs@.len();
            let shown = if n <= 5 { n } else { 5 };
            let rows = Seq::new(shown, |i: int| lang_row(i as nat, p.langs@[i], top_pct(p.langs@)));
            &&& rows.len() == shown
            &&& langs_text(p) == rows.flatten()
        }),
{
    let n = p.langs@.len();
    let shown: nat = if n <= 5 { n } else { 5 };
    lemma_rows_flat(p.langs@, shown, top_pct(p.langs@));
}

/// Each of the first min(5, n) languages has its row, with its percentage
/// label, inside the rendered pulse card.
pub proof fn lemma_pulse_shows_langs(p: Profile, fonts: Fonts, i: int)
    requires
        0 <= i < p.langs@.len(),
        i < 5,
    ensures
        exists|a: Seq<char>, b: Seq<char>|
            pulse_svg(p, fonts) == #[trigger] ((a + lang_row(i as nat, p.langs@[i], top_pct(p.langs@))) + b),
{
    let n = p.langs@.len();
    let shown: nat = if n <= 5 { n } else { 5 };
    let m = top_pct(p.langs@);
    lemma_langs_rows(p);
    let rows = Seq::new(shown, |j: int| lang_row(j as nat, p.langs@[j], m));
    let before = rows.take(i).flatten();
    let after = rows.skip(i + 1).flatten();
    lemma_flatten_split(rows, i);
    let pre = "<svg xmlns=\"http://www.w3.org/2000/svg\" width=\"780\" height=\"190\" viewBox=\"0 0 780 190\" role=\"img\" aria-label=\"Contribution heatmap and top languages for notsu.\"><defs><style>"@
        + (base_style_text(fonts)
        + ".cell{opacity:0;transform:scale(.4);transform-box:fill-box;transform-origin:center;animation:cell .4s ease forwards;}.bar{transform:scaleX(0);transform-box:fill-box;transform-origin:left center;animation:grow 1s cubic-bezier(.2,.8,.2,1) forwards;}@keyframes cell{to{opacity:1;transform:scale(1);}}@keyframes grow{to{transform:scaleX(1);}}"@)
        + "</style></defs>"@
        + card_text(1, 468, "CONTRIBUTION"@, "52 WEEKS"@, heatmap_text(p));
    assert(pulse_svg(p, fonts) == pre + card_text(482, 297, "TOP LANGUAGES"@, "BY BYTES"@, langs_text(p)) + "</svg>"@);
    lemma_card_split(482, 297, "TOP LANGUAGES"@, "BY BYTES"@, langs_text(p));
    let frame = card_text(482, 297, "TOP LANGUAGES"@, "BY BYTES"@, Seq::empty());
    lemma_regroup(pre, frame, before, rows[i], after, "</svg>"@);
    let a = pre + frame + before;
    let b = after + "</svg>"@;
    assert(pulse_svg(p, fonts) == (a + rows[i]) + b);
}

/// A card is its frame followed by its body.
proof fn lemma_card_split(x: nat, w: nat, title: Seq<char>, meta: Seq<char>, body: Seq<char>)
    ensures
        card_text(x, w, title, meta, body) == card_text(x, w, title, meta, Seq::empty()) + body,
{
    let f = card_text(x, w, title, meta, Seq::empty());
    assert(f + body =~= card_text(x, w, title, meta, body));
}

proof fn lemma_regroup(q: Seq<char>, f: Seq<char>, before: Seq<char>, r: Seq<char>, after: Seq<char>, s: Seq<char>)
    ensures
        q + (f + (before + r + after)) + s == (q + f + before + r) + (after + s),
{
    assert(q + (f + (before + r + after)) + s =~= (q + f + before + r) + (after + s));
}

/// A flattened sequence is what comes before element `i`, element `i`, and
/// what comes after.
proof fn lemma_flatten_split(rows: Seq<Seq<char>>, i: int)
    requires
        0 <= i < rows.len(),
    ensures
        rows.flatten() == rows.take(i).flatten() + rows[i] + rows.skip(i + 1).flatten(),
    decreases i,
{
    if i == 0 {
        assert(rows.take(0) =~= Seq::<Seq<char>>::empty());
        assert(rows.skip(1) =~= rows.drop_first());
        assert(Seq::<Seq<char>>::empty().flatten() == Seq::<char>::empty());
        assert(rows.flatten() == rows.first() + rows.drop_first().flatten());
        assert(Seq::<char>::empty() + rows[0] + rows.skip(1).flatten() =~= rows[0] + rows.skip(1).flatten());
    } else {
        let t = rows.drop_first();
        lemma_flatten_split(t, i - 1);
        assert(t.take(i - 1) =~= rows.take(i).drop_first());
        assert(rows.take(i).first() == rows.first());
        assert(t.skip(i) =~= rows.skip(i + 1));
        assert(t[i - 1] == rows[i]);
        assert(rows.take(i).flatten() == rows.first() + rows.take(i).drop_first().flatten());
        assert(rows.flatten() == rows.first() + t.flatten());
        assert(rows.first() + (t.take(i - 1).flatten() + t[i - 1] + t.skip(i).flatten())
            =~= rows.first() + t.take(i - 1).flatten() + rows[i] + rows.skip(i + 1).flatten());
    }
}

} // verus!
