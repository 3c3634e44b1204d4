//! Side-projects card grid (2×2), branded under devpon. Each card carries
//! the project's logo over a soft accent glow (or its icon), an accent
//! underline, and a monospace stack line. Staggered rise-in, CSS only.
use vstd::prelude::*;
use crate::model::Project;
use crate::svg::icons::{place, placed_icon};
use crate::svg::logos::{logo, logo_of, Logos};
use crate::svg::util::{esc_seq, lines, push_esc, stacked, wrapped};
use crate::text::tenths_short;
use crate::text::{dec, fixed, join, joined, push_dec, push_fixed};
use crate::theme::{base_style, base_style_text, Fonts, ACCENT, CARD_BOT, CARD_TOP, DIM, LINE, TEXT};

verus! {

/// The project's mark at the card's top left: its logo, clipped and glowing,
/// or else its icon.
pub open spec fn project_mark(p: Project, logos: Logos, x: nat, y: nat, idx: nat) -> Seq<char> {
    match logo_of(logos, p.name@) {
        Some(b64) => "<clipPath id=\"pc"@
        + dec(idx)
        + "\"><rect x=\""@
        + dec(x + 18)
        + "\" y=\""@
        + dec(y + 20)
        + "\" width=\"52\" height=\"52\" rx=\"13\"/></clipPath><circle cx=\""@
        + dec(x + 44)
        + "\" cy=\""@
        + dec(y + 46)
        + "\" r=\"35\" fill=\"url(#glow)\"/><image x=\""@
        + dec(x + 18)
        + "\" y=\""@
        + dec(y + 20)
        + "\" width=\"52\" height=\"52\" clip-path=\"url(#pc"@
        + dec(idx)
        + ")\" preserveAspectRatio=\"xMidYMid slice\" href=\"data:image/png;base64,"@
        + b64
        + "\"/><rect x=\""@
        + dec(x + 18)
        + "\" y=\""@
        + dec(y + 20)
        + "\" width=\"52\" height=\"52\" rx=\"13\" fill=\"none\" stroke=\""@
        + LINE@
        + "\"/>"@,
        None => placed_icon(p.icon@, (x + 22) * 10, (y + 24) * 10, 44, ACCENT@),
    }
}

/// A project card at (x, y), appearing after `delay100` hundredths of a second.
pub open spec fn project_card(p: Project, logos: Logos, x: nat, y: nat, delay100: nat, idx: nat) -> Seq<char> {
    "<g class=\"card\" style=\"animation-delay:"@
        + fixed(delay100, 2)
        + "s\"><rect x=\""@
        + dec(x)
        + "\" y=\""@
        + dec(y)
        + "\" width=\"382\" height=\"152\" rx=\"14\" fill=\"url(#card)\" stroke=\""@
        + LINE@
        + "\"/>"@
        + project_mark(p, logos, x, y, idx)
        + "<text x=\""@
        + dec(x + 86)
        + "\" y=\""@
        + dec(y + 42)
        + "\" font-size=\"16\" font-weight=\"800\" fill=\""@
        + TEXT@
        + "\">"@
        + esc_seq(p.name@)
        + "</text><rect x=\""@
        + dec(x + 86)
        + "\" y=\""@
        + dec(y + 50)
        + "\" width=\"22\" height=\"2.5\" rx=\"1.25\" fill=\""@
        + ACCENT@
        + "\"/><text x=\""@
        + dec(x + 366)
        + "\" y=\""@
        + dec(y + 40)
        + "\" font-size=\"11\" font-weight=\"700\" fill=\""@
        + ACCENT@
        + "\" text-anchor=\"end\">↗ "@
        + esc_seq(p.label@)
        + "</text>"@
        + stacked(wrapped(p.desc@, 48), tenths_short((x + 18) * 10), (y + 96) * 10, 160, 125, DIM@)
        + "<circle cx=\""@
        + dec(x + 21)
        + "\" cy=\""@
        + dec(y + 131)
        + "\" r=\"2.6\" fill=\""@
        + ACCENT@
        + "\"/><text x=\""@
        + dec(x + 30)
        + "\" y=\""@
        + dec(y + 135)
        + "\" font-size=\"11.5\" fill=\""@
        + DIM@
        + "\" letter-spacing=\"0.3\">"@
        + esc_seq(joined(p.stack@.map_values(|s: String| s@), "  ·  "@))
        + "</text></g>"@
}

/// How many projects the grid shows: four at most.
pub open spec fn shown(n: nat) -> nat {
    if n < 4 { n } else { 4 }
}

/// The cards of the first `k` projects, two per row.
pub open spec fn project_cards(projects: Seq<Project>, logos: Logos, k: nat) -> Seq<char>
    decreases k,
{
    if k == 0 {
        Seq::empty()
    } else {
        let i = (k - 1) as nat;
        project_cards(projects, logos, i)
            + project_card(projects[i as int], logos, 1 + 396 * (i % 2), 48 + 166 * (i / 2), 15 + 12 * i, i)
    }
}

/// The projects grid.
pub open spec fn projects_svg(projects: Seq<Project>, fonts: Fonts, logos: Logos) -> Seq<char> {
    let style = base_style_text(fonts)
        + ".card{opacity:0;transform-box:fill-box;animation:rise .6s cubic-bezier(.2,.7,.2,1) both;}@keyframes rise{from{opacity:0;transform:translateY(10px);}to{opacity:1;transform:translateY(0);}}"@;
    "<svg xmlns=\"http://www.w3.org/2000/svg\" width=\"780\" height=\"372\" viewBox=\"0 0 780 372\" role=\"img\" aria-label=\"Side projects by notsu, collected at devpon.com.\"><defs><linearGradient id=\"card\" x1=\"0\" y1=\"0\" x2=\"0\" y2=\"1\"><stop offset=\"0\" stop-color=\""@
        + CARD_TOP@
        + "\"/><stop offset=\"1\" stop-color=\""@
        + CARD_BOT@
        + "\"/></linearGradient><radialGradient id=\"glow\"><stop offset=\"0\" stop-color=\""@
        + ACCENT@
        + "\" stop-opacity=\"0.33\"/><stop offset=\"1\" stop-color=\""@
        + ACCENT@
        + "\" stop-opacity=\"0\"/></radialGradient><style>"@
        + style
        + "</style></defs><text x=\"1\" y=\"30\" font-size=\"13\" font-weight=\"700\" fill=\""@
        + TEXT@
        + "\">SIDE PROJECTS</text><text x=\"120\" y=\"30\" font-size=\"12\" fill=\""@
        + DIM@
        + "\">// I build these for the joy of it</text><text x=\"779\" y=\"30\" font-size=\"12\" font-weight=\"700\" fill=\""@
        + ACCENT@
        + "\" text-anchor=\"end\">devpon.com ↗</text>"@
        + project_cards(projects, logos, shown(projects.len()))
        + "</svg>"@
}

/// The mark of one card.
fn mark(p: &Project, logos: &Logos, x: u64, y: u64, idx: u64) -> (res: String)
    requires
        x <= 1000,
        y <= 1000,
    ensures
        res@ == project_mark(*p, *logos, x as nat, y as nat, idx as nat),
{
    match logo(logos, p.name.as_str()) {
        Some(b64) => {
            let mut out = String::from_str("<clipPath id=\"pc");
    push_dec(&mut out, idx);
    out.append("\"><rect x=\"");
    push_dec(&mut out, x + 18);
    out.append("\" y=\"");
    push_dec(&mut out, y + 20);
    out.append("\" width=\"52\" height=\"52\" rx=\"13\"/></clipPath><circle cx=\"");
    push_dec(&mut out, x + 44);
    out.append("\" cy=\"");
    push_dec(&mut out, y + 46);
    out.append("\" r=\"35\" fill=\"url(#glow)\"/><image x=\"");
    push_dec(&mut out, x + 18);
    out.append("\" y=\"");
    push_dec(&mut out, y + 20);
    out.append("\" width=\"52\" height=\"52\" clip-path=\"url(#pc");
    push_dec(&mut out, idx);
    out.append(")\" preserveAspectRatio=\"xMidYMid slice\" href=\"data:image/png;base64,");
    out.append(b64);
    out.append("\"/><rect x=\"");
    push_dec(&mut out, x + 18);
    out.append("\" y=\"");
    push_dec(&mut out, y + 20);
    out.append("\" width=\"52\" height=\"52\" rx=\"13\" fill=\"none\" stroke=\"");
    out.append(LINE);
    out.append("\"/>");
            out
        }
        None => place(p.icon.as_str(), (x as u128 + 22) * 10, (y as u128 + 24) * 10, 44, ACCENT),
    }
}

/// One project card.
fn card(p: &Project, logos: &Logos, x: u64, y: u64, delay100: u64, idx: u64) -> (res: String)
    requires
        x <= 1000,
        y <= 1000,
    ensures
        res@ == project_card(*p, *logos, x as nat, y as nat, delay100 as nat, idx as nat),
{
    let mark = mark(p, logos, x, y, idx);
    let tagline = lines(p.desc.as_str(), (x + 18) * 10, (y + 96) * 10, 160, 125, DIM, 48);
    let stack = join(&p.stack, "  ·  ");
    let mut out = String::from_str("<g class=\"card\" style=\"animation-delay:");
    push_fixed(&mut out, delay100, 2);
    out.append("s\"><rect x=\"");
    push_dec(&mut out, x);
    out.append("\" y=\"");
    push_dec(&mut out, y);
    out.append("\" width=\"382\" height=\"152\" rx=\"14\" fill=\"url(#card)\" stroke=\"");
    out.append(LINE);
    out.append("\"/>");
    out.append(mark.as_str());
    out.append("<text x=\"");
    push_dec(&mut out, x + 86);
    out.append("\" y=\"");
    push_dec(&mut out, y + 42);
    out.append("\" font-size=\"16\" font-weight=\"800\" fill=\"");
    out.append(TEXT);
    out.append("\">");
    push_esc(&mut out, p.name.as_str());
    out.append("</text><rect x=\"");
    push_dec(&mut out, x + 86);
    out.append("\" y=\"");
    push_dec(&mut out, y + 50);
    out.append("\" width=\"22\" height=\"2.5\" rx=\"1.25\" fill=\"");
    out.append(ACCENT);
    out.append("\"/><text x=\"");
    push_dec(&mut out, x + 366);
    out.append("\" y=\"");
    push_dec(&mut out, y + 40);
    out.append("\" font-size=\"11\" font-weight=\"700\" fill=\"");
    out.append(ACCENT);
    out.append("\" text-anchor=\"end\">↗ ");
    push_esc(&mut out, p.label.as_str());
    out.append("</text>");
    out.append(tagline.as_str());
    out.append("<circle cx=\"");
    push_dec(&mut out, x + 21);
    out.append("\" cy=\"");
    push_dec(&mut out, y + 131);
    out.append("\" r=\"2.6\" fill=\"");
    out.append(ACCENT);
    out.append("\"/><text x=\"");
    push_dec(&mut out, x + 30);
    out.append("\" y=\"");
    push_dec(&mut out, y + 135);
    out.append("\" font-size=\"11.5\" fill=\"");
    out.append(DIM);
    out.append("\" letter-spacing=\"0.3\">");
    push_esc(&mut out, stack.as_str());
    out.append("</text></g>");
    out
}

/// Renders the projects grid (the first four projects).
pub fn render(projects: &[Project], fonts: &Fonts, logos: &Logos) -> (res: String)
    ensures
        res@ == projects_svg(projects@, *fonts, *logos),
{
    let n: usize = if projects.len() < 4 { projects.len() } else { 4 };
    let mut cards = String::new();
    for k in 0..n
        invariant
            n == shown(projects@.len()),
            n <= projects@.len(),
            cards@ == project_cards(projects@, *logos, k as nat),
    {
        let i: u64 = k as u64;
        let col: u64 = i % 2;
        let row: u64 = i / 2;
        assert(col <= 1 && row <= 1);
        let piece = card(&projects[k], logos, 1 + 396 * col, 48 + 166 * row, 15 + 12 * i, i);
        let ghost before = cards@;
        cards.append(piece.as_str());
        assert(cards@ == before + project_card(projects@[k as int], *logos, 1 + 396 * (i as nat % 2),
            48 + 166 * (i as nat / 2), 15 + 12 * i as nat, i as nat));
    }
    let mut style = base_style(fonts);
    style.append(".card{opacity:0;transform-box:fill-box;animation:rise .6s cubic-bezier(.2,.7,.2,1) both;}@keyframes rise{from{opacity:0;transform:translateY(10px);}to{opacity:1;transform:translateY(0);}}");
    let mut out = String::from_str("<svg xmlns=\"http://www.w3.org/2000/svg\" width=\"780\" height=\"372\" viewBox=\"0 0 780 372\" role=\"img\" aria-label=\"Side projects by notsu, collected at devpon.com.\"><defs><linearGradient id=\"card\" x1=\"0\" y1=\"0\" x2=\"0\" y2=\"1\"><stop offset=\"0\" stop-color=\"");
    out.append(CARD_TOP);
    out.append("\"/><stop offset=\"1\" stop-color=\"");
    out.append(CARD_BOT);
    out.append("\"/></linearGradient><radialGradient id=\"glow\"><stop offset=\"0\" stop-color=\"");
    out.append(ACCENT);
    out.append("\" stop-opacity=\"0.33\"/><stop offset=\"1\" stop-color=\"");
    out.append(ACCENT);
    out.append("\" stop-opacity=\"0\"/></radialGradient><style>");
    out.append(style.as_str());
    out.append("</style></defs><text x=\"1\" y=\"30\" font-size=\"13\" font-weight=\"700\" fill=\"");
    out.append(TEXT);
    out.append("\">SIDE PROJECTS</text><text x=\"120\" y=\"30\" font-size=\"12\" fill=\"");
    out.append(DIM);
    out.append("\">// I build these for the joy of it</text><text x=\"779\" y=\"30\" font-size=\"12\" font-weight=\"700\" fill=\"");
    out.append(ACCENT);
    out.append("\" text-anchor=\"end\">devpon.com ↗</text>");
    out.append(cards.as_str());
    out.append("</svg>");
    out
}

} // verus!
