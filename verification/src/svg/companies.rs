//! Companies as a horizontal rail of cards: Fastwork (now), WorkMotion
//! (consulting), LINE, Dek-D (previous). Staggered rise-in, CSS only.
//! Where each card stands is single-precision arithmetic printed the way
//! `f32` prints; the caller works it out and hands it in as a `Slot`.
use vstd::prelude::*;
use crate::model::Company;
use crate::svg::util::{esc_seq, lines_at, push_esc, stacked, wrapped};
use crate::text::same_text;
use crate::theme::{base_style, base_style_text, Fonts, ACCENT, CARD_TOP, CYAN, DIM, LINE, TEXT};

verus! {

/// `s` in upper case, as `str::to_uppercase` maps it (Unicode case mapping).
pub uninterp spec fn uppercase(s: Seq<char>) -> Seq<char>;

/// `str::to_uppercase`. Claimed: the result is `uppercase` of the argument,
/// a function of the argument alone; what the mapping is, is not stated.
#[verifier::external_body]
fn to_upper(s: &str) -> (res: String)
    ensures
        res@ == uppercase(s@),
{
    s.to_uppercase()
}

/// The badge colour of a position: accent for the current one, cyan for
/// consulting, dim for earlier ones.
pub open spec fn when_tint(when: Seq<char>) -> Seq<char> {
    if when == "now"@ {
        ACCENT@
    } else if when == "consulting"@ {
        CYAN@
    } else {
        DIM@
    }
}

/// The badge colour of a position.
pub fn when_color(when: &str) -> (res: &'static str)
    ensures
        res@ == when_tint(when@),
{
    if same_text(when, "now") {
        ACCENT
    } else if same_text(when, "consulting") {
        CYAN
    } else {
        DIM
    }
}

/// Where one card stands on the rail, as printed numbers: the frame's left
/// edge and width, the name's x, the role lines' x, the badge's right edge,
/// and the animation delay in seconds.
pub struct Slot {
    pub x: String,
    pub w: String,
    pub inner: String,
    pub role_x: String,
    pub badge_x: String,
    pub delay: String,
}

/// One company card in its slot: the frame, the name, the right-aligned
/// badge and the role wrapped to 22 characters per line.
pub open spec fn company_card(c: Company, s: Slot) -> Seq<char> {
    "<g class=\"card\" style=\"animation-delay:"@
        + s.delay@
        + "s\"><rect x=\""@
        + s.x@
        + "\" y=\"48\" width=\""@
        + s.w@
        + "\" height=\"112\" rx=\"12\" fill=\""@
        + CARD_TOP@
        + "\" stroke=\""@
        + LINE@
        + "\"/><text x=\""@
        + s.inner@
        + "\" y=\"76\" font-size=\"14.5\" font-weight=\"700\" fill=\""@
        + TEXT@
        + "\">"@
        + esc_seq(c.name@)
        + "</text><text x=\""@
        + s.badge_x@
        + "\" y=\"75\" font-size=\"10\" font-weight=\"700\" fill=\""@
        + when_tint(c.when@)
        + "\" text-anchor=\"end\">"@
        + esc_seq(uppercase(c.when@))
        + "</text>"@
        + stacked(wrapped(c.role@, 22), s.role_x@, 1000, 155, 115, DIM@)
        + "</g>"@
}

/// The cards of the first `k` companies.
pub open spec fn company_cards(cards: Seq<(Company, Slot)>, k: nat) -> Seq<char>
    decreases k,
{
    if k == 0 {
        Seq::empty()
    } else {
        company_cards(cards, (k - 1) as nat) + company_card(cards[k - 1].0, cards[k - 1].1)
    }
}

/// The companies rail.
pub open spec fn companies_svg(cards: Seq<(Company, Slot)>, fonts: Fonts) -> Seq<char> {
    let style = base_style_text(fonts)
        + ".card{opacity:0;transform-box:fill-box;animation:rise .55s cubic-bezier(.2,.7,.2,1) both;}@keyframes rise{from{opacity:0;transform:translateY(8px);}to{opacity:1;transform:translateY(0);}}"@;
    "<svg xmlns=\"http://www.w3.org/2000/svg\" width=\"780\" height=\"168\" viewBox=\"0 0 780 168\" role=\"img\" aria-label=\"Companies: Fastwork, WorkMotion, LINE, Dek-D.\"><defs><style>"@
        + style
        + "</style></defs><text x=\"1\" y=\"30\" font-size=\"13\" font-weight=\"700\" fill=\""@
        + TEXT@
        + "\">COMPANIES</text><text x=\"108\" y=\"30\" font-size=\"12\" fill=\""@
        + DIM@
        + "\">// where I've built &amp; led</text>"@
        + company_cards(cards, cards.len())
        + "</svg>"@
}

/// One company card.
fn card(c: &Company, s: &Slot) -> (res: String)
    ensures
        res@ == company_card(*c, *s),
{
    let upper = to_upper(c.when.as_str());
    let role = lines_at(c.role.as_str(), s.role_x.as_str(), 1000, 155, 115, DIM, 22);
    let mut out = String::from_str("<g class=\"card\" style=\"animation-delay:");
    out.append(s.delay.as_str());
    out.append("s\"><rect x=\"");
    out.append(s.x.as_str());
    out.append("\" y=\"48\" width=\"");
    out.append(s.w.as_str());
    out.append("\" height=\"112\" rx=\"12\" fill=\"");
    out.append(CARD_TOP);
    out.append("\" stroke=\"");
    out.append(LINE);
    out.append("\"/><text x=\"");
    out.append(s.inner.as_str());
    out.append("\" y=\"76\" font-size=\"14.5\" font-weight=\"700\" fill=\"");
    out.append(TEXT);
    out.append("\">");
    push_esc(&mut out, c.name.as_str());
    out.append("</text><text x=\"");
    out.append(s.badge_x.as_str());
    out.append("\" y=\"75\" font-size=\"10\" font-weight=\"700\" fill=\"");
    out.append(when_color(c.when.as_str()));
    out.append("\" text-anchor=\"end\">");
    push_esc(&mut out, upper.as_str());
    out.append("</text>");
    out.append(role.as_str());
    out.append("</g>");
    out
}

/// Renders the companies rail: each company in its slot, in order.
pub fn render(cards: &[(Company, Slot)], fonts: &Fonts) -> (res: String)
    ensures
        res@ == companies_svg(cards@, *fonts),
{
    let mut body = String::new();
    for k in 0..cards.len()
        invariant
            body@ == company_cards(cards@, k as nat),
    {
        let piece = card(&cards[k].0, &cards[k].1);
        let ghost before = body@;
        body.append(piece.as_str());
        assert(body@ == before + company_card(cards@[k as int].0, cards@[k as int].1));
    }
    let mut style = base_style(fonts);
    style.append(".card{opacity:0;transform-box:fill-box;animation:rise .55s cubic-bezier(.2,.7,.2,1) both;}@keyframes rise{from{opacity:0;transform:translateY(8px);}to{opacity:1;transform:translateY(0);}}");
    let mut out = String::from_str("<svg xmlns=\"http://www.w3.org/2000/svg\" width=\"780\" height=\"168\" viewBox=\"0 0 780 168\" role=\"img\" aria-label=\"Companies: Fastwork, WorkMotion, LINE, Dek-D.\"><defs><style>");
    out.append(style.as_str());
    out.append("</style></defs><text x=\"1\" y=\"30\" font-size=\"13\" font-weight=\"700\" fill=\"");
    out.append(TEXT);
    out.append("\">COMPANIES</text><text x=\"108\" y=\"30\" font-size=\"12\" fill=\"");
    out.append(DIM);
    out.append("\">// where I've built &amp; led</text>");
    out.append(body.as_str());
    out.append("</svg>");
    out
}

} // verus!
