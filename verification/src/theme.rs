//! The palette and the shared `<style>` block. Colours live here so the
//! SVG builders stay visually identical; the web font is inlined as base64 so
//! the profile renders the same on every visitor's machine.
use vstd::prelude::*;
use crate::text::{strip_ws, without_ws};

verus! {

pub const CARD_TOP: &'static str = "#11151F";
pub const CARD_BOT: &'static str = "#0E121B";
pub const LINE: &'static str = "#1E2430";
pub const ACCENT: &'static str = "#E4572E";
pub const OK: &'static str = "#3FB950";
pub const TEXT: &'static str = "#E6EDF3";
pub const WHITE: &'static str = "#FFFFFF";
pub const DIM: &'static str = "#8B95A1";
pub const CYAN: &'static str = "#56B6C2";

/// Contribution heatmap colour for level 0 → 4 (higher levels take the top colour).
pub open spec fn heat_color(level: nat) -> Seq<char> {
    if level == 0 {
        "#161B24"@
    } else if level == 1 {
        "#3A2418"@
    } else if level == 2 {
        "#7A3A1E"@
    } else if level == 3 {
        "#C04A1F"@
    } else {
        "#E4572E"@
    }
}

/// The heatmap colour ramp, level 0 → 4.
pub fn heat(level: u8) -> (c: &'static str)
    ensures
        c@ == heat_color(level as nat),
{
    if level == 0 {
        "#161B24"
    } else if level == 1 {
        "#3A2418"
    } else if level == 2 {
        "#7A3A1E"
    } else if level == 3 {
        "#C04A1F"
    } else {
        "#E4572E"
    }
}

/// The embedded web font, regular and bold weights, as base64 text.
pub struct Fonts {
    pub regular_b64: String,
    pub bold_b64: String,
}

/// The `<style>` rules shared by every SVG: the embedded font faces (base64
/// with white space removed) and the reduced-motion escape hatch.
pub open spec fn base_style_text(fonts: Fonts) -> Seq<char> {
    "@font-face{font-family:'JBM';font-weight:400;font-style:normal;src:url(data:font/woff2;base64,"@
        + without_ws(fonts.regular_b64@)
        + ") format('woff2');}@font-face{font-family:'JBM';font-weight:700;font-style:normal;src:url(data:font/woff2;base64,"@
        + without_ws(fonts.bold_b64@)
        + ") format('woff2');}text,tspan{font-family:'JBM','SFMono-Regular',Menlo,monospace;}@media (prefers-reduced-motion: reduce){*{animation:none!important;opacity:1!important;}.type{clip-path:none!important;}}"@
}

/// `<style>` block shared by every SVG. Because the cards animate with CSS
/// (not SMIL), `prefers-reduced-motion` can freeze everything to its final frame.
pub fn base_style(fonts: &Fonts) -> (res: String)
    ensures
        res@ == base_style_text(*fonts),
{
    let reg = strip_ws(fonts.regular_b64.as_str());
    let bold = strip_ws(fonts.bold_b64.as_str());
    let mut out = String::from_str("@font-face{font-family:'JBM';font-weight:400;font-style:normal;src:url(data:font/woff2;base64,");
    out.append(reg.as_str());
    out.append(") format('woff2');}@font-face{font-family:'JBM';font-weight:700;font-style:normal;src:url(data:font/woff2;base64,");
    out.append(bold.as_str());
    out.append(") format('woff2');}text,tspan{font-family:'JBM','SFMono-Regular',Menlo,monospace;}@media (prefers-reduced-motion: reduce){*{animation:none!important;opacity:1!important;}.type{clip-path:none!important;}}");
    out
}

} // verus!
