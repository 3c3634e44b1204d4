//! Contact chips styled as shell commands — `$ open notsu.io` — echoing the
//! hero's `$ cargo run` so the profile bookends as one terminal session. Each
//! is its own small SVG the README wraps in a link. A trailing brand glyph
//! aids recognition.
use vstd::prelude::*;
use crate::svg::icons::{place, placed_icon};
use crate::svg::util::{esc_seq, push_esc};
use crate::text::{dec, fixed, push_dec_wide, push_fixed_wide};
use crate::theme::{base_style, base_style_text, Fonts, ACCENT, CARD_TOP, DIM, LINE, TEXT};

verus! {

/// The chip's width: prompt, command (9 px per character) and glyph, with padding.
pub open spec fn button_width(command: Seq<char>) -> nat {
    82 + 9 * command.len()
}

/// A command chip: `$ <command>` with a trailing brand glyph.
pub open spec fn button_svg(command: Seq<char>, icon: Seq<char>, fonts: Fonts) -> Seq<char> {
    "<svg xmlns=\"http://www.w3.org/2000/svg\" width=\""@
        + dec(button_width(command))
        + "\" height=\"44\" viewBox=\"0 0 "@
        + dec(button_width(command))
        + " 44\" role=\"img\" aria-label=\""@
        + esc_seq(command)
        + "\"><defs><style>"@
        + base_style_text(fonts)
        + "</style></defs><rect x=\"1\" y=\"1\" width=\""@
        + fixed(((button_width(command) - 2) * 10) as nat, 1)
        + "\" height=\"42.0\" rx=\"10\" fill=\""@
        + CARD_TOP@
        + "\" stroke=\""@
        + LINE@
        + "\"/><text x=\"16\" y=\"27.0\" font-size=\"15\" font-weight=\"800\" fill=\""@
        + ACCENT@
        + "\">$</text><text x=\"32\" y=\"27.0\" font-size=\"14\" fill=\""@
        + TEXT@
        + "\">"@
        + esc_seq(command)
        + "</text>"@
        + placed_icon(icon, ((button_width(command) - 30) * 10) as nat, 110, 22, DIM@)
        + "</svg>"@
}

/// A single command chip: `$ <command>` with a trailing brand glyph.
pub fn button(command: &str, icon: &str, fonts: &Fonts) -> (res: String)
    ensures
        res@ == button_svg(command@, icon@, *fonts),
{
    let n = command.unicode_len() as u128;
    let w: u128 = 82 + 9 * n;
    let base = base_style(fonts);
    let glyph = place(icon, (w - 30) * 10, 110, 22, DIM);
    let mut out = String::from_str("<svg xmlns=\"http://www.w3.org/2000/svg\" width=\"");
    push_dec_wide(&mut out, w);
    out.append("\" height=\"44\" viewBox=\"0 0 ");
    push_dec_wide(&mut out, w);
    out.append(" 44\" role=\"img\" aria-label=\"");
    push_esc(&mut out, command);
    out.append("\"><defs><style>");
    out.append(base.as_str());
    out.append("</style></defs><rect x=\"1\" y=\"1\" width=\"");
    push_fixed_wide(&mut out, (w - 2) * 10, 1);
    out.append("\" height=\"42.0\" rx=\"10\" fill=\"");
    out.append(CARD_TOP);
    out.append("\" stroke=\"");
    out.append(LINE);
    out.append("\"/><text x=\"16\" y=\"27.0\" font-size=\"15\" font-weight=\"800\" fill=\"");
    out.append(ACCENT);
    out.append("\">$</text><text x=\"32\" y=\"27.0\" font-size=\"14\" fill=\"");
    out.append(TEXT);
    out.append("\">");
    push_esc(&mut out, command);
    out.append("</text>");
    out.append(glyph.as_str());
    out.append("</svg>");
    out
}

} // verus!
