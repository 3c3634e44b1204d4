//! The animated hero: a `cargo run` boot sequence that compiles the identity.
//! Animation is pure CSS-in-SVG (works through GitHub's image proxy, honours
//! prefers-reduced-motion). No SMIL, no JS.
use vstd::prelude::*;
use crate::model::Profile;
use crate::svg::util::{esc_seq, push_esc};
use vstd::arithmetic::div_mod::{lemma_fundamental_div_mod, lemma_fundamental_div_mod_converse};
use crate::text::{digit_char, is_digit, lemma_dec_len, dec, dec_pad, push_dec, push_dec_pad, push_char, push_hundredths_short, hundredths_short};
use crate::theme::{base_style, base_style_text, Fonts, ACCENT, CARD_BOT, CARD_TOP, CYAN, DIM, LINE, OK, TEXT, WHITE};

verus! {

/// `n` with its digits grouped in thousands: 4812 → "4,812".
pub open spec fn grouped(n: nat) -> Seq<char>
    decreases n,
{
    if n < 1000 {
        dec(n)
    } else {
        grouped(n / 1000) + seq![','] + dec_pad(n % 1000, 3)
    }
}

/// Appends `grouped(n)` to `out`.
pub fn push_grouped(out: &mut String, n: u64)
    ensures
        final(out)@ == old(out)@ + grouped(n as nat),
    decreases n,
{
    if n < 1000 {
        push_dec(out, n);
    } else {
        push_grouped(out, n / 1000);
        push_char(out, ',');
        push_dec_pad(out, n % 1000, 3);
        assert((old(out)@ + grouped((n / 1000) as nat)).push(',') + dec_pad((n % 1000) as nat, 3)
            =~= old(out)@ + grouped(n as nat));
    }
}

/// Group thousands: 4812 → "4,812".
pub fn group(n: u64) -> (res: String)
    ensures
        res@ == grouped(n as nat),
{
    let mut out = String::new();
    push_grouped(&mut out, n);
    assert(Seq::<char>::empty() + grouped(n as nat) =~= grouped(n as nat));
    out
}

/// One coloured span inside a line.
pub open spec fn span(fill: Seq<char>, bold: bool, s: Seq<char>) -> Seq<char> {
    "<tspan fill=\""@ + fill + "\" font-weight=\""@ + (if bold { "700"@ } else { "400"@ }) + "\">"@
        + esc_seq(s) + "</tspan>"@
}

/// One coloured span inside a line.
pub fn t(fill: &str, bold: bool, s: &str) -> (res: String)
    ensures
        res@ == span(fill@, bold, s@),
{
    let w = if bold { "700" } else { "400" };
    let mut out = String::from_str("<tspan fill=\"");
    out.append(fill);
    out.append("\" font-weight=\"");
    out.append(w);
    out.append("\">");
    push_esc(&mut out, s);
    out.append("</tspan>");
    out
}

/// A revealed output line at row `y`, appearing after `delay` hundredths of
/// a second.
pub open spec fn line_text(y: nat, delay: nat, spans: Seq<char>) -> Seq<char> {
    "<text x=\"28\" y=\""@ + dec(y) + "\" font-size=\"14\" class=\"ln\" style=\"animation-delay:"@
        + hundredths_short(delay) + "s\">"@ + spans + "</text>"@
}

/// A revealed output line at row `y`, appearing after `delay` hundredths of
/// a second.
pub fn line(y: u64, delay: u64, spans: &str) -> (res: String)
    ensures
        res@ == line_text(y as nat, delay as nat, spans@),
{
    let mut out = String::from_str("<text x=\"28\" y=\"");
    push_dec(&mut out, y);
    out.append("\" font-size=\"14\" class=\"ln\" style=\"animation-delay:");
    push_hundredths_short(&mut out, delay);
    out.append("s\">");
    out.append(spans);
    out.append("</text>");
    out
}

/// "{years}y, self-taught".
pub open spec fn years_text(p: Profile) -> Seq<char> {
    dec(p.years as nat) + "y, self-taught"@
}

/// The plain text of the live line; its length places the caret.
pub open spec fn live_plain(p: Profile) -> Seq<char> {
    "live  "@
        + grouped(p.commits_year as nat)
        + " commits · "@
        + dec(p.current_streak as nat)
        + "d streak · "@
        + grouped(p.followers as nat)
        + " followers · "@
        + grouped(p.stars as nat)
        + "★"@
}

/// The caret stands 3 px after the live line, whose characters advance
/// 8.4 px each from x = 28; rounded to whole pixels.
pub open spec fn caret_x(p: Profile) -> nat {
    (310 + 84 * live_plain(p).len() + 5) / 10
}

/// The hero card.
pub open spec fn hero_svg(p: Profile, fonts: Fonts) -> Seq<char> {
    let l_cmd = "<text x=\"28\" y=\"78\" font-size=\"14\" class=\"cmd type\" style=\"animation:type .9s steps(23) both\">"@
        + span(ACCENT@, true, "$ "@)
        + span(TEXT@, false, "cargo run --bin notsu"@)
        + "</text>"@;
    let l1 = line_text(104, 105, span(DIM@, false, "   Compiling "@)
        + span(WHITE@, true, "identity"@)
        + span(DIM@, false, " v4.0.0 (github.com/notsu)"@));
    let l2 = line_text(129, 140, span(ACCENT@, true, "   ▸ "@)
        + span(WHITE@, true, p.name@)
        + span(DIM@, false, " — "@)
        + span(TEXT@, false, p.role@)
        + span(DIM@, false, " @ "@)
        + span(ACCENT@, true, p.company@)
        + span(OK@, true, "  ✓"@));
    let l3 = line_text(154, 175, span(ACCENT@, true, "   ▸ "@)
        + span(CYAN@, false, "Rust"@)
        + span(DIM@, false, " · "@)
        + span(CYAN@, false, "Go"@)
        + span(DIM@, false, " · distributed systems · DDD · "@)
        + span(DIM@, false, years_text(p))
        + span(OK@, true, "  ✓"@));
    let l4 = line_text(179, 210, span(ACCENT@, true, "   ▸ "@)
        + span(TEXT@, false, p.location@)
        + span(DIM@, false, " · shipping since 2009"@)
        + span(OK@, true, "  ✓"@));
    let l5 = line_text(204, 245, span(DIM@, false, "    Finished "@)
        + span(OK@, true, "`ship`"@)
        + span(DIM@, false, " profile [optimized]"@));
    let divider = "<line x1=\"28\" y1=\"219\" x2=\"752\" y2=\"219\" stroke=\"#222B39\" stroke-width=\"1\" stroke-dasharray=\"3 3\" class=\"ln\" style=\"animation-delay:2.7s\"/>"@;
    let live = "<text x=\"28\" y=\"237\" font-size=\"13\" class=\"ln\" style=\"animation-delay:2.8s\">"@
        + span(DIM@, false, "live  "@)
        + span(TEXT@, true, grouped(p.commits_year as nat))
        + span(DIM@, false, " commits · "@)
        + span(TEXT@, true, dec(p.current_streak as nat))
        + span(DIM@, false, "d streak · "@)
        + span(TEXT@, true, grouped(p.followers as nat))
        + span(DIM@, false, " followers · "@)
        + span(TEXT@, true, grouped(p.stars as nat))
        + span(ACCENT@, true, "★"@)
        + "</text>"@;
    let caret = "<rect x=\""@
        + dec(caret_x(p))
        + "\" y=\"226\" width=\"8\" height=\"15\" fill=\""@
        + ACCENT@
        + "\" class=\"caret\" style=\"animation-delay:3.0s\"/>"@;
    let style = base_style_text(fonts)
        + ".ln{opacity:0;transform-box:fill-box;animation:rise .5s ease both;}.type{clip-path:inset(0 100% 0 0);}.caret{opacity:0;animation:blink 1.05s steps(1) infinite;}@keyframes rise{from{opacity:0;transform:translateY(5px);}to{opacity:1;transform:translateY(0);}}@keyframes type{from{clip-path:inset(0 100% 0 0);}to{clip-path:inset(0 0 0 0);}}@keyframes blink{0%,50%{opacity:1;}51%,100%{opacity:0;}}"@;
    "<svg xmlns=\"http://www.w3.org/2000/svg\" width=\"780\" height=\"250\" viewBox=\"0 0 780 250\" role=\"img\" aria-label=\""@
        + esc_seq(p.name@)
        + " — "@
        + esc_seq(p.role@)
        + " at "@
        + esc_seq(p.company@)
        + ". "@
        + grouped(p.commits_year as nat)
        + " commits, "@
        + dec(p.current_streak as nat)
        + " day streak.\"><defs><linearGradient id=\"card\" x1=\"0\" y1=\"0\" x2=\"0\" y2=\"1\"><stop offset=\"0\" stop-color=\""@
        + CARD_TOP@
        + "\"/><stop offset=\"1\" stop-color=\""@
        + CARD_BOT@
        + "\"/></linearGradient><style>"@
        + style
        + "</style></defs><rect x=\"1\" y=\"1\" width=\"778\" height=\"248\" rx=\"14\" fill=\"url(#card)\" stroke=\""@
        + LINE@
        + "\"/><rect x=\"1\" y=\"1\" width=\"778\" height=\"40\" rx=\"14\" fill=\"#0C1017\"/><rect x=\"1\" y=\"27\" width=\"778\" height=\"14\" fill=\"#0C1017\"/><line x1=\"1\" y1=\"41\" x2=\"780\" y2=\"41\" stroke=\""@
        + LINE@
        + "\"/><circle cx=\"24\" cy=\"21\" r=\"5.5\" fill=\"#FF5F56\"/><circle cx=\"42\" cy=\"21\" r=\"5.5\" fill=\"#FFBD2E\"/><circle cx=\"60\" cy=\"21\" r=\"5.5\" fill=\"#27C93F\"/><text x=\"80\" y=\"25\" font-size=\"12\" fill=\"#586274\">notsu@github — zsh</text>"@
        + l_cmd
        + l1
        + l2
        + l3
        + l4
        + l5
        + divider
        + live
        + caret
        + "</svg>"@
}

/// Renders the hero card.
pub fn render(p: &Profile, fonts: &Fonts) -> (res: String)
    ensures
        res@ == hero_svg(*p, *fonts),
{
    let commits = group(p.commits_year);
    let followers = group(p.followers);
    let stars = group(p.stars);
    let streak_text = crate::text::fmt_dec(p.current_streak as u64);
    let mut years_text = crate::text::fmt_dec(p.years as u64);
    years_text.append("y, self-taught");
    let mut live_plain = String::from_str("live  ");
    push_grouped(&mut live_plain, p.commits_year);
    live_plain.append(" commits · ");
    push_dec(&mut live_plain, p.current_streak as u64);
    live_plain.append("d streak · ");
    push_grouped(&mut live_plain, p.followers);
    live_plain.append(" followers · ");
    push_grouped(&mut live_plain, p.stars);
    live_plain.append("★");
    let n = live_plain.as_str().unicode_len();
    proof { lemma_live_plain_len(*p); }
    let caret: u64 = (310 + 84 * (n as u64) + 5) / 10;
    let mut l_cmd = String::from_str("<text x=\"28\" y=\"78\" font-size=\"14\" class=\"cmd type\" style=\"animation:type .9s steps(23) both\">");
    l_cmd.append(t(ACCENT, true, "$ ").as_str());
    l_cmd.append(t(TEXT, false, "cargo run --bin notsu").as_str());
    l_cmd.append("</text>");
    let mut s1 = t(DIM, false, "   Compiling ");
    s1.append(t(WHITE, true, "identity").as_str());
    s1.append(t(DIM, false, " v4.0.0 (github.com/notsu)").as_str());
    let l1 = line(104, 105, s1.as_str());
    let mut s2 = t(ACCENT, true, "   ▸ ");
    s2.append(t(WHITE, true, p.name.as_str()).as_str());
    s2.append(t(DIM, false, " — ").as_str());
    s2.append(t(TEXT, false, p.role.as_str()).as_str());
    s2.append(t(DIM, false, " @ ").as_str());
    s2.append(t(ACCENT, true, p.company.as_str()).as_str());
    s2.append(t(OK, true, "  ✓").as_str());
    let l2 = line(129, 140, s2.as_str());
    let mut s3 = t(ACCENT, true, "   ▸ ");
    s3.append(t(CYAN, false, "Rust").as_str());
    s3.append(t(DIM, false, " · ").as_str());
    s3.append(t(CYAN, false, "Go").as_str());
    s3.append(t(DIM, false, " · distributed systems · DDD · ").as_str());
    s3.append(t(DIM, false, years_text.as_str()).as_str());
    s3.append(t(OK, true, "  ✓").as_str());
    let l3 = line(154, 175, s3.as_str());
    let mut s4 = t(ACCENT, true, "   ▸ ");
    s4.append(t(TEXT, false, p.location.as_str()).as_str());
    s4.append(t(DIM, false, " · shipping since 2009").as_str());
    s4.append(t(OK, true, "  ✓").as_str());
    let l4 = line(179, 210, s4.as_str());
    let mut s5 = t(DIM, false, "    Finished ");
    s5.append(t(OK, true, "`ship`").as_str());
    s5.append(t(DIM, false, " profile [optimized]").as_str());
    let l5 = line(204, 245, s5.as_str());
    let divider = String::from_str("<line x1=\"28\" y1=\"219\" x2=\"752\" y2=\"219\" stroke=\"#222B39\" stroke-width=\"1\" stroke-dasharray=\"3 3\" class=\"ln\" style=\"animation-delay:2.7s\"/>");
    let mut live = String::from_str("<text x=\"28\" y=\"237\" font-size=\"13\" class=\"ln\" style=\"animation-delay:2.8s\">");
    live.append(t(DIM, false, "live  ").as_str());
    live.append(t(TEXT, true, commits.as_str()).as_str());
    live.append(t(DIM, false, " commits · ").as_str());
    live.append(t(TEXT, true, streak_text.as_str()).as_str());
    live.append(t(DIM, false, "d streak · ").as_str());
    live.append(t(TEXT, true, followers.as_str()).as_str());
    live.append(t(DIM, false, " followers · ").as_str());
    live.append(t(TEXT, true, stars.as_str()).as_str());
    live.append(t(ACCENT, true, "★").as_str());
    live.append("</text>");
    let mut caret_rect = String::from_str("<rect x=\"");
    push_dec(&mut caret_rect, caret);
    caret_rect.append("\" y=\"226\" width=\"8\" height=\"15\" fill=\"");
    caret_rect.append(ACCENT);
    caret_rect.append("\" class=\"caret\" style=\"animation-delay:3.0s\"/>");
    let mut style = base_style(fonts);
    style.append(".ln{opacity:0;transform-box:fill-box;animation:rise .5s ease both;}.type{clip-path:inset(0 100% 0 0);}.caret{opacity:0;animation:blink 1.05s steps(1) infinite;}@keyframes rise{from{opacity:0;transform:translateY(5px);}to{opacity:1;transform:translateY(0);}}@keyframes type{from{clip-path:inset(0 100% 0 0);}to{clip-path:inset(0 0 0 0);}}@keyframes blink{0%,50%{opacity:1;}51%,100%{opacity:0;}}");
    let mut out = String::from_str("<svg xmlns=\"http://www.w3.org/2000/svg\" width=\"780\" height=\"250\" viewBox=\"0 0 780 250\" role=\"img\" aria-label=\"");
    push_esc(&mut out, p.name.as_str());
    out.append(" — ");
    push_esc(&mut out, p.role.as_str());
    out.append(" at ");
    push_esc(&mut out, p.company.as_str());
    out.append(". ");
    out.append(commits.as_str());
    out.append(" commits, ");
    push_dec(&mut out, p.current_streak as u64);
    out.append(" day streak.\"><defs><linearGradient id=\"card\" x1=\"0\" y1=\"0\" x2=\"0\" y2=\"1\"><stop offset=\"0\" stop-color=\"");
    out.append(CARD_TOP);
    out.append("\"/><stop offset=\"1\" stop-color=\"");
    out.append(CARD_BOT);
    out.append("\"/></linearGradient><style>");
    out.append(style.as_str());
    out.append("</style></defs><rect x=\"1\" y=\"1\" width=\"778\" height=\"248\" rx=\"14\" fill=\"url(#card)\" stroke=\"");
    out.append(LINE);
    out.append("\"/><rect x=\"1\" y=\"1\" width=\"778\" height=\"40\" rx=\"14\" fill=\"#0C1017\"/><rect x=\"1\" y=\"27\" width=\"778\" height=\"14\" fill=\"#0C1017\"/><line x1=\"1\" y1=\"41\" x2=\"780\" y2=\"41\" stroke=\"");
    out.append(LINE);
    out.append("\"/><circle cx=\"24\" cy=\"21\" r=\"5.5\" fill=\"#FF5F56\"/><circle cx=\"42\" cy=\"21\" r=\"5.5\" fill=\"#FFBD2E\"/><circle cx=\"60\" cy=\"21\" r=\"5.5\" fill=\"#27C93F\"/><text x=\"80\" y=\"25\" font-size=\"12\" fill=\"#586274\">notsu@github — zsh</text>");
    out.append(l_cmd.as_str());
    out.append(l1.as_str());
    out.append(l2.as_str());
    out.append(l3.as_str());
    out.append(l4.as_str());
    out.append(l5.as_str());
    out.append(divider.as_str());
    out.append(live.as_str());
    out.append(caret_rect.as_str());
    out.append("</svg>");
    out
}

/// The live line is short: its numbers have at most 26 characters each.
proof fn lemma_live_plain_len(p: Profile)
    ensures
        live_plain(p).len() <= 200,
{
    reveal_with_fuel(pow1000, 8);
    reveal_with_fuel(crate::text::pow10, 11);
    reveal_strlit("live  ");
    reveal_strlit(" commits · ");
    reveal_strlit("d streak · ");
    reveal_strlit(" followers · ");
    reveal_strlit("★");
    lemma_grouped_len(p.commits_year as nat, 7);
    lemma_grouped_len(p.followers as nat, 7);
    lemma_grouped_len(p.stars as nat, 7);
    crate::text::lemma_dec_len_bound(p.current_streak as nat, 10);
}

/// `1000^k`.
pub open spec fn pow1000(k: nat) -> nat
    decreases k,
{
    if k == 0 { 1 } else { 1000 * pow1000((k - 1) as nat) }
}

/// Below `1000^k`, grouping takes at most `4k` characters.
proof fn lemma_grouped_len(n: nat, k: nat)
    requires
        k >= 1,
        n < pow1000(k),
    ensures
        grouped(n).len() <= 4 * k,
    decreases k,
{
    reveal_with_fuel(pow1000, 8);
    reveal_with_fuel(crate::text::pow10, 4);
    if n < 1000 {
        crate::text::lemma_dec_len_bound(n, 3);
    } else {
        assert(k >= 2);
        assert(n / 1000 < pow1000((k - 1) as nat)) by (nonlinear_arith)
            requires n < 1000 * pow1000((k - 1) as nat);
        lemma_grouped_len(n / 1000, (k - 1) as nat);
        crate::text::lemma_dec_pad_len(n % 1000, 3);
    }
}


/// A text without its commas.
pub open spec fn without_commas(s: Seq<char>) -> Seq<char> {
    s.filter(|c: char| c != ',')
}

/// A text of digits keeps all of itself when commas are dropped.
proof fn lemma_digits_kept(s: Seq<char>)
    requires
        forall|i: int| 0 <= i < s.len() ==> is_digit(#[trigger] s[i]),
    ensures
        without_commas(s) == s,
    decreases s.len(),
{
    reveal_with_fuel(Seq::<_>::filter, 1);
    if s.len() > 0 {
        assert forall|i: int| 0 <= i < s.drop_last().len() implies is_digit(#[trigger] s.drop_last()[i]) by {
            assert(s.drop_last()[i] == s[i]);
        }
        lemma_digits_kept(s.drop_last());
        assert(is_digit(s[s.len() - 1]));
        assert(s.drop_last().push(s.last()) =~= s);
    }
}

/// Padding keeps a number all digits.
proof fn lemma_dec_pad_digits(n: nat, w: nat)
    ensures
        forall|i: int| 0 <= i < dec_pad(n, w).len() ==> is_digit(#[trigger] dec_pad(n, w)[i]),
{
    lemma_dec_len(n);
    let d = dec(n);
    if d.len() < w {
        let z = Seq::new((w - d.len()) as nat, |i: int| '0');
        assert forall|i: int| 0 <= i < dec_pad(n, w).len() implies is_digit(#[trigger] dec_pad(n, w)[i]) by {
            if i < z.len() {
                assert(dec_pad(n, w)[i] == z[i]);
            } else {
                assert(dec_pad(n, w)[i] == d[i - z.len()]);
            }
        }
    }
}

/// The last three digits of a number of four or more digits are its
/// remainder by 1000, padded to three digits.
proof fn lemma_dec_thousands(n: nat)
    requires
        n >= 1000,
    ensures
        dec(n) == dec(n / 1000) + dec_pad(n % 1000, 3),
{
    let ni = n as int;
    let q: int = ni / 1000;
    let r: int = ni % 1000;
    lemma_fundamental_div_mod(ni, 1000);
    lemma_fundamental_div_mod(r, 10);
    lemma_fundamental_div_mod(r, 100);
    lemma_fundamental_div_mod(r / 10, 10);
    lemma_fundamental_div_mod_converse(ni, 10, 100 * q + r / 10, r % 10);
    lemma_fundamental_div_mod_converse(ni, 100, 10 * q + r / 100, r % 100);
    lemma_fundamental_div_mod_converse(ni / 10, 10, 10 * q + r / 100, (r / 10) % 10);
    lemma_fundamental_div_mod_converse(ni / 100, 10, q, r / 100);
    assert(n / 10 >= 10 && n / 100 >= 10);
    let d0 = digit_char((r % 10) as nat);
    let d1 = digit_char(((r / 10) % 10) as nat);
    let d2 = digit_char((r / 100) as nat);
    assert(dec(n) == dec(n / 10).push(d0));
    assert(dec(n / 10) == dec(n / 100).push(d1));
    assert(dec(n / 100) == dec(q as nat).push(d2));
    let tail = seq![d2, d1, d0];
    assert(dec(n) =~= dec(q as nat) + tail);
    let rn = r as nat;
    if r >= 100 {
        lemma_fundamental_div_mod_converse(r / 10, 10, r / 100, (r / 10) % 10);
        assert(dec(rn) == dec(rn / 10).push(d0));
        assert(dec(rn / 10) == dec(rn / 100).push(d1));
        assert(dec(rn / 100) == seq![d2]);
        assert(dec(rn) =~= tail);
    } else if r >= 10 {
        lemma_fundamental_div_mod_converse(r / 10, 10, 0, r / 10);
        assert(r / 100 == 0);
        assert(dec(rn) == dec(rn / 10).push(d0));
        assert(dec(rn / 10) == seq![d1]);
        assert(dec_pad(rn, 3) =~= tail);
    } else {
        assert(r / 100 == 0 && r / 10 == 0);
        assert(dec(rn) == seq![d0]);
        assert(dec_pad(rn, 3) =~= tail);
    }
}

/// Grouping only adds commas: without them, the grouped number is its plain
/// decimal notation.
pub proof fn lemma_grouped_digits(n: nat)
    ensures
        without_commas(grouped(n)) == dec(n),
    decreases n,
{
    lemma_dec_len(n);
    if n < 1000 {
        lemma_digits_kept(dec(n));
    } else {
        lemma_grouped_digits(n / 1000);
        lemma_dec_thousands(n);
        lemma_dec_pad_digits(n % 1000, 3);
        lemma_digits_kept(dec_pad(n % 1000, 3));
        let pred = |c: char| c != ',';
        Seq::filter_distributes_over_add(grouped(n / 1000) + seq![','], dec_pad(n % 1000, 3), pred);
        Seq::filter_distributes_over_add(grouped(n / 1000), seq![','], pred);
        reveal_with_fuel(Seq::<_>::filter, 2);
        assert(seq![','].filter(pred) =~= Seq::<char>::empty());
        assert(without_commas(grouped(n)) =~= dec(n / 1000) + dec_pad(n % 1000, 3));
    }
}

} // verus!
