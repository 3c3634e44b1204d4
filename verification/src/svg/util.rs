//! Shared helpers for the card builders: XML escaping, greedy word-wrap and
//! stacked text lines.
use vstd::prelude::*;
use crate::text::{chars_of, push_char, is_ws, is_ws_exec, string_of, tenths_short, push_tenths_short, push_tenths_short_wide, joined};

verus! {

/// What one character becomes in XML text: `&`, `<` and `>` turn into entities.
pub open spec fn esc_char(c: char) -> Seq<char> {
    if c == '&' {
        seq!['&', 'a', 'm', 'p', ';']
    } else if c == '<' {
        seq!['&', 'l', 't', ';']
    } else if c == '>' {
        seq!['&', 'g', 't', ';']
    } else {
        seq![c]
    }
}

/// `s` with each character escaped.
pub open spec fn esc_seq(s: Seq<char>) -> Seq<char>
    decreases s.len(),
{
    if s.len() == 0 {
        Seq::empty()
    } else {
        esc_seq(s.drop_last()) + esc_char(s.last())
    }
}

/// Appends `esc_char(c)` to `out`.
fn push_esc_char(out: &mut String, c: char)
    ensures
        final(out)@ == old(out)@ + esc_char(c),
{
    if c == '&' {
        out.append("&amp;");
        proof { reveal_strlit("&amp;"); }
    } else if c == '<' {
        out.append("&lt;");
        proof { reveal_strlit("&lt;"); }
    } else if c == '>' {
        out.append("&gt;");
        proof { reveal_strlit("&gt;"); }
    } else {
        push_char(out, c);
        assert(old(out)@.push(c) =~= old(out)@ + seq![c]);
    }
}

/// Appends `s` escaped for XML text to `out`.
pub fn push_esc(out: &mut String, s: &str)
    ensures
        final(out)@ == old(out)@ + esc_seq(s@),
{
    let cs = chars_of(s);
    let ghost start = out@;
    for i in 0..cs.len()
        invariant
            cs@ == s@,
            out@ == start + esc_seq(cs@.take(i as int)),
    {
        push_esc_char(out, cs[i]);
        assert(cs@.take(i + 1).drop_last() =~= cs@.take(i as int));
        assert(start + esc_seq(cs@.take(i as int)) + esc_char(cs@[i as int])
            =~= start + esc_seq(cs@.take(i + 1)));
    }
    assert(cs@.take(cs.len() as int) =~= cs@);
}

/// Escapes `&`, `<` and `>` for use in XML text.
pub fn esc(s: &str) -> (res: String)
    ensures
        res@ == esc_seq(s@),
{
    let mut out = String::new();
    push_esc(&mut out, s);
    assert(Seq::<char>::empty() + esc_seq(s@) =~= esc_seq(s@));
    out
}


/// Splitting `s` at white space, as far as it goes: the words already closed
/// and the word still being read (empty after white space).
pub open spec fn words_acc(s: Seq<char>) -> (Seq<Seq<char>>, Seq<char>)
    decreases s.len(),
{
    if s.len() == 0 {
        (Seq::empty(), Seq::empty())
    } else {
        let (ws, cur) = words_acc(s.drop_last());
        let c = s.last();
        if is_ws(c) {
            if cur.len() > 0 { (ws.push(cur), Seq::empty()) } else { (ws, cur) }
        } else {
            (ws, cur.push(c))
        }
    }
}

/// The words of `s`: its maximal runs of characters that are not white space
/// (what `split_whitespace` yields).
pub open spec fn words(s: Seq<char>) -> Seq<Seq<char>> {
    let (ws, cur) = words_acc(s);
    if cur.len() > 0 { ws.push(cur) } else { ws }
}

/// Greedy filling of lines with `ws`, as far as it goes: the lines already
/// closed and the line being filled.
pub open spec fn fill_acc(ws: Seq<Seq<char>>, max: nat) -> (Seq<Seq<char>>, Seq<char>)
    decreases ws.len(),
{
    if ws.len() == 0 {
        (Seq::empty(), Seq::empty())
    } else {
        let (lines, cur) = fill_acc(ws.drop_last(), max);
        let w = ws.last();
        if cur.len() == 0 {
            (lines, w)
        } else if cur.len() + 1 + w.len() <= max {
            (lines, cur.push(' ') + w)
        } else {
            (lines.push(cur), w)
        }
    }
}

/// A word cut into pieces of `max` characters, the last piece holding what is
/// left; a word that fits (or a `max` of zero) stays whole.
pub open spec fn pieces(w: Seq<char>, max: nat) -> Seq<Seq<char>>
    decreases w.len(),
{
    if max == 0 || w.len() <= max {
        seq![w]
    } else {
        seq![w.take(max as int)] + pieces(w.skip(max as int), max)
    }
}

/// Every word of `ws` cut into pieces of at most `max` characters, in order.
pub open spec fn chunks(ws: Seq<Seq<char>>, max: nat) -> Seq<Seq<char>>
    decreases ws.len(),
{
    if ws.len() == 0 {
        Seq::empty()
    } else {
        chunks(ws.drop_last(), max) + pieces(ws.last(), max)
    }
}

/// The words of `text` laid out greedily in lines of at most `max` characters:
/// a word longer than `max` is first cut into pieces of `max` characters (the
/// last piece holding the rest); then each piece joins the current line, after
/// one space, while the line stays within `max`, and otherwise starts a new line.
pub open spec fn wrapped(text: Seq<char>, max: nat) -> Seq<Seq<char>> {
    let (lines, cur) = fill_acc(chunks(words(text), max), max);
    if cur.len() > 0 { lines.push(cur) } else { lines }
}

/// The words of `cs`.
fn split_words(cs: &Vec<char>) -> (res: Vec<Vec<char>>)
    ensures
        res@.map_values(|w: Vec<char>| w@) == words(cs@),
{
    let mut ws: Vec<Vec<char>> = Vec::new();
    let mut cur: Vec<char> = Vec::new();
    for i in 0..cs.len()
        invariant
            (ws@.map_values(|w: Vec<char>| w@), cur@) == words_acc(cs@.take(i as int)),
    {
        assert(cs@.take(i + 1).drop_last() =~= cs@.take(i as int));
        let c = cs[i];
        if is_ws_exec(c) {
            if cur.len() > 0 {
                let ghost before = ws@.map_values(|w: Vec<char>| w@);
                ws.push(cur);
                assert(ws@.map_values(|w: Vec<char>| w@) =~= before.push(cur@));
                cur = Vec::new();
            }
        } else {
            cur.push(c);
        }
    }
    assert(cs@.take(cs.len() as int) =~= cs@);
    if cur.len() > 0 {
        let ghost before = ws@.map_values(|w: Vec<char>| w@);
        ws.push(cur);
        assert(ws@.map_values(|w: Vec<char>| w@) =~= before.push(cur@));
    }
    ws
}

/// The characters of `w` from `a` up to `b`.
fn sub_chars(w: &Vec<char>, a: usize, b: usize) -> (res: Vec<char>)
    requires
        a <= b <= w.len(),
    ensures
        res@ == w@.subrange(a as int, b as int),
{
    let mut res: Vec<char> = Vec::new();
    for k in a..b
        invariant
            a <= b <= w.len(),
            res@ == w@.subrange(a as int, k as int),
    {
        res.push(w[k]);
        assert(w@.subrange(a as int, k + 1) =~= w@.subrange(a as int, k as int).push(w@[k as int]));
    }
    res
}

/// The words of `ws`, each cut into pieces of at most `max` characters.
fn split_long(ws: &Vec<Vec<char>>, max: usize) -> (res: Vec<Vec<char>>)
    ensures
        res@.map_values(|w: Vec<char>| w@) == chunks(ws@.map_values(|w: Vec<char>| w@), max as nat),
{
    let ghost wsv = ws@.map_values(|w: Vec<char>| w@);
    let mut out: Vec<Vec<char>> = Vec::new();
    for i in 0..ws.len()
        invariant
            wsv == ws@.map_values(|w: Vec<char>| w@),
            out@.map_values(|w: Vec<char>| w@) == chunks(wsv.take(i as int), max as nat),
    {
        let w = &ws[i];
        assert(wsv.take(i + 1).drop_last() =~= wsv.take(i as int));
        assert(wsv.take(i + 1).last() == w@);
        let ghost base = out@.map_values(|v: Vec<char>| v@);
        let mut j: usize = 0;
        assert(w@.skip(0) =~= w@);
        assert(base + pieces(w@, max as nat) =~= out@.map_values(|v: Vec<char>| v@) + pieces(w@.skip(0), max as nat));
        if max > 0 {
            while w.len() - j > max
                invariant
                    max > 0,
                    j <= w.len(),
                    base + pieces(w@, max as nat) == out@.map_values(|v: Vec<char>| v@) + pieces(w@.skip(j as int), max as nat),
                decreases w.len() - j,
            {
                let ghost before = out@.map_values(|v: Vec<char>| v@);
                let piece = sub_chars(w, j, j + max);
                out.push(piece);
                assert(out@.map_values(|v: Vec<char>| v@) =~= before.push(piece@));
                let ghost rest = w@.skip(j as int);
                assert(rest.take(max as int) =~= piece@);
                assert(rest.skip(max as int) =~= w@.skip(j + max));
                assert(pieces(rest, max as nat) == seq![piece@] + pieces(w@.skip(j + max), max as nat));
                assert(before + (seq![piece@] + pieces(w@.skip(j + max), max as nat))
                    =~= before.push(piece@) + pieces(w@.skip(j + max), max as nat));
                j = j + max;
            }
        }
        let ghost before = out@.map_values(|v: Vec<char>| v@);
        let last = sub_chars(w, j, w.len());
        out.push(last);
        assert(out@.map_values(|v: Vec<char>| v@) =~= before.push(last@));
        assert(w@.skip(j as int) =~= last@);
        assert(pieces(last@, max as nat) == seq![last@]);
        assert(before + seq![last@] =~= before.push(last@));
    }
    assert(wsv.take(ws.len() as int) =~= wsv);
    out
}

/// Greedy word-wrap of `text` to at most `max` characters per line; a word
/// longer than `max` is cut into pieces that fit.
pub fn wrap(text: &str, max: usize) -> (res: Vec<String>)
    ensures
        res@.map_values(|l: String| l@) == wrapped(text@, max as nat),
        max >= 1 ==> forall|i: int| 0 <= i < res@.len() ==> 0 < (#[trigger] res@[i])@.len() <= max,
{
    let cs = chars_of(text);
    let wds = split_words(&cs);
    let ws = split_long(&wds, max);
    let ghost wsv = ws@.map_values(|w: Vec<char>| w@);
    let mut lines: Vec<String> = Vec::new();
    let mut cur: Vec<char> = Vec::new();
    for i in 0..ws.len()
        invariant
            wsv == ws@.map_values(|w: Vec<char>| w@),
            wsv == chunks(words(text@), max as nat),
            (lines@.map_values(|l: String| l@), cur@) == fill_acc(wsv.take(i as int), max as nat),
    {
        assert(wsv.take(i + 1).drop_last() =~= wsv.take(i as int));
        assert(wsv.take(i + 1).last() == ws@[i as int]@);
        let w = &ws[i];
        if cur.len() == 0 {
            cur = w.clone();
            assert(cur@ =~= w@);
        } else if cur.len() < max && w.len() <= max - cur.len() - 1 {
            cur.push(' ');
            let mut j: usize = 0;
            let ghost base = cur@;
            while j < w.len()
                invariant
                    j <= w.len(),
                    cur@ == base + w@.take(j as int),
                decreases w.len() - j,
            {
                cur.push(w[j]);
                assert(w@.take(j + 1) =~= w@.take(j as int).push(w@[j as int]));
                assert(base + w@.take(j + 1) =~= (base + w@.take(j as int)).push(w@[j as int]));
                j = j + 1;
            }
            assert(w@.take(w.len() as int) =~= w@);
        } else {
            let ghost before = lines@.map_values(|l: String| l@);
            let line = string_of(&cur);
            lines.push(line);
            assert(lines@.map_values(|l: String| l@) =~= before.push(cur@));
            cur = w.clone();
            assert(cur@ =~= w@);
        }
    }
    assert(wsv.take(ws.len() as int) =~= wsv);
    if cur.len() > 0 {
        let ghost before = lines@.map_values(|l: String| l@);
        let line = string_of(&cur);
        lines.push(line);
        assert(lines@.map_values(|l: String| l@) =~= before.push(cur@));
    }
    proof {
        lemma_wrap_widths(text@, max as nat);
        let lv = lines@.map_values(|l: String| l@);
        assert(lv == wrapped(text@, max as nat));
        assert forall|i: int| 0 <= i < lines@.len() && max >= 1 implies 0 < (#[trigger] lines@[i])@.len() <= max by {
            assert(lv[i] == lines@[i]@);
            assert(fits_or_word(wrapped(text@, max as nat)[i], max as nat));
        }
    }
    lines
}

} // verus!

verus! {

/// One wrapped line as a `<text>` element, at the printed x position `xs`.
pub open spec fn text_line(xs: Seq<char>, y10: nat, size10: nat, fill: Seq<char>, ln: Seq<char>) -> Seq<char> {
    "<text x=\""@ + xs + "\" y=\""@ + tenths_short(y10) + "\" font-size=\""@
        + tenths_short(size10) + "\" fill=\""@ + fill + "\">"@ + esc_seq(ln) + "</text>"@
}

/// Lines stacked from `y0` down in steps of `dy` (in tenths of a pixel), all
/// at the printed x position `xs`.
pub open spec fn stacked(ls: Seq<Seq<char>>, xs: Seq<char>, y010: nat, dy10: nat, size10: nat, fill: Seq<char>) -> Seq<char>
    decreases ls.len(),
{
    if ls.len() == 0 {
        Seq::empty()
    } else {
        stacked(ls.drop_last(), xs, y010, dy10, size10, fill)
            + text_line(xs, (y010 + (ls.len() - 1) * dy10) as nat, size10, fill, ls.last())
    }
}

/// Render wrapped lines as stacked `<text>` elements at the x position
/// printed as `xs`. The y positions and the font size are in tenths of a
/// pixel and print the way `{}` prints a float.
pub fn lines_at(text: &str, xs: &str, y010: u64, dy10: u64, size10: u64, fill: &str, max: usize) -> (res: String)
    ensures
        res@ == stacked(wrapped(text@, max as nat), xs@, y010 as nat, dy10 as nat, size10 as nat, fill@),
{
    let ls = wrap(text, max);
    let ghost lv = ls@.map_values(|l: String| l@);
    let mut out = String::new();
    for i in 0..ls.len()
        invariant
            lv == ls@.map_values(|l: String| l@),
            lv == wrapped(text@, max as nat),
            out@ == stacked(lv.take(i as int), xs@, y010 as nat, dy10 as nat, size10 as nat, fill@),
    {
        assert((i as int) * (dy10 as int) <= 0xFFFF_FFFF_FFFF_FFFF * 0xFFFF_FFFF_FFFF_FFFF) by (nonlinear_arith)
            requires 0 <= i <= 0xFFFF_FFFF_FFFF_FFFF, 0 <= dy10 <= 0xFFFF_FFFF_FFFF_FFFF;
        let step: u128 = (i as u128) * (dy10 as u128);
        let y: u128 = y010 as u128 + step;
        let ghost before = out@;
        out.append("<text x=\"");
        out.append(xs);
        out.append("\" y=\"");
        push_tenths_short_wide(&mut out, y);
        out.append("\" font-size=\"");
        push_tenths_short(&mut out, size10);
        out.append("\" fill=\"");
        out.append(fill);
        out.append("\">");
        push_esc(&mut out, ls[i].as_str());
        out.append("</text>");
        assert(lv.take(i + 1).drop_last() =~= lv.take(i as int));
        assert(out@ =~= before + text_line(xs@, y as nat, size10 as nat, fill@, lv[i as int]));
    }
    assert(lv.take(ls.len() as int) =~= lv);
    out
}

/// Render wrapped lines as stacked `<text>` elements. Coordinates and the
/// font size are in tenths of a pixel and print the way `{}` prints a float.
pub fn lines(text: &str, x10: u64, y010: u64, dy10: u64, size10: u64, fill: &str, max: usize) -> (res: String)
    ensures
        res@ == stacked(wrapped(text@, max as nat), tenths_short(x10 as nat), y010 as nat, dy10 as nat, size10 as nat, fill@),
{
    let mut xs = String::new();
    push_tenths_short(&mut xs, x10);
    assert(xs@ =~= tenths_short(x10 as nat));
    lines_at(text, xs.as_str(), y010, dy10, size10, fill, max)
}

} // verus!

verus! {

/// Escaping works character by character: escaping a concatenation
/// concatenates the escapes.
pub proof fn lemma_esc_concat(a: Seq<char>, b: Seq<char>)
    ensures
        esc_seq(a + b) == esc_seq(a) + esc_seq(b),
    decreases b.len(),
{
    if b.len() == 0 {
        assert(a + b =~= a);
        assert(esc_seq(a) + esc_seq(b) =~= esc_seq(a));
    } else {
        lemma_esc_concat(a, b.drop_last());
        assert((a + b).drop_last() =~= a + b.drop_last());
        assert(esc_seq(a) + esc_seq(b.drop_last()) + esc_char(b.last())
            =~= esc_seq(a) + (esc_seq(b.drop_last()) + esc_char(b.last())));
    }
}

/// Escaped text holds no `<` and no `>`: it cannot open or close a tag.
pub proof fn lemma_esc_no_angle(s: Seq<char>)
    ensures
        forall|i: int| 0 <= i < esc_seq(s).len() ==> esc_seq(s)[i] != '<' && esc_seq(s)[i] != '>',
    decreases s.len(),
{
    if s.len() > 0 {
        lemma_esc_no_angle(s.drop_last());
        let e = esc_seq(s.drop_last());
        let c = esc_char(s.last());
        assert forall|i: int| 0 <= i < esc_seq(s).len() implies esc_seq(s)[i] != '<' && esc_seq(s)[i] != '>' by {
            if i < e.len() {
                assert(esc_seq(s)[i] == e[i]);
            } else {
                assert(esc_seq(s)[i] == c[i - e.len()]);
            }
        }
    }
}

/// The escape of a non-empty text starts with the escape of its first character.
proof fn lemma_esc_first(s: Seq<char>)
    requires
        s.len() > 0,
    ensures
        esc_seq(s) == esc_char(s[0]) + esc_seq(s.drop_first()),
{
    lemma_esc_concat(seq![s[0]], s.drop_first());
    assert(seq![s[0]] + s.drop_first() =~= s);
    let one = seq![s[0]];
    assert(one.drop_last() =~= Seq::<char>::empty());
    assert(esc_seq(one.drop_last()) == Seq::<char>::empty());
    assert(one.last() == s[0]);
    assert(esc_seq(one) == esc_seq(one.drop_last()) + esc_char(one.last()));
    assert(esc_seq(one) =~= esc_char(s[0]));
}

/// Two characters whose escapes both begin the same text are the same
/// character: no escape is a proper prefix of another.
proof fn lemma_esc_char_prefix(c1: Seq<char>, c2: Seq<char>, x: char, y: char, e: Seq<char>)
    requires
        c1 == esc_char(x),
        c2 == esc_char(y),
        c1.len() <= e.len(),
        c2.len() <= e.len(),
        forall|i: int| 0 <= i < c1.len() ==> e[i] == c1[i],
        forall|i: int| 0 <= i < c2.len() ==> e[i] == c2[i],
    ensures
        x == y,
{
    assert(e[0] == c1[0] && e[0] == c2[0]);
    if c1.len() > 1 && c2.len() > 1 {
        assert(e[1] == c1[1] && e[1] == c2[1]);
    }
}

/// Escaping loses nothing: different texts have different escapes, so the
/// unescaped text can always be read back.
#[verifier::spinoff_prover]
pub proof fn lemma_esc_injective(a: Seq<char>, b: Seq<char>)
    requires
        esc_seq(a) == esc_seq(b),
    ensures
        a == b,
    decreases a.len() + b.len(),
{
    if a.len() == 0 || b.len() == 0 {
        if a.len() > 0 {
            lemma_esc_first(a);
        }
        if b.len() > 0 {
            lemma_esc_first(b);
        }
        assert(a =~= b);
    } else {
        lemma_esc_first(a);
        lemma_esc_first(b);
        let ea = esc_char(a[0]);
        let eb = esc_char(b[0]);
        let ra = esc_seq(a.drop_first());
        let rb = esc_seq(b.drop_first());
        let e = esc_seq(a);
        assert(e == ea + ra);
        assert(e == eb + rb);
        assert forall|i: int| 0 <= i < ea.len() implies e[i] == ea[i] by {}
        assert forall|i: int| 0 <= i < eb.len() implies e[i] == eb[i] by {}
        lemma_esc_char_prefix(ea, eb, a[0], b[0], e);
        assert(ra =~= e.skip(ea.len() as int));
        assert(rb =~= e.skip(eb.len() as int));
        lemma_esc_injective(a.drop_first(), b.drop_first());
        assert(a =~= seq![a[0]] + a.drop_first());
        assert(b =~= seq![b[0]] + b.drop_first());
    }
}

} // verus!

verus! {

/// `s` with every occurrence of the non-empty `pat` replaced by `rep`, found
/// from left to right without overlap (as `str::replace` does).
pub open spec fn replace_all(s: Seq<char>, pat: Seq<char>, rep: Seq<char>) -> Seq<char>
    decreases s.len(),
{
    if pat.len() == 0 || s.len() < pat.len() {
        s
    } else if s.take(pat.len() as int) == pat {
        rep + replace_all(s.skip(pat.len() as int), pat, rep)
    } else {
        seq![s[0]] + replace_all(s.skip(1), pat, rep)
    }
}

/// How many times `c` occurs in `s`.
pub open spec fn count_char(s: Seq<char>, c: char) -> nat
    decreases s.len(),
{
    if s.len() == 0 {
        0
    } else {
        count_char(s.drop_last(), c) + if s.last() == c { 1nat } else { 0nat }
    }
}

/// The three entities, and what each stands for.
pub open spec fn ent_lt() -> Seq<char> {
    seq!['&', 'l', 't', ';']
}

pub open spec fn ent_gt() -> Seq<char> {
    seq!['&', 'g', 't', ';']
}

pub open spec fn ent_amp() -> Seq<char> {
    seq!['&', 'a', 'm', 'p', ';']
}

/// A character after `k` of the three decoding steps (`&lt;`, then `&gt;`,
/// then `&amp;` put back).
spec fn stage_char(c: char, k: nat) -> Seq<char> {
    if k == 0 {
        esc_char(c)
    } else if k == 1 {
        if c == '<' { seq![c] } else { esc_char(c) }
    } else if k == 2 {
        if c == '<' || c == '>' { seq![c] } else { esc_char(c) }
    } else {
        seq![c]
    }
}

spec fn staged(s: Seq<char>, k: nat) -> Seq<char>
    decreases s.len(),
{
    if s.len() == 0 {
        Seq::empty()
    } else {
        stage_char(s[0], k) + staged(s.drop_first(), k)
    }
}

spec fn stage_pat(k: nat) -> Seq<char> {
    if k == 0 { ent_lt() } else if k == 1 { ent_gt() } else { ent_amp() }
}

spec fn stage_rep(k: nat) -> Seq<char> {
    if k == 0 { seq!['<'] } else if k == 1 { seq!['>'] } else { seq!['&'] }
}

/// Replacing in `p + t` leaves `p` as it is when no occurrence can start in `p`.
proof fn lemma_replace_skip(p: Seq<char>, t: Seq<char>, pat: Seq<char>, rep: Seq<char>)
    requires
        pat.len() >= 2,
        forall|i: int| 1 <= i < p.len() ==> p[i] != pat[0],
        p.len() > 0 ==> (p[0] != pat[0] || (p.len() >= 2 && p[1] != pat[1])),
    ensures
        replace_all(p + t, pat, rep) == p + replace_all(t, pat, rep),
    decreases p.len(),
{
    if p.len() == 0 {
        assert(p + t =~= t);
        assert(p + replace_all(t, pat, rep) =~= replace_all(t, pat, rep));
    } else {
        let s = p + t;
        if s.len() < pat.len() {
            assert(replace_all(t, pat, rep) == t);
        } else {
            if p[0] != pat[0] {
                assert(s.take(pat.len() as int)[0] == p[0]);
            } else {
                assert(s.take(pat.len() as int)[1] == p[1]);
            }
            assert(s.take(pat.len() as int) != pat);
            let q = p.drop_first();
            assert forall|i: int| 1 <= i < q.len() implies q[i] != pat[0] by {
                assert(q[i] == p[i + 1]);
            }
            if q.len() > 0 {
                assert(q[0] == p[1]);
            }
            lemma_replace_skip(q, t, pat, rep);
            assert(s.skip(1) =~= q + t);
            assert(seq![s[0]] + (q + replace_all(t, pat, rep)) =~= p + replace_all(t, pat, rep));
        }
    }
}

/// Replacing in `pat + t` turns the leading `pat` into `rep`.
proof fn lemma_replace_hit(t: Seq<char>, pat: Seq<char>, rep: Seq<char>)
    requires
        pat.len() > 0,
    ensures
        replace_all(pat + t, pat, rep) == rep + replace_all(t, pat, rep),
{
    let s = pat + t;
    assert(s.take(pat.len() as int) =~= pat);
    assert(s.skip(pat.len() as int) =~= t);
}

/// One decoding step takes stage `k` to stage `k + 1`.
proof fn lemma_stage_step(s: Seq<char>, k: nat)
    requires
        k < 3,
    ensures
        replace_all(staged(s, k), stage_pat(k), stage_rep(k)) == staged(s, k + 1),
    decreases s.len(),
{
    let pat = stage_pat(k);
    let rep = stage_rep(k);
    if s.len() == 0 {
        assert(replace_all(staged(s, k), pat, rep) == staged(s, k));
    } else {
        let c = s[0];
        let piece = stage_char(c, k);
        let rest = staged(s.drop_first(), k);
        lemma_stage_step(s.drop_first(), k);
        if piece == pat {
            lemma_replace_hit(rest, pat, rep);
            assert(stage_char(c, k + 1) == rep);
        } else {
            assert(stage_char(c, k + 1) == piece);
            assert forall|i: int| 1 <= i < piece.len() implies piece[i] != pat[0] by {}
            if piece.len() > 0 && piece[0] == pat[0] {
                assert(piece.len() >= 2 && piece[1] != pat[1]);
            }
            lemma_replace_skip(piece, rest, pat, rep);
        }
    }
}

/// Stage zero is the escape; stage three is the text itself.
proof fn lemma_stage_ends(s: Seq<char>)
    ensures
        staged(s, 0) == esc_seq(s),
        staged(s, 3) == s,
    decreases s.len(),
{
    if s.len() > 0 {
        lemma_stage_ends(s.drop_first());
        lemma_esc_first(s);
        assert(seq![s[0]] + s.drop_first() =~= s);
    }
}

/// Escaping is undone by replacing `&lt;` with `<`, then `&gt;` with `>`,
/// then `&amp;` with `&`: no entity is escaped twice and none is formed by
/// accident.
pub proof fn lemma_esc_decodes(s: Seq<char>)
    ensures
        replace_all(replace_all(replace_all(esc_seq(s), ent_lt(), seq!['<']), ent_gt(), seq!['>']), ent_amp(), seq!['&']) == s,
{
    lemma_stage_ends(s);
    lemma_stage_step(s, 0);
    lemma_stage_step(s, 1);
    lemma_stage_step(s, 2);
}

/// The escape is longer by four characters for each `&` and by three for
/// each `<` and each `>`.
pub proof fn lemma_esc_len(s: Seq<char>)
    ensures
        esc_seq(s).len() == s.len() + 4 * count_char(s, '&') + 3 * count_char(s, '<') + 3 * count_char(s, '>'),
    decreases s.len(),
{
    if s.len() > 0 {
        lemma_esc_len(s.drop_last());
    }
}

/// Every `&` of an escape begins one of the three entities.
pub proof fn lemma_esc_amp(s: Seq<char>)
    ensures
        forall|i: int| 0 <= i < esc_seq(s).len() && #[trigger] esc_seq(s)[i] == '&' ==> {
            ||| i + 5 <= esc_seq(s).len() && esc_seq(s).subrange(i, i + 5) == ent_amp()
            ||| i + 4 <= esc_seq(s).len() && esc_seq(s).subrange(i, i + 4) == ent_lt()
            ||| i + 4 <= esc_seq(s).len() && esc_seq(s).subrange(i, i + 4) == ent_gt()
        },
    decreases s.len(),
{
    if s.len() > 0 {
        lemma_esc_amp(s.drop_last());
        let e = esc_seq(s.drop_last());
        let c = esc_char(s.last());
        let full = esc_seq(s);
        assert(full == e + c);
        assert forall|i: int| 0 <= i < full.len() && #[trigger] full[i] == '&' implies {
            ||| i + 5 <= full.len() && full.subrange(i, i + 5) == ent_amp()
            ||| i + 4 <= full.len() && full.subrange(i, i + 4) == ent_lt()
            ||| i + 4 <= full.len() && full.subrange(i, i + 4) == ent_gt()
        } by {
            if i < e.len() {
                assert(full[i] == e[i]);
                if i + 5 <= e.len() && e.subrange(i, i + 5) == ent_amp() {
                    assert(full.subrange(i, i + 5) =~= e.subrange(i, i + 5));
                } else if i + 4 <= e.len() && e.subrange(i, i + 4) == ent_lt() {
                    assert(full.subrange(i, i + 4) =~= e.subrange(i, i + 4));
                } else {
                    assert(full.subrange(i, i + 4) =~= e.subrange(i, i + 4));
                }
            } else {
                assert(full[i] == c[i - e.len()]);
                assert(i == e.len());
                if s.last() == '&' {
                    assert(full.subrange(i, i + 5) =~= ent_amp());
                } else if s.last() == '<' {
                    assert(full.subrange(i, i + 4) =~= ent_lt());
                } else {
                    assert(full.subrange(i, i + 4) =~= ent_gt());
                }
            }
        }
    }
}

} // verus!

verus! {

/// A text holds no white space.
pub open spec fn solid(w: Seq<char>) -> bool {
    forall|j: int| 0 <= j < w.len() ==> !is_ws(#[trigger] w[j])
}

/// Every word is non-empty and holds no white space.
pub open spec fn all_words(ws: Seq<Seq<char>>) -> bool {
    forall|i: int| 0 <= i < ws.len() ==> (#[trigger] ws[i]).len() > 0 && solid(ws[i])
}

proof fn lemma_words_acc(s: Seq<char>)
    ensures
        all_words(words_acc(s).0),
        solid(words_acc(s).1),
    decreases s.len(),
{
    if s.len() > 0 {
        lemma_words_acc(s.drop_last());
        let (ws, cur) = words_acc(s.drop_last());
        let c = s.last();
        if !is_ws(c) {
            assert forall|j: int| 0 <= j < cur.push(c).len() implies !is_ws(#[trigger] cur.push(c)[j]) by {
                if j < cur.len() {
                    assert(cur.push(c)[j] == cur[j]);
                }
            }
        } else if cur.len() > 0 {
            assert forall|i: int| 0 <= i < ws.push(cur).len() implies (#[trigger] ws.push(cur)[i]).len() > 0
                && solid(ws.push(cur)[i]) by {
                if i < ws.len() {
                    assert(ws.push(cur)[i] == ws[i]);
                }
            }
        }
    }
}

/// The words of a text are non-empty and hold no white space.
pub proof fn lemma_words(s: Seq<char>)
    ensures
        all_words(words(s)),
{
    lemma_words_acc(s);
    let (ws, cur) = words_acc(s);
    if cur.len() > 0 {
        assert forall|i: int| 0 <= i < ws.push(cur).len() implies (#[trigger] ws.push(cur)[i]).len() > 0
            && solid(ws.push(cur)[i]) by {
            if i < ws.len() {
                assert(ws.push(cur)[i] == ws[i]);
            }
        }
    }
}

/// The lines and the line being filled, joined with spaces.
pub open spec fn flat(lines: Seq<Seq<char>>, cur: Seq<char>) -> Seq<char> {
    if cur.len() > 0 { joined(lines.push(cur), seq![' ']) } else { joined(lines, seq![' ']) }
}

/// A line either fits within `max` or is one word.
pub open spec fn fits_or_word(l: Seq<char>, max: nat) -> bool {
    l.len() > 0 && (l.len() <= max || solid(l))
}

proof fn lemma_fill_acc(ws: Seq<Seq<char>>, max: nat)
    requires
        all_words(ws),
    ensures
        ({
            let (lines, cur) = fill_acc(ws, max);
            &&& (cur.len() == 0) == (ws.len() == 0)
            &&& cur.len() == 0 ==> lines.len() == 0
            &&& cur.len() > 0 ==> fits_or_word(cur, max)
            &&& forall|i: int| 0 <= i < lines.len() ==> fits_or_word(#[trigger] lines[i], max)
            &&& flat(lines, cur) == joined(ws, seq![' '])
        }),
    decreases ws.len(),
{
    if ws.len() > 0 {
        let pre = ws.drop_last();
        assert forall|i: int| 0 <= i < pre.len() implies (#[trigger] pre[i]).len() > 0 && solid(pre[i]) by {
            assert(pre[i] == ws[i]);
        }
        lemma_fill_acc(pre, max);
        let (lines, cur) = fill_acc(pre, max);
        let w = ws.last();
        assert(w == ws[ws.len() - 1]);
        let sp = seq![' '];
        if cur.len() == 0 {
            assert(pre.len() == 0);
            assert(lines.push(w) =~= seq![w]);
            assert(ws =~= seq![w]);
            reveal_with_fuel(joined, 2);
        } else if cur.len() + 1 + w.len() <= max {
            let next = cur.push(' ') + w;
            assert(pre.len() > 0);
            assert(joined(ws, sp) == joined(pre, sp) + sp + w);
            assert(lines.push(next).drop_last() =~= lines);
            assert(lines.push(cur).drop_last() =~= lines);
            if lines.len() == 0 {
                assert(lines.push(next) =~= seq![next]);
                assert(lines.push(cur) =~= seq![cur]);
                assert(joined(lines.push(cur), sp) == cur);
                assert(next =~= cur + sp + w);
            } else {
                assert(joined(lines.push(next), sp) == joined(lines, sp) + sp + next);
                assert(joined(lines.push(cur), sp) == joined(lines, sp) + sp + cur);
                assert(joined(lines, sp) + sp + next =~= joined(lines, sp) + sp + cur + sp + w);
            }
        } else {
            assert(pre.len() > 0);
            assert(joined(ws, sp) == joined(pre, sp) + sp + w);
            let l2 = lines.push(cur);
            assert(l2.push(w).drop_last() =~= l2);
            assert(l2.len() > 0);
            assert(joined(l2.push(w), sp) == joined(l2, sp) + sp + w);
            assert forall|i: int| 0 <= i < l2.len() implies fits_or_word(#[trigger] l2[i], max) by {
                if i < lines.len() {
                    assert(l2[i] == lines[i]);
                }
            }
        }
    }
}

/// Greedy filling keeps every line within `max` when no piece is longer.
proof fn lemma_fill_short(ws: Seq<Seq<char>>, max: nat)
    requires
        forall|i: int| 0 <= i < ws.len() ==> (#[trigger] ws[i]).len() <= max,
    ensures
        fill_acc(ws, max).1.len() <= max,
        forall|i: int| 0 <= i < fill_acc(ws, max).0.len() ==> (#[trigger] fill_acc(ws, max).0[i]).len() <= max,
    decreases ws.len(),
{
    if ws.len() > 0 {
        let pre = ws.drop_last();
        assert forall|i: int| 0 <= i < pre.len() implies (#[trigger] pre[i]).len() <= max by {
            assert(pre[i] == ws[i]);
        }
        lemma_fill_short(pre, max);
        let (lines, cur) = fill_acc(pre, max);
        assert(ws.last() == ws[ws.len() - 1]);
        if cur.len() != 0 && cur.len() + 1 + ws.last().len() > max {
            assert forall|i: int| 0 <= i < lines.push(cur).len() implies (#[trigger] lines.push(cur)[i]).len() <= max by {
                if i < lines.len() {
                    assert(lines.push(cur)[i] == lines[i]);
                }
            }
        }
    }
}

/// Cutting a word loses nothing: its pieces, put back together, are the
/// word; each piece is a non-empty run without white space, none is longer
/// than `max` (when `max` is at least one), and a word that fits stays whole.
pub proof fn lemma_pieces(w: Seq<char>, max: nat)
    requires
        w.len() > 0,
        solid(w),
    ensures
        pieces(w, max).flatten() == w,
        all_words(pieces(w, max)),
        max >= 1 ==> forall|i: int| 0 <= i < pieces(w, max).len() ==> (#[trigger] pieces(w, max)[i]).len() <= max,
        (max == 0 || w.len() <= max) ==> pieces(w, max) == seq![w],
    decreases w.len(),
{
    if max == 0 || w.len() <= max {
        let one = seq![w];
        assert(one.first() == w);
        assert(one.drop_first() =~= Seq::<Seq<char>>::empty());
        assert(one.drop_first().flatten() == Seq::<char>::empty());
        assert(w + Seq::<char>::empty() =~= w);
    } else {
        let a = w.take(max as int);
        let r = w.skip(max as int);
        assert forall|j: int| 0 <= j < a.len() implies !is_ws(#[trigger] a[j]) by {
            assert(a[j] == w[j]);
        }
        assert forall|j: int| 0 <= j < r.len() implies !is_ws(#[trigger] r[j]) by {
            assert(r[j] == w[j + max]);
        }
        lemma_pieces(r, max);
        let ps = seq![a] + pieces(r, max);
        assert(ps.first() == a);
        assert(ps.drop_first() =~= pieces(r, max));
        assert(a + r =~= w);
        assert forall|i: int| 0 <= i < ps.len() implies (#[trigger] ps[i]).len() > 0 && solid(ps[i])
            && (max >= 1 ==> ps[i].len() <= max) by {
            if i > 0 {
                assert(ps[i] == pieces(r, max)[i - 1]);
            }
        }
    }
}

/// Cutting every word keeps the pieces non-empty and free of white space,
/// none longer than `max` (when `max` is at least one); when no word is
/// longer than `max`, nothing is cut.
pub proof fn lemma_chunks(ws: Seq<Seq<char>>, max: nat)
    requires
        all_words(ws),
    ensures
        all_words(chunks(ws, max)),
        max >= 1 ==> forall|i: int| 0 <= i < chunks(ws, max).len() ==> (#[trigger] chunks(ws, max)[i]).len() <= max,
        (forall|i: int| 0 <= i < ws.len() ==> (#[trigger] ws[i]).len() <= max) ==> chunks(ws, max) == ws,
    decreases ws.len(),
{
    if ws.len() > 0 {
        let pre = ws.drop_last();
        let w = ws.last();
        assert(w == ws[ws.len() - 1]);
        assert forall|i: int| 0 <= i < pre.len() implies (#[trigger] pre[i]).len() > 0 && solid(pre[i]) by {
            assert(pre[i] == ws[i]);
        }
        lemma_chunks(pre, max);
        lemma_pieces(w, max);
        let c = chunks(pre, max);
        let ps = pieces(w, max);
        assert forall|i: int| 0 <= i < (c + ps).len() implies (#[trigger] (c + ps)[i]).len() > 0 && solid((c + ps)[i])
            && (max >= 1 ==> (c + ps)[i].len() <= max) by {
            if i < c.len() {
                assert((c + ps)[i] == c[i]);
            } else {
                assert((c + ps)[i] == ps[i - c.len()]);
            }
        }
        if forall|i: int| 0 <= i < ws.len() ==> (#[trigger] ws[i]).len() <= max {
            assert forall|i: int| 0 <= i < pre.len() implies (#[trigger] pre[i]).len() <= max by {
                assert(pre[i] == ws[i]);
            }
            assert(c + seq![w] =~= ws);
        }
    } else {
        assert(chunks(ws, max) =~= ws);
    }
}

/// Wrapping loses and reorders nothing: the lines, joined with single
/// spaces, are the pieces of the words joined with single spaces; when no
/// word is longer than `max`, they are the words themselves.
pub proof fn lemma_wrap_keeps_words(text: Seq<char>, max: nat)
    ensures
        joined(wrapped(text, max), seq![' ']) == joined(chunks(words(text), max), seq![' ']),
        (forall|i: int| 0 <= i < words(text).len() ==> (#[trigger] words(text)[i]).len() <= max)
            ==> joined(wrapped(text, max), seq![' ']) == joined(words(text), seq![' ']),
{
    lemma_words(text);
    lemma_chunks(words(text), max);
    lemma_fill_acc(chunks(words(text), max), max);
}

/// Every wrapped line is non-empty and, for a `max` of at least one, holds at
/// most `max` characters; for a `max` of zero each line is a single word.
pub proof fn lemma_wrap_widths(text: Seq<char>, max: nat)
    ensures
        forall|i: int| 0 <= i < wrapped(text, max).len() ==> fits_or_word(#[trigger] wrapped(text, max)[i], max)
            && (max >= 1 ==> wrapped(text, max)[i].len() <= max),
{
    lemma_words(text);
    let cs = chunks(words(text), max);
    lemma_chunks(words(text), max);
    lemma_fill_acc(cs, max);
    if max >= 1 {
        lemma_fill_short(cs, max);
    }
    let (lines, cur) = fill_acc(cs, max);
    if cur.len() > 0 {
        assert forall|i: int| 0 <= i < lines.push(cur).len() implies fits_or_word(#[trigger] lines.push(cur)[i], max)
            && (max >= 1 ==> lines.push(cur)[i].len() <= max) by {
            if i < lines.len() {
                assert(lines.push(cur)[i] == lines[i]);
            }
        }
    }
}

} // verus!
