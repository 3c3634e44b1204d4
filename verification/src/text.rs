//! Character-level text building blocks: growing strings, decimal numbers and
//! fixed-point numbers written the way the cards print them.
use vstd::prelude::*;

verus! {

/// Appends one character to a string (`String::push`).
/// Claimed: the new contents are the old contents followed by `c`.
#[verifier::external_body]
pub(crate) fn push_char(s: &mut String, c: char)
    ensures
        final(s)@ == old(s)@.push(c),
{
    s.push(c);
}

/// The characters of `s`, in order.
pub fn chars_of(s: &str) -> (res: Vec<char>)
    ensures
        res@ == s@,
{
    let mut res: Vec<char> = Vec::new();
    for c in it: s.chars()
        invariant
            res@ == it.seq().take(it.index() as int),
    {
        res.push(c);
    }
    res
}

/// A string made of the characters of `cs`.
pub fn string_of(cs: &Vec<char>) -> (res: String)
    ensures
        res@ == cs@,
{
    let mut res = String::new();
    for i in 0..cs.len()
        invariant
            res@ == cs@.take(i as int),
    {
        push_char(&mut res, cs[i]);
        assert(cs@.take(i as int).push(cs@[i as int]) =~= cs@.take(i + 1));
    }
    assert(cs@.take(cs.len() as int) =~= cs@);
    res
}

/// An owned copy of a string slice.
pub fn owned(s: &str) -> (res: String)
    ensures
        res@ == s@,
{
    String::from_str(s)
}

/// The decimal digit character for `d < 10`.
pub open spec fn digit_char(d: nat) -> char {
    if d == 0 { '0' }
    else if d == 1 { '1' }
    else if d == 2 { '2' }
    else if d == 3 { '3' }
    else if d == 4 { '4' }
    else if d == 5 { '5' }
    else if d == 6 { '6' }
    else if d == 7 { '7' }
    else if d == 8 { '8' }
    else { '9' }
}

/// Whether `c` is one of the ten ASCII digits.
pub open spec fn is_digit(c: char) -> bool {
    '0' <= c && c <= '9'
}

/// The usual decimal notation of `n`, without leading zeros.
pub open spec fn dec(n: nat) -> Seq<char>
    decreases n,
{
    if n < 10 {
        seq![digit_char(n)]
    } else {
        dec(n / 10).push(digit_char(n % 10))
    }
}

/// The decimal notation of `n` left-padded with zeros to at least `width` characters.
pub open spec fn dec_pad(n: nat, width: nat) -> Seq<char> {
    let d = dec(n);
    if d.len() >= width {
        d
    } else {
        Seq::new((width - d.len()) as nat, |i: int| '0') + d
    }
}

/// `10^p`.
pub open spec fn pow10(p: nat) -> nat
    decreases p,
{
    if p == 0 { 1 } else { 10 * pow10((p - 1) as nat) }
}

/// A non-negative fixed-point number `v / 10^places` written with exactly
/// `places` digits after the point (the form of `{:.N}`).
pub open spec fn fixed(v: nat, places: nat) -> Seq<char> {
    if places == 0 {
        dec(v)
    } else {
        dec(v / pow10(places)) + seq!['.'] + dec_pad(v % pow10(places), places)
    }
}

/// A non-negative number of tenths written the way a float prints with `{}`:
/// whole numbers without a point, other values with one decimal.
pub open spec fn tenths_short(v: nat) -> Seq<char> {
    if v % 10 == 0 {
        dec(v / 10)
    } else {
        dec(v / 10) + seq!['.', digit_char(v % 10)]
    }
}

/// A non-negative number of hundredths written the way a float prints with `{}`:
/// trailing zeros after the point are dropped, and so is a bare point.
pub open spec fn hundredths_short(v: nat) -> Seq<char> {
    if v % 100 == 0 {
        dec(v / 100)
    } else if v % 10 == 0 {
        dec(v / 100) + seq!['.', digit_char((v % 100) / 10)]
    } else {
        dec(v / 100) + seq!['.'] + dec_pad(v % 100, 2)
    }
}

/// `num / den` rounded to the nearest integer, ties to the even neighbour:
/// the rounding that formatting a number to a fixed count of decimals uses.
pub open spec fn round_half_even(num: nat, den: nat) -> nat
    recommends
        den > 0,
{
    let q = num / den;
    let r = num % den;
    if 2 * r > den {
        q + 1
    } else if 2 * r < den {
        q
    } else if q % 2 == 0 {
        q
    } else {
        q + 1
    }
}

/// The digit character for `d`.
pub fn digit(d: u64) -> (c: char)
    requires
        d < 10,
    ensures
        c == digit_char(d as nat),
{
    if d == 0 { '0' }
    else if d == 1 { '1' }
    else if d == 2 { '2' }
    else if d == 3 { '3' }
    else if d == 4 { '4' }
    else if d == 5 { '5' }
    else if d == 6 { '6' }
    else if d == 7 { '7' }
    else if d == 8 { '8' }
    else { '9' }
}

/// Appends the decimal notation of `n` to `out`.
pub fn push_dec(out: &mut String, n: u64)
    ensures
        final(out)@ == old(out)@ + dec(n as nat),
    decreases n,
{
    if n < 10 {
        push_char(out, digit(n));
        assert(old(out)@.push(digit_char(n as nat)) =~= old(out)@ + dec(n as nat));
    } else {
        push_dec(out, n / 10);
        push_char(out, digit(n % 10));
        assert((old(out)@ + dec((n / 10) as nat)).push(digit_char((n % 10) as nat))
            =~= old(out)@ + dec(n as nat));
    }
}

/// The decimal notation of `n` (what `n.to_string()` gives).
pub fn fmt_dec(n: u64) -> (res: String)
    ensures
        res@ == dec(n as nat),
{
    let mut s = String::new();
    push_dec(&mut s, n);
    assert(Seq::<char>::empty() + dec(n as nat) =~= dec(n as nat));
    s
}

/// `dec(n)` never is empty, and it is a single digit exactly below ten.
pub proof fn lemma_dec_len(n: nat)
    ensures
        dec(n).len() >= 1,
        n < 10 <==> dec(n).len() == 1,
        n < 100 ==> dec(n).len() <= 2,
        n >= 10 ==> dec(n).len() >= 2,
        forall|i: int| 0 <= i < dec(n).len() ==> is_digit(#[trigger] dec(n)[i]),
    decreases n,
{
    if n >= 10 {
        lemma_dec_len(n / 10);
    }
}

/// Appends `dec_pad(n, width)` to `out`.
pub fn push_dec_pad(out: &mut String, n: u64, width: u64)
    requires
        width <= 32,
    ensures
        final(out)@ == old(out)@ + dec_pad(n as nat, width as nat),
{
    let digits = fmt_dec(n);
    let len = digits.as_str().unicode_len();
    let ghost start = out@;
    if len < width as usize {
        let mut k: usize = 0;
        while k < width as usize - len
            invariant
                len < width,
                width <= 32,
                k <= width - len,
                out@ == start + Seq::new(k as nat, |i: int| '0'),
            decreases width - len - k,
        {
            push_char(out, '0');
            assert(Seq::new(k as nat, |i: int| '0').push('0') =~= Seq::new((k + 1) as nat, |i: int| '0'));
            assert((start + Seq::new(k as nat, |i: int| '0')).push('0')
                =~= start + Seq::new((k + 1) as nat, |i: int| '0'));
            k = k + 1;
        }
        out.append(digits.as_str());
        assert(start + Seq::new((width - len) as nat, |i: int| '0') + dec(n as nat)
            =~= start + (Seq::new((width - len) as nat, |i: int| '0') + dec(n as nat)));
    } else {
        out.append(digits.as_str());
    }
}

/// Appends the fixed-point number `v / 10^places` with exactly `places` decimals.
pub fn push_fixed(out: &mut String, v: u64, places: u64)
    requires
        places <= 18,
    ensures
        final(out)@ == old(out)@ + fixed(v as nat, places as nat),
{
    if places == 0 {
        push_dec(out, v);
    } else {
        let p = pow10_exec(places);
        let ghost start = out@;
        push_dec(out, v / p);
        push_char(out, '.');
        push_dec_pad(out, v % p, places);
        assert(start + dec((v / p) as nat) + seq!['.'] + dec_pad((v % p) as nat, places as nat)
            =~= start + fixed(v as nat, places as nat));
    }
}

/// `10^p` for small `p`.
pub fn pow10_exec(p: u64) -> (r: u64)
    requires
        p <= 18,
    ensures
        r == pow10(p as nat),
        r >= 1,
{
    let mut r: u64 = 1;
    let mut i: u64 = 0;
    while i < p
        invariant
            i <= p <= 18,
            r == pow10(i as nat),
            1 <= r <= 1_000_000_000_000_000_000,
            r <= pow10(i as nat),
        decreases p - i,
    {
        proof { lemma_pow10_bound(i as nat); }
        r = r * 10;
        i = i + 1;
    }
    r
}

/// `10^p` grows with `p`; `10^17` bounds every power below `10^18`.
proof fn lemma_pow10_bound(p: nat)
    requires
        p < 18,
    ensures
        pow10(p) <= 100_000_000_000_000_000,
{
    lemma_pow10_mono(p, 17);
    reveal_with_fuel(pow10, 18);
    assert(pow10(17) == 100_000_000_000_000_000);
}

/// `10^p <= 10^q` when `p <= q`.
proof fn lemma_pow10_mono(p: nat, q: nat)
    requires
        p <= q,
    ensures
        1 <= pow10(p) <= pow10(q),
    decreases q,
{
    if q > p {
        lemma_pow10_mono(p, (q - 1) as nat);
    } else if p > 0 {
        lemma_pow10_mono((p - 1) as nat, (p - 1) as nat);
    }
}

/// Appends a number of tenths written the way `{}` prints it.
pub fn push_tenths_short(out: &mut String, v: u64)
    ensures
        final(out)@ == old(out)@ + tenths_short(v as nat),
{
    let ghost start = out@;
    push_dec(out, v / 10);
    if v % 10 != 0 {
        push_char(out, '.');
        push_char(out, digit(v % 10));
        assert(start + dec((v / 10) as nat) + seq!['.', digit_char((v % 10) as nat)]
            =~= (start + dec((v / 10) as nat)).push('.').push(digit_char((v % 10) as nat)));
    }
}

/// Appends a number of hundredths written the way `{}` prints it.
pub fn push_hundredths_short(out: &mut String, v: u64)
    ensures
        final(out)@ == old(out)@ + hundredths_short(v as nat),
{
    let ghost start = out@;
    push_dec(out, v / 100);
    if v % 100 == 0 {
    } else if v % 10 == 0 {
        push_char(out, '.');
        push_char(out, digit((v % 100) / 10));
        assert(start + dec((v / 100) as nat) + seq!['.', digit_char(((v % 100) / 10) as nat)]
            =~= (start + dec((v / 100) as nat)).push('.').push(digit_char(((v % 100) / 10) as nat)));
    } else {
        push_char(out, '.');
        push_dec_pad(out, v % 100, 2);
        assert(start + dec((v / 100) as nat) + seq!['.'] + dec_pad((v % 100) as nat, 2)
            =~= (start + dec((v / 100) as nat)).push('.') + dec_pad((v % 100) as nat, 2));
    }
}

/// `num / den` rounded half to even.
pub fn round_half_even_exec(num: u64, den: u64) -> (r: u64)
    requires
        den > 0,
    ensures
        r == round_half_even(num as nat, den as nat),
{
    let q = num / den;
    let rem = num % den;
    assert(q * den + rem == num) by (nonlinear_arith)
        requires q == num / den, rem == num % den, den > 0;
    // `q + 1` cannot overflow: it is only taken when `rem > 0`, so `q < num`.
    if rem as u128 * 2 > den as u128 {
        assert(q < u64::MAX) by (nonlinear_arith)
            requires q * den + rem == num, rem > 0, den > 0, num <= u64::MAX;
        q + 1
    } else if (rem as u128) * 2 < den as u128 {
        q
    } else if q % 2 == 0 {
        q
    } else {
        assert(q < u64::MAX) by (nonlinear_arith)
            requires q * den + rem == num, 2 * rem == den, den > 0, num <= u64::MAX;
        q + 1
    }
}

} // verus!

verus! {

/// Unicode `White_Space` (the property `char::is_whitespace` tests).
pub open spec fn is_ws(c: char) -> bool {
    ||| '\t' <= c && c <= '\r'
    ||| c == ' '
    ||| c == '\u{85}'
    ||| c == '\u{A0}'
    ||| c == '\u{1680}'
    ||| '\u{2000}' <= c && c <= '\u{200A}'
    ||| c == '\u{2028}'
    ||| c == '\u{2029}'
    ||| c == '\u{202F}'
    ||| c == '\u{205F}'
    ||| c == '\u{3000}'
}

/// Whether `c` is white space.
pub fn is_ws_exec(c: char) -> (b: bool)
    ensures
        b == is_ws(c),
{
    ('\t' <= c && c <= '\r') || c == ' ' || c == '\u{85}' || c == '\u{A0}' || c == '\u{1680}'
        || ('\u{2000}' <= c && c <= '\u{200A}') || c == '\u{2028}' || c == '\u{2029}'
        || c == '\u{202F}' || c == '\u{205F}' || c == '\u{3000}'
}

/// `s` with every white-space character removed.
pub open spec fn without_ws(s: Seq<char>) -> Seq<char> {
    s.filter(|c: char| !is_ws(c))
}

/// Removes every white-space character of `s`.
pub fn strip_ws(s: &str) -> (res: String)
    ensures
        res@ == without_ws(s@),
{
    let cs = chars_of(s);
    let mut res = String::new();
    for i in 0..cs.len()
        invariant
            res@ == without_ws(cs@.take(i as int)),
    {
        reveal_with_fuel(Seq::<_>::filter, 1);
        assert(cs@.take(i + 1).drop_last() =~= cs@.take(i as int));
        if !is_ws_exec(cs[i]) {
            push_char(&mut res, cs[i]);
        }
    }
    assert(cs@.take(cs.len() as int) =~= cs@);
    res
}

} // verus!

verus! {

/// The characters of an optional string.
pub open spec fn opt_view(o: Option<String>) -> Option<Seq<char>> {
    match o {
        Some(s) => Some(s@),
        None => None,
    }
}

} // verus!

verus! {

/// Whether two strings hold the same characters.
pub fn same_text(a: &str, b: &str) -> (res: bool)
    ensures
        res == (a@ == b@),
{
    let x = chars_of(a);
    let y = chars_of(b);
    if x.len() != y.len() {
        return false;
    }
    for i in 0..x.len()
        invariant
            x@ == a@,
            y@ == b@,
            x.len() == y.len(),
            forall|j: int| 0 <= j < i ==> x@[j] == y@[j],
    {
        if x[i] != y[i] {
            return false;
        }
    }
    assert(x@ =~= y@);
    true
}

/// `a` sorts before `b` character by character (the order of `str`, since
/// UTF-8 keeps the order of code points).
pub open spec fn text_lt(a: Seq<char>, b: Seq<char>) -> bool
    decreases a.len(),
{
    if a.len() == 0 {
        b.len() > 0
    } else if b.len() == 0 {
        false
    } else if a[0] != b[0] {
        a[0] < b[0]
    } else {
        text_lt(a.drop_first(), b.drop_first())
    }
}

/// Whether `a >= b` in the order of strings.
pub fn text_ge(a: &str, b: &str) -> (res: bool)
    ensures
        res == !text_lt(a@, b@),
{
    let x = chars_of(a);
    let y = chars_of(b);
    let mut i: usize = 0;
    assert(a@.skip(0) =~= a@);
    assert(b@.skip(0) =~= b@);
    while i < x.len() && i < y.len() && x[i] == y[i]
        invariant
            x@ == a@,
            y@ == b@,
            i <= x.len(),
            i <= y.len(),
            text_lt(a@, b@) == text_lt(a@.skip(i as int), b@.skip(i as int)),
        decreases x.len() - i,
    {
        assert(a@.skip(i as int).drop_first() =~= a@.skip(i + 1));
        assert(b@.skip(i as int).drop_first() =~= b@.skip(i + 1));
        i = i + 1;
    }
    if i == x.len() {
        // `a` ran out first (or both did): `a < b` exactly when `b` goes on.
        !(i < y.len())
    } else if i == y.len() {
        true
    } else {
        !(x[i] < y[i])
    }
}

} // verus!

verus! {

/// Below `10^k`, the decimal notation has at most `k` digits.
pub proof fn lemma_dec_len_bound(n: nat, k: nat)
    requires
        k >= 1,
        n < pow10(k),
    ensures
        dec(n).len() <= k,
    decreases k,
{
    if n >= 10 {
        assert(k >= 2) by {
            if k == 1 {
                assert(pow10(1) == 10) by { reveal_with_fuel(pow10, 2); }
            }
        }
        assert(n / 10 < pow10((k - 1) as nat));
        lemma_dec_len_bound(n / 10, (k - 1) as nat);
    }
}

/// Padding a number below `10^w` to `w` digits gives exactly `w` characters.
pub proof fn lemma_dec_pad_len(n: nat, w: nat)
    requires
        w >= 1,
        n < pow10(w),
    ensures
        dec_pad(n, w).len() == w,
{
    lemma_dec_len_bound(n, w);
}

} // verus!

verus! {

/// Appends the decimal notation of a wide number.
pub fn push_dec_wide(out: &mut String, n: u128)
    ensures
        final(out)@ == old(out)@ + dec(n as nat),
    decreases n,
{
    if n < 10 {
        push_char(out, digit(n as u64));
        assert(old(out)@.push(digit_char(n as nat)) =~= old(out)@ + dec(n as nat));
    } else {
        push_dec_wide(out, n / 10);
        push_char(out, digit((n % 10) as u64));
        assert((old(out)@ + dec((n / 10) as nat)).push(digit_char((n % 10) as nat))
            =~= old(out)@ + dec(n as nat));
    }
}

/// Appends a wide number of tenths written the way `{}` prints it.
pub fn push_tenths_short_wide(out: &mut String, v: u128)
    ensures
        final(out)@ == old(out)@ + tenths_short(v as nat),
{
    let ghost start = out@;
    push_dec_wide(out, v / 10);
    if v % 10 != 0 {
        push_char(out, '.');
        push_char(out, digit((v % 10) as u64));
        assert(start + dec((v / 10) as nat) + seq!['.', digit_char((v % 10) as nat)]
            =~= (start + dec((v / 10) as nat)).push('.').push(digit_char((v % 10) as nat)));
    }
}

} // verus!

verus! {

/// Appends a wide fixed-point number `v / 10^places` with exactly `places` decimals.
pub fn push_fixed_wide(out: &mut String, v: u128, places: u64)
    requires
        1 <= places <= 18,
    ensures
        final(out)@ == old(out)@ + fixed(v as nat, places as nat),
{
    let p = pow10_exec(places) as u128;
    let ghost start = out@;
    push_dec_wide(out, v / p);
    push_char(out, '.');
    push_dec_pad(out, (v % p) as u64, places);
    assert(start + dec((v / p) as nat) + seq!['.'] + dec_pad((v % p) as nat, places as nat)
        =~= start + fixed(v as nat, places as nat));
}

} // verus!

verus! {

/// A signed fixed-point number written with exactly `places` decimals.
pub open spec fn fixed_signed(v: int, places: nat) -> Seq<char> {
    if v < 0 {
        seq!['-'] + fixed((-v) as nat, places)
    } else {
        fixed(v as nat, places)
    }
}

/// Appends a signed fixed-point number with exactly `places` decimals.
pub fn push_fixed_signed(out: &mut String, v: i128, places: u64)
    requires
        1 <= places <= 18,
        v > i128::MIN,
    ensures
        final(out)@ == old(out)@ + fixed_signed(v as int, places as nat),
{
    if v < 0 {
        let ghost start = out@;
        push_char(out, '-');
        push_fixed_wide(out, (-v) as u128, places);
        assert(start.push('-') + fixed((-v) as nat, places as nat)
            =~= start + (seq!['-'] + fixed((-v) as nat, places as nat)));
    } else {
        push_fixed_wide(out, v as u128, places);
    }
}

} // verus!

verus! {

/// `num / den` rounded half to even, for wide numbers.
pub fn round_half_even_wide(num: u128, den: u128) -> (r: u128)
    requires
        den > 0,
        num < u128::MAX,
    ensures
        r == round_half_even(num as nat, den as nat),
{
    let q = num / den;
    let rem = num % den;
    assert(q * den + rem == num) by (nonlinear_arith)
        requires q == num / den, rem == num % den, den > 0;
    assert(q <= num) by (nonlinear_arith)
        requires q * den + rem == num, den > 0, rem >= 0, q >= 0;
    if rem > den - rem {
        q + 1
    } else if rem < den - rem {
        q
    } else if q % 2 == 0 {
        q
    } else {
        q + 1
    }
}

} // verus!

verus! {

/// Rounding never goes beyond the next whole number above the quotient.
pub proof fn lemma_round_half_even_bound(num: nat, den: nat)
    requires
        den >= 1,
    ensures
        round_half_even(num, den) <= num / den + 1,
        num / den <= num,
        round_half_even(num, den) <= num + 1,
{
    assert(num / den <= num) by (nonlinear_arith)
        requires den >= 1;
}

} // verus!

verus! {

/// The parts joined with `sep` between neighbours.
pub open spec fn joined(parts: Seq<Seq<char>>, sep: Seq<char>) -> Seq<char>
    decreases parts.len(),
{
    if parts.len() == 0 {
        Seq::empty()
    } else if parts.len() == 1 {
        parts[0]
    } else {
        joined(parts.drop_last(), sep) + sep + parts.last()
    }
}

/// Joins the strings with `sep` between neighbours (`[String]::join`).
pub fn join(parts: &Vec<String>, sep: &str) -> (res: String)
    ensures
        res@ == joined(parts@.map_values(|s: String| s@), sep@),
{
    let ghost pv = parts@.map_values(|s: String| s@);
    let mut out = String::new();
    for i in 0..parts.len()
        invariant
            pv == parts@.map_values(|s: String| s@),
            out@ == joined(pv.take(i as int), sep@),
    {
        assert(pv.take(i + 1).drop_last() =~= pv.take(i as int));
        if i > 0 {
            out.append(sep);
        } else {
            assert(Seq::<char>::empty() + pv[0] =~= pv[0]);
        }
        out.append(parts[i].as_str());
    }
    assert(pv.take(parts.len() as int) =~= pv);
    out
}

} // verus!
