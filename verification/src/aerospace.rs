//! The text exchanged with the Aerospace command line: the focused window's
//! id in its output, the signed size change given to `aerospace resize`,
//! and whether a resize of one or two axes succeeded.

use vstd::prelude::*;
use vstd::string::*;

verus! {

/// Whether a char has Unicode's White_Space property: U+0009 to U+000D,
/// U+0020, U+0085, U+00A0, U+1680, U+2000 to U+200A, U+2028, U+2029,
/// U+202F, U+205F and U+3000.
pub open spec fn unicode_whitespace(c: char) -> bool {
    ||| '\u{9}' <= c <= '\u{d}'
    ||| c == ' '
    ||| c == '\u{85}'
    ||| c == '\u{a0}'
    ||| c == '\u{1680}'
    ||| '\u{2000}' <= c <= '\u{200a}'
    ||| c == '\u{2028}'
    ||| c == '\u{2029}'
    ||| c == '\u{202f}'
    ||| c == '\u{205f}'
    ||| c == '\u{3000}'
}

/// Calls `char::is_whitespace`, which is true exactly of the chars with
/// Unicode's White_Space property.
#[verifier::external_body]
fn is_whitespace(c: char) -> (r: bool)
    ensures
        r == unicode_whitespace(c),
{
    c.is_whitespace()
}

/// Calls `String::push`, which appends the char.
#[verifier::external_body]
fn push_char(s: &mut String, c: char)
    ensures
        final(s)@ == old(s)@.push(c),
{
    s.push(c)
}

/// The chars after the leading whitespace.
pub open spec fn without_leading_ws(s: Seq<char>) -> Seq<char>
    decreases s.len(),
{
    if s.len() > 0 && unicode_whitespace(s[0]) {
        without_leading_ws(s.drop_first())
    } else {
        s
    }
}

/// The chars before the trailing whitespace.
pub open spec fn without_trailing_ws(s: Seq<char>) -> Seq<char>
    decreases s.len(),
{
    if s.len() > 0 && unicode_whitespace(s.last()) {
        without_trailing_ws(s.drop_last())
    } else {
        s
    }
}

/// The chars without leading and trailing whitespace.
pub open spec fn trimmed(s: Seq<char>) -> Seq<char> {
    without_trailing_ws(without_leading_ws(s))
}

/// The window id in the output of `aerospace list-windows --focused`: the
/// output without surrounding whitespace, where that is not empty.
pub open spec fn window_id_in(s: Seq<char>) -> Option<Seq<char>> {
    if trimmed(s).len() == 0 {
        None
    } else {
        Some(trimmed(s))
    }
}

/// The bounds of what is left of a row of chars, given for each whether it
/// is whitespace, once the leading and trailing whitespace is cut: the
/// first bound is the count of leading whitespace, the second is where the
/// trailing whitespace begins (the length, where all is whitespace).
pub fn trim_bounds(ws: &Vec<bool>) -> (r: (usize, usize))
    ensures
        r.0 <= r.1 <= ws@.len(),
        forall|i: int| 0 <= i < r.0 ==> ws@[i],
        r.0 < ws@.len() ==> !ws@[r.0 as int],
        forall|i: int| r.1 <= i < ws@.len() ==> ws@[i],
        r.0 < r.1 ==> !ws@[r.1 - 1],
        r.0 == ws@.len() ==> r.1 == ws@.len(),
{
    let n: usize = ws.len();
    let mut start: usize = 0;
    while start < n && ws[start]
        invariant
            n == ws@.len(),
            start <= n,
            forall|i: int| 0 <= i < start ==> ws@[i],
        decreases n - start,
    {
        start = start + 1;
    }
    let mut end: usize = n;
    while end > start && ws[end - 1]
        invariant
            n == ws@.len(),
            start <= end <= n,
            start < n ==> !ws@[start as int],
            forall|i: int| end <= i < n ==> ws@[i],
        decreases end - start,
    {
        end = end - 1;
    }
    (start, end)
}

proof fn lemma_cut_leading(s: Seq<char>, k: int)
    requires
        0 <= k <= s.len(),
        forall|i: int| 0 <= i < k ==> unicode_whitespace(#[trigger] s[i]),
    ensures
        without_leading_ws(s) == without_leading_ws(s.subrange(k, s.len() as int)),
    decreases k,
{
    if k == 0 {
        assert(s.subrange(0, s.len() as int) =~= s);
    } else {
        lemma_cut_leading(s, k - 1);
        let t = s.subrange(k - 1, s.len() as int);
        assert(t[0] == s[k - 1]);
        assert(t.drop_first() =~= s.subrange(k, s.len() as int));
    }
}

proof fn lemma_cut_trailing(s: Seq<char>, k: int)
    requires
        0 <= k <= s.len(),
        forall|i: int| k <= i < s.len() ==> unicode_whitespace(#[trigger] s[i]),
    ensures
        without_trailing_ws(s) == without_trailing_ws(s.subrange(0, k)),
    decreases s.len() - k,
{
    if k == s.len() {
        assert(s.subrange(0, k) =~= s);
    } else {
        lemma_cut_trailing(s, k + 1);
        let t = s.subrange(0, k + 1);
        assert(t.last() == s[k]);
        assert(t.drop_last() =~= s.subrange(0, k));
    }
}

/// The chars of `s` without leading and trailing whitespace.
pub fn trim_whitespace(s: &str) -> (r: String)
    ensures
        r@ == trimmed(s@),
{
    let n: usize = s.unicode_len();
    let mut ws: Vec<bool> = Vec::new();
    let mut i: usize = 0;
    while i < n
        invariant
            n == s@.len(),
            i <= n,
            ws@.len() == i,
            forall|j: int| 0 <= j < i ==> ws@[j] == unicode_whitespace(#[trigger] s@[j]),
        decreases n - i,
    {
        ws.push(is_whitespace(s.get_char(i)));
        i = i + 1;
    }
    let (start, end): (usize, usize) = trim_bounds(&ws);
    proof {
        let len: int = s@.len() as int;
        lemma_cut_leading(s@, start as int);
        let lead = s@.subrange(start as int, len);
        if start < n {
            assert(lead[0] == s@[start as int]);
        } else {
            assert(lead.len() == 0);
        }
        assert(without_leading_ws(lead) == lead);
        assert forall|j: int| end - start <= j < lead.len() implies unicode_whitespace(
            #[trigger] lead[j],
        ) by {
            assert(lead[j] == s@[start + j]);
        }
        lemma_cut_trailing(lead, end - start);
        let core = lead.subrange(0, end - start);
        if start < end {
            assert(core.last() == s@[end - 1]);
        }
        assert(without_trailing_ws(core) == core);
        assert(core =~= s@.subrange(start as int, end as int));
    }
    let t = s.substring_char(start, end);
    String::from_str(t)
}

/// The window id in the output of `aerospace list-windows --focused`, or
/// none where the output holds only whitespace.
pub fn parse_window_id(output: &str) -> (r: Option<String>)
    ensures
        match r {
            Some(id) => window_id_in(output@) == Some(id@),
            None => window_id_in(output@) is None,
        },
{
    let t = trim_whitespace(output);
    if t.as_str().unicode_len() == 0 {
        None
    } else {
        Some(t)
    }
}

/// Where the leading whitespace ends.
proof fn lemma_leading(s: Seq<char>) -> (a: int)
    ensures
        0 <= a <= s.len(),
        without_leading_ws(s) == s.subrange(a, s.len() as int),
        forall|i: int| 0 <= i < a ==> unicode_whitespace(#[trigger] s[i]),
        a < s.len() ==> !unicode_whitespace(s[a]),
    decreases s.len(),
{
    if s.len() > 0 && unicode_whitespace(s[0]) {
        let a0 = lemma_leading(s.drop_first());
        assert(s.drop_first().subrange(a0, s.drop_first().len() as int) =~= s.subrange(a0 + 1, s.len() as int));
        assert forall|i: int| 0 <= i < a0 + 1 implies unicode_whitespace(#[trigger] s[i]) by {
            if i > 0 {
                assert(s[i] == s.drop_first()[i - 1]);
            }
        }
        a0 + 1
    } else {
        assert(s.subrange(0, s.len() as int) =~= s);
        0
    }
}

/// Where the trailing whitespace begins.
proof fn lemma_trailing(s: Seq<char>) -> (b: int)
    ensures
        0 <= b <= s.len(),
        without_trailing_ws(s) == s.subrange(0, b),
        forall|i: int| b <= i < s.len() ==> unicode_whitespace(#[trigger] s[i]),
        b > 0 ==> !unicode_whitespace(s[b - 1]),
    decreases s.len(),
{
    if s.len() > 0 && unicode_whitespace(s.last()) {
        let b0 = lemma_trailing(s.drop_last());
        assert(s.drop_last().subrange(0, b0) =~= s.subrange(0, b0));
        assert forall|i: int| b0 <= i < s.len() implies unicode_whitespace(#[trigger] s[i]) by {
            if i < s.len() - 1 {
                assert(s[i] == s.drop_last()[i]);
            }
        }
        b0
    } else {
        assert(s.subrange(0, s.len() as int) =~= s);
        s.len() as int
    }
}

/// The window id is the output with its surrounding whitespace cut: a
/// piece of the output, in order, that begins and ends with a char that is
/// not whitespace, with only whitespace before and after it. There is none
/// exactly where the output is all whitespace.
pub proof fn law_window_id(s: Seq<char>)
    ensures
        window_id_in(s) is None <==> forall|i: int| 0 <= i < s.len() ==> unicode_whitespace(#[trigger] s[i]),
        window_id_in(s) matches Some(t) ==> exists|a: int, b: int|
            {
                &&& 0 <= a < b <= s.len()
                &&& t == s.subrange(a, b)
                &&& !unicode_whitespace(s[a])
                &&& !unicode_whitespace(s[b - 1])
                &&& forall|i: int| 0 <= i < a ==> unicode_whitespace(#[trigger] s[i])
                &&& forall|i: int| b <= i < s.len() ==> unicode_whitespace(#[trigger] s[i])
            },
{
    let a = lemma_leading(s);
    let u = s.subrange(a, s.len() as int);
    let b0 = lemma_trailing(u);
    let b = a + b0;
    assert(u.subrange(0, b0) =~= s.subrange(a, b));
    assert(trimmed(s) == s.subrange(a, b));
    assert forall|i: int| b <= i < s.len() implies unicode_whitespace(#[trigger] s[i]) by {
        assert(s[i] == u[i - a]);
    }
    if b0 > 0 {
        assert(s[b - 1] == u[b0 - 1]);
        assert(window_id_in(s) == Some(s.subrange(a, b)));
        assert(!unicode_whitespace(s[a]));
        assert(!(forall|i: int| 0 <= i < s.len() ==> unicode_whitespace(#[trigger] s[i])));
    } else {
        assert(trimmed(s).len() == 0);
        assert forall|i: int| 0 <= i < s.len() implies unicode_whitespace(#[trigger] s[i]) by {
            if i >= a {
                assert(b <= i);
            }
        }
    }
}

/// The decimal digit of a number under ten.
pub open spec fn digit_char(d: nat) -> char {
    ((('0' as u32) as nat + d) as u32) as char
}

/// The decimal digits of a number, most significant first.
pub open spec fn decimal(n: nat) -> Seq<char>
    decreases n,
{
    if n < 10 {
        seq![digit_char(n)]
    } else {
        decimal(n / 10).push(digit_char(n % 10))
    }
}

/// A number with its sign written out, as `{:+}` formats it.
pub open spec fn signed_decimal(d: int) -> Seq<char> {
    if d >= 0 {
        seq!['+'] + decimal(d as nat)
    } else {
        seq!['-'] + decimal((-d) as nat)
    }
}

/// The digits of a number above zero, where `m` of it is left to write.
spec fn digits_left(m: nat) -> Seq<char> {
    if m == 0 {
        Seq::empty()
    } else {
        decimal(m)
    }
}

proof fn lemma_digits_step(m: nat)
    requires
        m > 0,
    ensures
        digits_left(m) == digits_left(m / 10).push(digit_char(m % 10)),
{
    if m < 10 {
        assert(m / 10 == 0);
        assert(m % 10 == m);
        assert(Seq::<char>::empty().push(digit_char(m)) =~= seq![digit_char(m)]);
    }
}

/// The char of a decimal digit.
fn digit_to_char(d: u64) -> (c: char)
    requires
        d < 10,
    ensures
        c == digit_char(d as nat),
{
    match d {
        0 => '0',
        1 => '1',
        2 => '2',
        3 => '3',
        4 => '4',
        5 => '5',
        6 => '6',
        7 => '7',
        8 => '8',
        _ => '9',
    }
}

/// The size change handed to `aerospace resize`, with its sign written out
/// as `{:+}` formats it (`+40`, `-12`).
pub fn signed_delta_arg(delta: i64) -> (r: String)
    ensures
        r@ == signed_decimal(delta as int),
{
    let magnitude: u64 = if delta >= 0 {
        delta as u64
    } else {
        ((-(delta + 1)) as u64) + 1
    };
    assert(magnitude as int == if delta >= 0 { delta as int } else { -(delta as int) });
    let mut digits: Vec<char> = Vec::new();
    if magnitude == 0 {
        digits.push('0');
        assert(decimal(0) == seq![digit_char(0)]);
        assert(digit_char(0) == '0');
    } else {
        let mut m: u64 = magnitude;
        while m > 0
            invariant
                magnitude > 0,
                decimal(magnitude as nat) == digits_left(m as nat) + digits@.reverse(),
            decreases m,
        {
            proof {
                lemma_digits_step(m as nat);
            }
            let c = digit_to_char(m % 10);
            let ghost old_digits = digits@;
            digits.push(c);
            proof {
                assert(c == digit_char((m % 10) as nat));
                assert(digits@.reverse() =~= seq![c] + old_digits.reverse());
                assert(digits_left((m / 10) as nat).push(c) + old_digits.reverse()
                    =~= digits_left((m / 10) as nat) + digits@.reverse());
            }
            m = m / 10;
        }
        assert(digits_left(0) + digits@.reverse() =~= digits@.reverse());
    }
    assert(decimal(magnitude as nat) =~= digits@.reverse());
    let mut r = String::new();
    if delta >= 0 {
        push_char(&mut r, '+');
    } else {
        push_char(&mut r, '-');
    }
    let mut i: usize = digits.len();
    while i > 0
        invariant
            i <= digits@.len(),
            r@.len() == 1 + digits@.len() - i,
            r@[0] == (if delta >= 0 { '+' } else { '-' }),
            r@.subrange(1, r@.len() as int) =~= digits@.reverse().subrange(0, digits@.len() - i),
        decreases i,
    {
        let ghost before = r@;
        push_char(&mut r, digits[i - 1]);
        proof {
            assert(r@.subrange(1, r@.len() as int) =~= before.subrange(1, before.len() as int).push(
                digits@[i - 1],
            ));
            assert(digits@.reverse().subrange(0, digits@.len() - (i - 1)) =~= digits@.reverse().subrange(
                0,
                digits@.len() - i,
            ).push(digits@[i - 1]));
        }
        i = i - 1;
    }
    proof {
        let sign = if delta >= 0 { '+' } else { '-' };
        assert(r@ =~= seq![sign] + r@.subrange(1, r@.len() as int));
        assert(digits@.reverse().subrange(0, digits@.len() as int) =~= digits@.reverse());
    }
    r
}

/// The value of a row of decimal digits, most significant first.
pub open spec fn digits_value(s: Seq<char>) -> int
    decreases s.len(),
{
    if s.len() == 0 {
        0
    } else {
        digits_value(s.drop_last()) * 10 + (s.last() as int - '0' as int)
    }
}

proof fn lemma_decimal(n: nat)
    ensures
        decimal(n).len() >= 1,
        forall|i: int| 0 <= i < decimal(n).len() ==> '0' <= #[trigger] decimal(n)[i] <= '9',
        decimal(n)[0] == '0' ==> n == 0 && decimal(n).len() == 1,
        digits_value(decimal(n)) == n,
    decreases n,
{
    if n < 10 {
        assert(digit_char(n) as int == 48 + n);
        assert(decimal(n).drop_last() =~= Seq::<char>::empty());
        assert(digits_value(Seq::<char>::empty()) == 0);
        assert(digits_value(decimal(n)) == digits_value(decimal(n).drop_last()) * 10 + (digit_char(n) as int
            - '0' as int));
    } else {
        lemma_decimal(n / 10);
        let d = digit_char(n % 10);
        assert(d as int == 48 + n % 10);
        let p = decimal(n / 10);
        assert(decimal(n) == p.push(d));
        assert(decimal(n).drop_last() =~= p);
        assert(decimal(n)[0] == p[0]);
        assert(forall|i: int| 0 <= i < p.len() ==> decimal(n)[i] == p[i]);
        assert(digits_value(decimal(n)) == digits_value(p) * 10 + (d as int - '0' as int));
        assert((n / 10) * 10 + n % 10 == n);
    }
}

/// The size change handed to `aerospace resize` is its sign, `+` for zero
/// and above and `-` below, then the decimal digits of its size, with no
/// leading zero, whose value is the size.
pub proof fn law_signed_decimal(d: int)
    ensures
        signed_decimal(d).len() >= 2,
        signed_decimal(d)[0] == (if d >= 0 { '+' } else { '-' }),
        forall|i: int| 1 <= i < signed_decimal(d).len() ==> '0' <= #[trigger] signed_decimal(d)[i] <= '9',
        signed_decimal(d).len() > 2 ==> signed_decimal(d)[1] != '0',
        digits_value(signed_decimal(d).drop_first()) == (if d >= 0 { d } else { -d }),
{
    let m: nat = if d >= 0 { d as nat } else { (-d) as nat };
    lemma_decimal(m);
    let sign = if d >= 0 { '+' } else { '-' };
    assert(signed_decimal(d) == seq![sign] + decimal(m));
    assert(signed_decimal(d).drop_first() =~= decimal(m));
    assert forall|i: int| 1 <= i < signed_decimal(d).len() implies '0' <= #[trigger] signed_decimal(d)[i]
        <= '9' by {
        assert(signed_decimal(d)[i] == decimal(m)[i - 1]);
    }
}

/// Whether a resize through Aerospace succeeded: some axis that had to
/// change did, or no axis had to change. `width_ok` and `height_ok` are
/// what the resize of each axis reported; an axis whose change is zero is
/// not resized.
pub fn resize_succeeded(width_delta: i64, height_delta: i64, width_ok: bool, height_ok: bool) -> (r: bool)
    ensures
        r == ((width_delta != 0 && width_ok) || (height_delta != 0 && height_ok) || (width_delta
            == 0 && height_delta == 0)),
{
    let mut any_succeeded = false;
    if width_delta != 0 && width_ok {
        any_succeeded = true;
    }
    if height_delta != 0 && height_ok {
        any_succeeded = true;
    }
    if width_delta == 0 && height_delta == 0 {
        any_succeeded = true;
    }
    any_succeeded
}

} // verus!
