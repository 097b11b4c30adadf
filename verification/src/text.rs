//! Character-level helpers: literal comparison, number formatting and
//! number recognition, shared by the encoder, decoder and source emitter.

use vstd::prelude::*;

verus! {

/// `true` exactly when the two strings hold the same characters.
pub fn str_is(a: &str, b: &str) -> (r: bool)
    ensures
        r == (a@ == b@),
{
    let x = a.to_owned();
    let y = b.to_owned();
    x == y
}

/// Copies a string slice into an owned `String`.
pub fn owned(s: &str) -> (r: String)
    ensures
        r@ == s@,
{
    s.to_owned()
}

/// Appends one character (`String::push`).
#[verifier::external_body]
pub fn push_char(s: &mut String, c: char)
    ensures
        final(s)@ == old(s)@.push(c),
{
    s.push(c);
}

/// Appends a string slice.
pub fn push_str(s: &mut String, t: &str)
    ensures
        final(s)@ == old(s)@ + t@,
{
    s.append(t);
}

/// Character `i` of `s`, counted in characters.
pub fn char_at(s: &str, i: usize) -> (c: char)
    requires
        i < s@.len(),
    ensures
        c == s@[i as int],
{
    s.get_char(i)
}

/// Number of characters of `s`.
pub fn char_len(s: &str) -> (n: usize)
    ensures
        n == s@.len(),
{
    s.unicode_len()
}

/// Hexadecimal digit for `d < 16` (lower case).
pub open spec fn hex_digit(d: nat) -> char {
    if d < 10 {
        ((d + 48) as u8) as char
    } else {
        ((d + 87) as u8) as char
    }
}

/// Lower-case hexadecimal text of `n`, without leading zeros.
pub open spec fn hex_text(n: nat) -> Seq<char>
    decreases n,
{
    if n < 16 {
        seq![hex_digit(n)]
    } else {
        hex_text(n / 16).push(hex_digit(n % 16))
    }
}

/// Decimal text of `n`, without leading zeros.
pub open spec fn dec_text(n: nat) -> Seq<char>
    decreases n,
{
    if n < 10 {
        seq![hex_digit(n)]
    } else {
        dec_text(n / 10).push(hex_digit(n % 10))
    }
}

/// Decimal text of a signed integer, with a leading `-` when negative.
pub open spec fn int_text(i: int) -> Seq<char> {
    if i < 0 {
        seq!['-'] + dec_text((-i) as nat)
    } else {
        dec_text(i as nat)
    }
}

fn digit_char(d: u64) -> (c: char)
    requires
        d < 16,
    ensures
        c == hex_digit(d as nat),
{
    if d < 10 {
        ((d as u8) + 48) as char
    } else {
        ((d as u8) + 87) as char
    }
}

/// Appends the hexadecimal text of `n` to `out`.
fn push_hex(out: &mut String, n: u64)
    ensures
        final(out)@ == old(out)@ + hex_text(n as nat),
    decreases n,
{
    if n < 16 {
        push_char(out, digit_char(n));
        assert(hex_text(n as nat) == seq![hex_digit(n as nat)]);
        assert(old(out)@.push(hex_digit(n as nat)) =~= old(out)@ + seq![hex_digit(n as nat)]);
    } else {
        push_hex(out, n / 16);
        let ghost mid = out@;
        push_char(out, digit_char(n % 16));
        assert(old(out)@ + hex_text(n as nat) =~= mid.push(hex_digit((n % 16) as nat)));
    }
}

/// Lower-case hexadecimal text of `n`.
pub fn hex_string(n: u64) -> (r: String)
    ensures
        r@ == hex_text(n as nat),
{
    let mut s = String::new();
    push_hex(&mut s, n);
    assert(s@ =~= hex_text(n as nat));
    s
}

/// Appends the decimal text of `n` to `out`.
fn push_dec(out: &mut String, n: u64)
    ensures
        final(out)@ == old(out)@ + dec_text(n as nat),
    decreases n,
{
    if n < 10 {
        push_char(out, digit_char(n));
        assert(old(out)@.push(hex_digit(n as nat)) =~= old(out)@ + seq![hex_digit(n as nat)]);
    } else {
        push_dec(out, n / 10);
        let ghost mid = out@;
        push_char(out, digit_char(n % 10));
        assert(old(out)@ + dec_text(n as nat) =~= mid.push(hex_digit((n % 10) as nat)));
    }
}

/// Decimal text of an unsigned count.
pub fn usize_string(n: usize) -> (r: String)
    ensures
        r@ == dec_text(n as nat),
{
    let mut s = String::new();
    push_dec(&mut s, n as u64);
    assert(s@ =~= dec_text(n as nat));
    s
}

/// Decimal text of a signed 64-bit integer.
pub fn i64_string(i: i64) -> (r: String)
    ensures
        r@ == int_text(i as int),
{
    let mut s = String::new();
    if i < 0 {
        push_char(&mut s, '-');
        let m: u64 = if i == i64::MIN {
            9223372036854775808u64
        } else {
            (-i) as u64
        };
        push_dec(&mut s, m);
        assert(s@ =~= int_text(i as int));
    } else {
        push_dec(&mut s, i as u64);
        assert(s@ =~= int_text(i as int));
    }
    s
}


/// `true` when every character of `s` is an ASCII decimal digit.
pub open spec fn all_digits(s: Seq<char>) -> bool {
    forall|i: int| 0 <= i < s.len() ==> '0' <= #[trigger] s[i] <= '9'
}

/// Value of a run of decimal digits.
pub open spec fn digits_value(s: Seq<char>) -> nat
    decreases s.len(),
{
    if s.len() == 0 {
        0
    } else {
        digits_value(s.drop_last()) * 10 + ((s.last() as int) - 48) as nat
    }
}

/// Sign and digit part of a decimal integer text.
pub open spec fn sign_split(s: Seq<char>) -> (bool, Seq<char>) {
    if s.len() > 0 && s[0] == '-' {
        (true, s.drop_first())
    } else if s.len() > 0 && s[0] == '+' {
        (false, s.drop_first())
    } else {
        (false, s)
    }
}

/// What `str::parse::<i64>` accepts: an optional sign, then one or more
/// decimal digits, with the value inside the range of `i64`.
pub open spec fn parsed_int(s: Seq<char>) -> Option<int> {
    let neg = sign_split(s).0;
    let digits = sign_split(s).1;
    if digits.len() == 0 || !all_digits(digits) {
        None
    } else {
        let v: int = if neg { -(digits_value(digits) as int) } else { digits_value(digits) as int };
        if i64::MIN <= v <= i64::MAX { Some(v) } else { None }
    }
}

/// Decimal text reads back as its number.
pub proof fn lemma_dec_text_value(n: nat)
    ensures
        digits_value(dec_text(n)) == n,
    decreases n,
{
    if n < 10 {
        let d = dec_text(n);
        assert(d.drop_last().len() == 0);
        assert(digits_value(d.drop_last()) == 0);
        assert((hex_digit(n) as int) == n + 48);
    } else {
        lemma_dec_text_value(n / 10);
        let d = dec_text(n);
        assert(d.drop_last() =~= dec_text(n / 10));
        assert((hex_digit(n % 10) as int) == n % 10 + 48);
    }
}

/// Different numbers have different decimal texts.
pub proof fn lemma_dec_text_injective(a: nat, b: nat)
    requires
        dec_text(a) == dec_text(b),
    ensures
        a == b,
{
    lemma_dec_text_value(a);
    lemma_dec_text_value(b);
}

proof fn lemma_digits_value_push(s: Seq<char>, c: char)
    ensures
        digits_value(s.push(c)) == digits_value(s) * 10 + ((c as int) - 48) as nat,
{
    assert(s.push(c).drop_last() =~= s);
}

proof fn lemma_digits_value_mono(s: Seq<char>, t: Seq<char>)
    requires
        all_digits(s + t),
    ensures
        digits_value(s + t) >= digits_value(s),
    decreases t.len(),
{
    if t.len() > 0 {
        let u = t.drop_last();
        assert((s + t).drop_last() =~= s + u);
        assert(all_digits(s + u)) by {
            assert forall|i: int| 0 <= i < (s + u).len() implies '0' <= #[trigger] (s + u)[i] <= '9' by {
                assert((s + u)[i] == (s + t)[i]);
            }
        }
        lemma_digits_value_mono(s, u);
    } else {
        assert(s + t =~= s);
    }
}

/// Parses a decimal integer the way `str::parse::<i64>` does.
pub fn parse_i64(s: &str) -> (r: Option<i64>)
    ensures
        r matches Some(v) ==> parsed_int(s@) == Some(v as int),
        r is None ==> parsed_int(s@) is None,
{
    let n = char_len(s);
    let mut start: usize = 0;
    let mut neg = false;
    if n > 0 {
        let c0 = char_at(s, 0);
        if c0 == '-' {
            neg = true;
            start = 1;
        } else if c0 == '+' {
            start = 1;
        }
    }
    let ghost digits = s@.subrange(start as int, n as int);
    assert(start == 1 ==> digits =~= s@.drop_first());
    assert(start == 0 ==> digits =~= s@);
    assert(sign_split(s@) == (neg, digits));
    if start >= n {
        return None;
    }
    let limit: i128 = 9223372036854775808i128;
    let mut acc: i128 = 0;
    let mut i = start;
    while i < n
        invariant
            start <= i <= n,
            n == s@.len(),
            digits == s@.subrange(start as int, n as int),
            sign_split(s@) == (neg, digits),
            all_digits(s@.subrange(start as int, i as int)),
            acc == digits_value(s@.subrange(start as int, i as int)),
            0 <= acc <= limit,
            limit == 9223372036854775808i128,
        decreases n - i,
    {
        let c = char_at(s, i);
        let ghost pre = s@.subrange(start as int, i as int);
        assert(s@.subrange(start as int, i + 1) =~= pre.push(c));
        if !('0' <= c && c <= '9') {
            assert(!all_digits(digits)) by {
                assert(digits[i - start] == c);
            }
            return None;
        }
        proof { lemma_digits_value_push(pre, c); }
        assert(acc * 10 <= 92233720368547758080i128) by (nonlinear_arith)
            requires 0 <= acc <= 9223372036854775808i128;
        assert(acc * 10 >= 0) by (nonlinear_arith)
            requires 0 <= acc;
        acc = acc * 10 + ((c as u32) - 48) as i128;
        i = i + 1;
        if acc > limit {
            proof {
                assert(digits =~= s@.subrange(start as int, i as int) + s@.subrange(i as int, n as int));
                if all_digits(digits) {
                    lemma_digits_value_mono(s@.subrange(start as int, i as int), s@.subrange(i as int, n as int));
                }
            }
            return None;
        }
    }
    assert(s@.subrange(start as int, n as int) =~= digits);
    if neg {
        let v: i128 = -acc;
        return Some(v as i64);
    } else {
        if acc == limit {
            return None;
        }
        return Some(acc as i64);
    }
}

/// ASCII lower-case form of one character.
pub open spec fn lower_char(c: char) -> char {
    if 'A' <= c <= 'Z' { (((c as u32) + 32) as u8) as char } else { c }
}

/// ASCII lower-case form of one character.
pub fn lower_of(c: char) -> (r: char)
    ensures
        r == lower_char(c),
{
    if 'A' <= c && c <= 'Z' {
        (((c as u32) + 32) as u8) as char
    } else {
        c
    }
}

/// ASCII lower-case form of a string (other characters unchanged).
pub open spec fn lower_ascii(s: Seq<char>) -> Seq<char> {
    s.map_values(|c: char| lower_char(c))
}

/// The Unicode lower-case form of a text, as `str::to_lowercase` gives it.
pub uninterp spec fn unicode_lower(s: Seq<char>) -> Seq<char>;

/// Lower-cases a text with `str::to_lowercase`; the result depends on the
/// text alone, and nothing more is stated of it here.
#[verifier::external_body]
pub(crate) fn to_lowercase(s: &str) -> (r: String)
    ensures
        r@ == unicode_lower(s@),
{
    s.to_lowercase()
}

/// ASCII lower-case copy of a string (`str::to_ascii_lowercase`).
pub fn lower_string(s: &str) -> (r: String)
    ensures
        r@ == lower_ascii(s@),
{
    let n = char_len(s);
    let mut out = String::new();
    let mut i: usize = 0;
    while i < n
        invariant
            i <= n,
            n == s@.len(),
            out@ == lower_ascii(s@.take(i as int)),
        decreases n - i,
    {
        let c = char_at(s, i);
        push_char(&mut out, lower_of(c));
        proof {
            assert(lower_ascii(s@.take(i + 1)) =~= lower_ascii(s@.take(i as int)).push(lower_char(c)));
        }
        i = i + 1;
    }
    proof {
        assert(s@.take(n as int) =~= s@);
    }
    out
}

pub open spec fn is_digit(c: char) -> bool {
    '0' <= c <= '9'
}

pub open spec fn is_exp_mark(c: char) -> bool {
    c == 'e' || c == 'E'
}

/// The text without one leading `+` or `-`.
pub open spec fn unsigned_part(s: Seq<char>) -> Seq<char> {
    if s.len() > 0 && (s[0] == '+' || s[0] == '-') {
        s.drop_first()
    } else {
        s
    }
}

/// Digits, optionally with one `.`, with at least one digit in all: `d`
/// is where the digits before the point end.
pub open spec fn mantissa_at(m: Seq<char>, d: int) -> bool {
    &&& 0 <= d <= m.len()
    &&& forall|j: int| 0 <= j < d ==> is_digit(#[trigger] m[j])
    &&& d < m.len() ==> m[d] == '.' && forall|j: int| d < j < m.len() ==> is_digit(#[trigger] m[j])
    &&& d > 0 || m.len() - d - 1 > 0
}

pub open spec fn is_mantissa(m: Seq<char>) -> bool {
    exists|d: int| mantissa_at(m, d)
}

/// An exponent after `e`/`E`: an optional sign and one or more digits.
pub open spec fn is_exponent(x: Seq<char>) -> bool {
    unsigned_part(x).len() > 0 && all_digits(unsigned_part(x))
}

/// A decimal number split at its exponent mark `k` (or its end).
pub open spec fn number_at(u: Seq<char>, k: int) -> bool {
    &&& 0 <= k <= u.len()
    &&& forall|j: int| 0 <= j < k ==> !is_exp_mark(#[trigger] u[j])
    &&& k < u.len() ==> is_exp_mark(u[k]) && is_exponent(u.skip(k + 1))
    &&& is_mantissa(u.take(k))
}

/// The grammar that `str::parse::<f64>` accepts (std's documented `Float`
/// grammar): an optional sign, then `inf`, `infinity` or `nan` in any case,
/// or a decimal number with an optional exponent.
pub open spec fn is_float_text(s: Seq<char>) -> bool {
    let u = unsigned_part(s);
    ||| lower_ascii(u) == "inf"@
    ||| lower_ascii(u) == "infinity"@
    ||| lower_ascii(u) == "nan"@
    ||| exists|k: int| number_at(u, k)
}

/// The characters `lo..hi` of `s`.
fn sub_text(s: &str, lo: usize, hi: usize) -> (r: String)
    requires
        lo <= hi <= s@.len(),
    ensures
        r@ == s@.subrange(lo as int, hi as int),
{
    let mut out = String::new();
    let mut i = lo;
    while i < hi
        invariant
            lo <= i <= hi,
            hi <= s@.len(),
            out@ == s@.subrange(lo as int, i as int),
        decreases hi - i,
    {
        push_char(&mut out, char_at(s, i));
        assert(s@.subrange(lo as int, i + 1) =~= s@.subrange(lo as int, i as int).push(s@[i as int]));
        i = i + 1;
    }
    out
}

fn digit(c: char) -> (r: bool)
    ensures
        r == is_digit(c),
{
    '0' <= c && c <= '9'
}

fn mantissa_ok(m: &str) -> (r: bool)
    ensures
        r == is_mantissa(m@),
{
    let n = char_len(m);
    let mut d: usize = 0;
    while d < n && digit(char_at(m, d))
        invariant
            d <= n,
            n == m@.len(),
            forall|j: int| 0 <= j < d ==> is_digit(#[trigger] m@[j]),
        decreases n - d,
    {
        d = d + 1;
    }
    let ok = if d == n {
        n > 0
    } else if char_at(m, d) != '.' {
        false
    } else {
        let mut j = d + 1;
        let mut all = true;
        while j < n
            invariant
                d < j <= n,
                n == m@.len(),
                all == forall|q: int| d < q < j ==> is_digit(#[trigger] m@[q]),
            decreases n - j,
        {
            if !digit(char_at(m, j)) {
                all = false;
            }
            j = j + 1;
        }
        all && (d > 0 || n - d - 1 > 0)
    };
    proof {
        if ok {
            assert(mantissa_at(m@, d as int));
        } else {
            assert forall|e: int| !mantissa_at(m@, e) by {
                if mantissa_at(m@, e) {
                    if e < d {
                        assert(is_digit(m@[e]));
                    } else if e > d {
                        assert(is_digit(m@[d as int]));
                    }
                }
            }
        }
    }
    ok
}

fn unsigned_start(s: &str) -> (k: usize)
    ensures
        k <= s@.len(),
        unsigned_part(s@) == s@.skip(k as int),
{
    if char_len(s) > 0 && (char_at(s, 0) == '+' || char_at(s, 0) == '-') {
        assert(s@.drop_first() =~= s@.skip(1));
        1
    } else {
        assert(s@ =~= s@.skip(0));
        0
    }
}

fn exponent_ok(x: &str) -> (r: bool)
    ensures
        r == is_exponent(x@),
{
    let k = unsigned_start(x);
    let n = char_len(x);
    let mut j = k;
    let mut all = true;
    while j < n
        invariant
            k <= j <= n,
            n == x@.len(),
            all == forall|q: int| k <= q < j ==> is_digit(#[trigger] x@[q]),
        decreases n - j,
    {
        if !digit(char_at(x, j)) {
            all = false;
        }
        j = j + 1;
    }
    let ghost u = x@.skip(k as int);
    proof {
        assert forall|q: int| 0 <= q < u.len() implies (u[q] == x@[q + k]) by {}
        if all {
            assert forall|q: int| 0 <= q < u.len() implies '0' <= #[trigger] u[q] <= '9' by {
                assert(is_digit(x@[q + k]));
            }
        } else {
            let q = choose|q: int| k <= q < n && !is_digit(#[trigger] x@[q]);
            assert(!('0' <= u[q - k] <= '9'));
        }
    }
    n > k && all
}

/// `true` exactly when `str::parse::<f64>` accepts the text.
pub fn is_float(s: &str) -> (r: bool)
    ensures
        r == is_float_text(s@),
{
    let k0 = unsigned_start(s);
    let n = char_len(s);
    let u = sub_text(s, k0, n);
    proof {
        assert(u@ =~= unsigned_part(s@));
    }
    let low = lower_string(u.as_str());
    if str_is(low.as_str(), "inf") || str_is(low.as_str(), "infinity") || str_is(low.as_str(), "nan") {
        return true;
    }
    let un = char_len(u.as_str());
    let mut k: usize = 0;
    while k < un && !(char_at(u.as_str(), k) == 'e' || char_at(u.as_str(), k) == 'E')
        invariant
            k <= un,
            un == u@.len(),
            forall|j: int| 0 <= j < k ==> !is_exp_mark(#[trigger] u@[j]),
        decreases un - k,
    {
        k = k + 1;
    }
    let m = sub_text(u.as_str(), 0, k);
    let mut ok = mantissa_ok(m.as_str());
    if ok && k < un {
        let x = sub_text(u.as_str(), k + 1, un);
        ok = exponent_ok(x.as_str());
        proof {
            assert(x@ =~= u@.skip(k + 1));
        }
    }
    proof {
        assert(m@ =~= u@.take(k as int));
        let uu = unsigned_part(s@);
        if ok {
            assert(number_at(uu, k as int));
        } else {
            assert forall|e: int| !number_at(uu, e) by {
                if number_at(uu, e) {
                    if e < k {
                        assert(is_exp_mark(uu[e]));
                    } else if e > k {
                        assert(!is_exp_mark(uu[k as int]));
                    }
                }
            }
        }
    }
    ok
}

} // verus!
