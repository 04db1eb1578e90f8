//! Decimal text of integers and recognisers for integer and decimal numerals.
use vstd::prelude::*;

verus! {

pub open spec fn is_digit(c: char) -> bool {
    '0' <= c && c <= '9'
}

pub open spec fn digit_value(c: char) -> int {
    c as int - '0' as int
}

pub open spec fn digit_char(d: nat) -> char
    recommends
        d < 10,
{
    (d + '0' as nat) as char
}

pub open spec fn all_digits(s: Seq<char>) -> bool {
    forall|i: int| 0 <= i < s.len() ==> is_digit(#[trigger] s[i])
}

/// The value of a run of decimal digits, most significant first.
pub open spec fn digits_value(s: Seq<char>) -> nat
    decreases s.len(),
{
    if s.len() == 0 {
        0
    } else {
        (digits_value(s.drop_last()) * 10 + digit_value(s.last())) as nat
    }
}

/// The shortest decimal text of a natural number.
pub open spec fn nat_text(n: nat) -> Seq<char>
    decreases n,
{
    if n < 10 {
        seq![digit_char(n)]
    } else {
        nat_text(n / 10).push(digit_char(n % 10))
    }
}

/// The decimal text of an integer: a minus sign for negative values, no leading zeros.
pub open spec fn int_text(i: int) -> Seq<char> {
    if i < 0 {
        seq!['-'].add(nat_text((-i) as nat))
    } else {
        nat_text(i as nat)
    }
}

fn digit_str(d: u128) -> (r: &'static str)
    requires
        d < 10,
    ensures
        r@ == seq![digit_char(d as nat)],
{
    proof {
        reveal_strlit("0");
        reveal_strlit("1");
        reveal_strlit("2");
        reveal_strlit("3");
        reveal_strlit("4");
        reveal_strlit("5");
        reveal_strlit("6");
        reveal_strlit("7");
        reveal_strlit("8");
        reveal_strlit("9");
    }
    let r = if d == 0 {
        "0"
    } else if d == 1 {
        "1"
    } else if d == 2 {
        "2"
    } else if d == 3 {
        "3"
    } else if d == 4 {
        "4"
    } else if d == 5 {
        "5"
    } else if d == 6 {
        "6"
    } else if d == 7 {
        "7"
    } else if d == 8 {
        "8"
    } else {
        "9"
    };
    assert(r@ =~= seq![digit_char(d as nat)]);
    r
}

/// Appends the decimal text of a natural number.
pub fn append_nat_text(n: u128, out: &mut String)
    ensures
        final(out)@ == old(out)@ + nat_text(n as nat),
    decreases n,
{
    if n >= 10 {
        append_nat_text(n / 10, out);
    }
    out.append(digit_str(n % 10));
    assert(final(out)@ =~= old(out)@ + nat_text(n as nat));
}

/// Renders a signed integer as decimal text.
pub fn int_to_text(i: i64) -> (r: String)
    ensures
        r@ == int_text(i as int),
{
    let mut out = String::new();
    if i < 0 {
        out.append("-");
        let magnitude: u128 = (-(i as i128)) as u128;
        append_nat_text(magnitude, &mut out);
    } else {
        append_nat_text(i as u128, &mut out);
    }
    proof {
        reveal_strlit("-");
    }
    assert(out@ =~= int_text(i as int));
    out
}


/// The text after an optional leading sign.
pub open spec fn unsigned_part(s: Seq<char>) -> Seq<char> {
    if s.len() > 0 && (s[0] == '+' || s[0] == '-') {
        s.drop_first()
    } else {
        s
    }
}

/// An optional sign followed by at least one decimal digit.
pub open spec fn is_integer_numeral(s: Seq<char>) -> bool {
    unsigned_part(s).len() > 0 && all_digits(unsigned_part(s))
}

/// The signed value of an integer numeral.
pub open spec fn numeral_value(s: Seq<char>) -> int {
    if s.len() > 0 && s[0] == '-' {
        -(digits_value(s.drop_first()) as int)
    } else {
        digits_value(unsigned_part(s)) as int
    }
}

/// What reading the text as a signed 64-bit integer gives: an integer numeral whose
/// value fits.
pub open spec fn parsed_i64(s: Seq<char>) -> Option<i64> {
    if is_integer_numeral(s) && i64::MIN <= numeral_value(s) <= i64::MAX {
        Some(numeral_value(s) as i64)
    } else {
        None
    }
}

/// Digits, or digits around one decimal point with at least one digit in all.
pub open spec fn is_mantissa(m: Seq<char>) -> bool {
    ||| m.len() > 0 && all_digits(m)
    ||| exists|k: int|
        0 <= k < m.len() && #[trigger] m[k] == '.' && m.len() >= 2 && all_digits(m.subrange(0, k))
            && all_digits(m.subrange(k + 1, m.len() as int))
}

pub open spec fn is_exponent_mark(c: char) -> bool {
    c == 'e' || c == 'E'
}

/// A finite decimal number in the usual floating-point notation: an optional sign, a
/// mantissa, and an optional exponent (`e` or `E`, an optional sign, digits).
pub open spec fn is_decimal_numeral(s: Seq<char>) -> bool {
    let u = unsigned_part(s);
    ||| is_mantissa(u)
    ||| exists|k: int|
        0 <= k < u.len() && is_exponent_mark(#[trigger] u[k]) && is_mantissa(u.subrange(0, k))
            && is_integer_numeral(u.subrange(k + 1, u.len() as int))
}

proof fn lemma_mantissa_chars(m: Seq<char>)
    requires
        is_mantissa(m),
    ensures
        forall|i: int| 0 <= i < m.len() ==> is_digit(#[trigger] m[i]) || m[i] == '.',
{
    if !(m.len() > 0 && all_digits(m)) {
        let k = choose|k: int|
            0 <= k < m.len() && #[trigger] m[k] == '.' && m.len() >= 2 && all_digits(
                m.subrange(0, k),
            ) && all_digits(m.subrange(k + 1, m.len() as int));
        assert forall|i: int| 0 <= i < m.len() implies is_digit(#[trigger] m[i]) || m[i] == '.' by {
            if i < k {
                assert(m.subrange(0, k)[i] == m[i]);
            } else if i > k {
                assert(m.subrange(k + 1, m.len() as int)[i - k - 1] == m[i]);
            }
        }
    }
}

proof fn lemma_digits_value_step(s: Seq<char>, i: int)
    requires
        0 <= i < s.len(),
        is_digit(s[i]),
    ensures
        digits_value(s.subrange(0, i + 1)) == digits_value(s.subrange(0, i)) * 10 + digit_value(
            s[i],
        ),
{
    assert(s.subrange(0, i + 1).drop_last() =~= s.subrange(0, i));
    assert(s.subrange(0, i + 1).last() == s[i]);
}

/// Copies the characters of a string into a vector.
pub fn chars_of(s: &str) -> (r: Vec<char>)
    ensures
        r@ == s@,
{
    let n = s.unicode_len();
    let mut r: Vec<char> = Vec::new();
    let mut i: usize = 0;
    while i < n
        invariant
            n == s@.len(),
            i <= n,
            r@ == s@.subrange(0, i as int),
        decreases n - i,
    {
        r.push(s.get_char(i));
        i = i + 1;
        assert(r@ =~= s@.subrange(0, i as int));
    }
    assert(r@ =~= s@);
    r
}

fn is_digit_char(c: char) -> (r: bool)
    ensures
        r == is_digit(c),
{
    '0' <= c && c <= '9'
}

/// Whether every character in `s[lo..hi]` is a decimal digit.
fn digits_between(s: &Vec<char>, lo: usize, hi: usize) -> (r: bool)
    requires
        lo <= hi <= s@.len(),
    ensures
        r == all_digits(s@.subrange(lo as int, hi as int)),
{
    let mut i = lo;
    while i < hi
        invariant
            lo <= i <= hi <= s@.len(),
            forall|j: int| lo <= j < i ==> is_digit(#[trigger] s@[j]),
        decreases hi - i,
    {
        if !is_digit_char(s[i]) {
            assert(s@.subrange(lo as int, hi as int)[i - lo] == s@[i as int]);
            return false;
        }
        i = i + 1;
    }
    assert forall|j: int| 0 <= j < hi - lo implies is_digit(
        #[trigger] s@.subrange(lo as int, hi as int)[j],
    ) by {
        assert(s@.subrange(lo as int, hi as int)[j] == s@[lo + j]);
    }
    true
}

/// The first index in `s[lo..hi]` holding `a` or `b`, or `hi` when there is none.
fn find_either(s: &Vec<char>, lo: usize, hi: usize, a: char, b: char) -> (r: usize)
    requires
        lo <= hi <= s@.len(),
    ensures
        lo <= r <= hi,
        forall|j: int| lo <= j < r ==> s@[j] != a && s@[j] != b,
        r < hi ==> s@[r as int] == a || s@[r as int] == b,
{
    let mut i = lo;
    while i < hi
        invariant
            lo <= i <= hi <= s@.len(),
            forall|j: int| lo <= j < i ==> s@[j] != a && s@[j] != b,
        decreases hi - i,
    {
        if s[i] == a || s[i] == b {
            return i;
        }
        i = i + 1;
    }
    i
}

/// Whether `s[lo..hi]` is a mantissa.
fn mantissa_between(s: &Vec<char>, lo: usize, hi: usize) -> (r: bool)
    requires
        lo <= hi <= s@.len(),
    ensures
        r == is_mantissa(s@.subrange(lo as int, hi as int)),
{
    let ghost m = s@.subrange(lo as int, hi as int);
    let k = find_either(s, lo, hi, '.', '.');
    if k == hi {
        let r = hi > lo && digits_between(s, lo, hi);
        assert(!exists|k: int|
            0 <= k < m.len() && #[trigger] m[k] == '.' && m.len() >= 2 && all_digits(
                m.subrange(0, k),
            ) && all_digits(m.subrange(k + 1, m.len() as int))) by {
            assert forall|k: int| 0 <= k < m.len() implies #[trigger] m[k] != '.' by {
                assert(m[k] == s@[lo + k]);
            }
        }
        r
    } else {
        let d1 = digits_between(s, lo, k);
        let d2 = digits_between(s, k + 1, hi);
        let r = hi - lo >= 2 && d1 && d2;
        let ghost kk = k - lo;
        assert(m[kk] == '.');
        assert(!(m.len() > 0 && all_digits(m)));
        assert(m.subrange(0, kk) =~= s@.subrange(lo as int, k as int));
        assert(m.subrange(kk + 1, m.len() as int) =~= s@.subrange(k + 1, hi as int));
        if !r {
            assert forall|k2: int|
                0 <= k2 < m.len() && #[trigger] m[k2] == '.' && m.len() >= 2 && all_digits(
                    m.subrange(0, k2),
                ) implies !all_digits(m.subrange(k2 + 1, m.len() as int)) by {
                if k2 < kk {
                    assert(m[k2] == s@[lo + k2]);
                } else if k2 > kk {
                    assert(m.subrange(0, k2)[kk] == m[kk]);
                }
            }
        }
        r
    }
}

/// Whether `s[lo..hi]` is an integer numeral.
fn integer_numeral_between(s: &Vec<char>, lo: usize, hi: usize) -> (r: bool)
    requires
        lo <= hi <= s@.len(),
    ensures
        r == is_integer_numeral(s@.subrange(lo as int, hi as int)),
{
    let ghost t = s@.subrange(lo as int, hi as int);
    let start = if lo < hi && (s[lo] == '+' || s[lo] == '-') {
        lo + 1
    } else {
        lo
    };
    assert(unsigned_part(t) =~= s@.subrange(start as int, hi as int));
    start < hi && digits_between(s, start, hi)
}

/// Recognises a finite decimal number (see `is_decimal_numeral`).
pub fn is_decimal_text(text: &str) -> (r: bool)
    ensures
        r == is_decimal_numeral(text@),
{
    let s = chars_of(text);
    let hi = s.len();
    let start = if 0 < hi && (s[0] == '+' || s[0] == '-') {
        1
    } else {
        0
    };
    let ghost u = s@.subrange(start as int, hi as int);
    assert(unsigned_part(text@) =~= u);
    let k = find_either(&s, start, hi, 'e', 'E');
    if k == hi {
        let r = mantissa_between(&s, start, hi);
        assert forall|k2: int| 0 <= k2 < u.len() implies !is_exponent_mark(#[trigger] u[k2]) by {
            assert(u[k2] == s@[start + k2]);
        }
        r
    } else {
        let ghost kk = k - start;
        assert(u[kk] == s@[k as int]);
        assert(!is_mantissa(u)) by {
            if is_mantissa(u) {
                lemma_mantissa_chars(u);
            }
        }
        let m = mantissa_between(&s, start, k);
        let x = integer_numeral_between(&s, k + 1, hi);
        assert(u.subrange(0, kk) =~= s@.subrange(start as int, k as int));
        assert(u.subrange(kk + 1, u.len() as int) =~= s@.subrange(k + 1, hi as int));
        if !(m && x) {
            assert forall|k2: int|
                0 <= k2 < u.len() && is_exponent_mark(#[trigger] u[k2]) && is_mantissa(
                    u.subrange(0, k2),
                ) implies !is_integer_numeral(u.subrange(k2 + 1, u.len() as int)) by {
                if k2 < kk {
                    assert(u[k2] == s@[start + k2]);
                } else if k2 > kk {
                    lemma_mantissa_chars(u.subrange(0, k2));
                    assert(u.subrange(0, k2)[kk] == u[kk]);
                }
            }
        }
        m && x
    }
}

/// Reads a signed 64-bit integer: an optional sign and decimal digits, with the value in
/// range; anything else gives `None`.
pub fn parse_i64(text: &str) -> (r: Option<i64>)
    ensures
        r == parsed_i64(text@),
{
    let s = chars_of(text);
    let hi = s.len();
    let negative = 0 < hi && s[0] == '-';
    let start: usize = if 0 < hi && (s[0] == '+' || s[0] == '-') {
        1
    } else {
        0
    };
    let ghost u = s@.subrange(start as int, hi as int);
    assert(unsigned_part(text@) =~= u);
    if start == hi {
        return None;
    }
    let limit: u128 = 0x8000_0000_0000_0000;
    let mut acc: u128 = 0;
    let mut big = false;
    let mut i = start;
    while i < hi
        invariant
            start <= i <= hi == s@.len(),
            u == s@.subrange(start as int, hi as int),
            unsigned_part(text@) == u,
            limit == 0x8000_0000_0000_0000u128,
            all_digits(s@.subrange(start as int, i as int)),
            !big ==> acc == digits_value(s@.subrange(start as int, i as int)) && acc <= limit,
            big ==> digits_value(s@.subrange(start as int, i as int)) > limit,
        decreases hi - i,
    {
        let c = s[i];
        if !is_digit_char(c) {
            assert(u[i - start] == c);
            return None;
        }
        let ghost p = s@.subrange(start as int, i as int);
        let ghost grown = s@.subrange(start as int, i + 1);
        proof {
            lemma_digits_value_step(u, i - start);
            assert(u.subrange(0, i - start) =~= p);
            assert(u.subrange(0, i - start + 1) =~= grown);
            assert forall|j: int| 0 <= j < grown.len() implies is_digit(#[trigger] grown[j]) by {
                if j < p.len() {
                    assert(grown[j] == p[j]);
                }
            }
        }
        if !big {
            let next = acc * 10 + (c as u128 - '0' as u128);
            if next > limit {
                big = true;
            } else {
                acc = next;
            }
        }
        i = i + 1;
    }
    assert(s@.subrange(start as int, hi as int) =~= u);
    if negative {
        assert(text@.drop_first() =~= u);
    }
    if big {
        None
    } else if negative {
        Some((-(acc as i128)) as i64)
    } else if acc < limit {
        Some(acc as i64)
    } else {
        None
    }
}

/// Whether two strings hold the same characters.
pub fn same_text(a: &str, b: &str) -> (r: bool)
    ensures
        r == (a@ == b@),
{
    let x = chars_of(a);
    let y = chars_of(b);
    if x.len() != y.len() {
        return false;
    }
    let mut i: usize = 0;
    while i < x.len()
        invariant
            x@ == a@,
            y@ == b@,
            x@.len() == y@.len(),
            i <= x@.len(),
            forall|j: int| 0 <= j < i ==> x@[j] == y@[j],
        decreases x@.len() - i,
    {
        if x[i] != y[i] {
            return false;
        }
        i = i + 1;
    }
    assert(x@ =~= y@);
    true
}

pub proof fn lemma_nat_text(n: nat)
    ensures
        nat_text(n).len() > 0,
        all_digits(nat_text(n)),
        digits_value(nat_text(n)) == n,
        is_digit(nat_text(n)[0]),
    decreases n,
{
    if n >= 10 {
        lemma_nat_text(n / 10);
        let x = nat_text(n / 10);
        let c = digit_char(n % 10);
        assert(x.push(c).drop_last() =~= x);
        assert(x.push(c)[0] == x[0]);
        assert forall|i: int| 0 <= i < x.push(c).len() implies is_digit(#[trigger] x.push(c)[i]) by {
            if i < x.len() {
                assert(x.push(c)[i] == x[i]);
            }
        }
    } else {
        assert(digits_value(seq![digit_char(n)].drop_last()) == 0);
    }
}

/// The decimal text of an integer reads back as that integer.
pub proof fn lemma_int_text_reads_back(i: int)
    ensures
        is_integer_numeral(int_text(i)),
        numeral_value(int_text(i)) == i,
{
    if i < 0 {
        lemma_nat_text((-i) as nat);
        assert((seq!['-'] + nat_text((-i) as nat)).drop_first() =~= nat_text((-i) as nat));
    } else {
        lemma_nat_text(i as nat);
    }
}

/// A character's code with ASCII capitals folded to lower case.
pub open spec fn fold_code(c: char) -> u32 {
    if 'A' <= c && c <= 'Z' {
        (c as u32 + 32) as u32
    } else {
        c as u32
    }
}

/// A text with ASCII letters folded to lower case, as character codes.
pub open spec fn folded(s: Seq<char>) -> Seq<u32> {
    s.map_values(|c: char| fold_code(c))
}

/// Whether two strings are equal when ASCII case is ignored.
pub fn same_text_ignoring_case(a: &str, b: &str) -> (r: bool)
    ensures
        r == (folded(a@) == folded(b@)),
{
    let x = chars_of(a);
    let y = chars_of(b);
    if x.len() != y.len() {
        assert(folded(a@).len() != folded(b@).len());
        return false;
    }
    let mut i: usize = 0;
    while i < x.len()
        invariant
            x@ == a@,
            y@ == b@,
            x@.len() == y@.len(),
            i <= x@.len(),
            forall|j: int| 0 <= j < i ==> fold_code(x@[j]) == fold_code(y@[j]),
        decreases x@.len() - i,
    {
        let cx = x[i];
        let cy = y[i];
        let fx: u32 = if 'A' <= cx && cx <= 'Z' {
            cx as u32 + 32
        } else {
            cx as u32
        };
        let fy: u32 = if 'A' <= cy && cy <= 'Z' {
            cy as u32 + 32
        } else {
            cy as u32
        };
        if fx != fy {
            assert(folded(a@)[i as int] != folded(b@)[i as int]);
            return false;
        }
        i = i + 1;
    }
    assert(folded(a@) =~= folded(b@));
    true
}

/// Whether `needle` occurs in `hay` as a contiguous run.
pub open spec fn occurs_in(needle: Seq<char>, hay: Seq<char>) -> bool {
    exists|i: int| 0 <= i <= hay.len() - needle.len() && #[trigger] hay.subrange(i, i + needle.len()) == needle
}

/// Whether a string contains another.
pub fn contains_text(hay: &str, needle: &str) -> (r: bool)
    ensures
        r == occurs_in(needle@, hay@),
{
    let h = chars_of(hay);
    let n = chars_of(needle);
    if n.len() > h.len() {
        return false;
    }
    if n.len() == 0 {
        assert(hay@.subrange(0int, 0int + needle@.len()) =~= needle@);
        return true;
    }
    let hl = h.len();
    let last = h.len() - n.len();
    let mut i: usize = 0;
    while i <= last
        invariant
            h@ == hay@,
            n@ == needle@,
            0 < n@.len() <= h@.len(),
            h@.len() == hl,
            last == h@.len() - n@.len(),
            i <= last + 1,
            forall|k: int| 0 <= k < i ==> #[trigger] h@.subrange(k, k + n@.len()) != n@,
        decreases last + 1 - i,
    {
        let mut j: usize = 0;
        let mut same = true;
        while j < n.len()
            invariant
                h@ == hay@,
                n@ == needle@,
                i <= last,
                last == h@.len() - n@.len(),
                n@.len() <= h@.len(),
                h@.len() == hl,
                j <= n@.len(),
                same == (forall|m: int| 0 <= m < j ==> h@[i + m] == n@[m]),
            decreases n@.len() - j,
        {
            if h[i + j] != n[j] {
                same = false;
            }
            j = j + 1;
        }
        if same {
            assert(h@.subrange(i as int, i + n@.len()) =~= n@);
            return true;
        }
        assert(h@.subrange(i as int, i + n@.len()) != n@) by {
            let m = choose|m: int| 0 <= m < n@.len() && h@[i + m] != n@[m];
            assert(h@.subrange(i as int, i + n@.len())[m] == h@[i + m]);
        }
        i = i + 1;
    }
    false
}

// ---------------------------------------------------------------------------
// Magnitude of decimal numerals
// ---------------------------------------------------------------------------

pub open spec fn pow10(n: nat) -> nat
    decreases n,
{
    if n == 0 {
        1
    } else {
        10 * pow10((n - 1) as nat)
    }
}

/// The decimal digits of 2^1024 - 2^970: the smallest magnitude that a 64-bit float
/// reading rounds to infinity. Every smaller magnitude reads as a finite float.
pub const F64_OVERFLOW_DIGITS: &'static str = "179769313486231580793728971405303415079934132710037826936173778980444968292764750946649017977587207096330286416692887910946555547851940402630657488671505820681908902000708383676273854845817711531764475730270069855571366959622842914819860834936475292719074168444365510704342711559699508093042880177904174497792";

/// The smallest magnitude that does not read as a finite 64-bit float.
pub open spec fn f64_overflow() -> nat {
    digits_value(F64_OVERFLOW_DIGITS@)
}

/// The first index in `u` holding `a` or `b`, or its length when there is none.
pub open spec fn first_index(u: Seq<char>, a: char, b: char) -> int
    decreases u.len(),
{
    if u.len() == 0 {
        0
    } else if u[0] == a || u[0] == b {
        0
    } else {
        1 + first_index(u.drop_first(), a, b)
    }
}

/// The digits of a numeral's mantissa, decimal point removed, and the power of ten they
/// are scaled by (the exponent less the number of fraction digits).
pub open spec fn numeral_parts(s: Seq<char>) -> (Seq<char>, int) {
    let u = unsigned_part(s);
    let k = first_index(u, 'e', 'E');
    let m = u.subrange(0, k);
    let x = if k < u.len() {
        numeral_value(u.subrange(k + 1, u.len() as int))
    } else {
        0
    };
    let d = first_index(m, '.', '.');
    if d < m.len() {
        (m.subrange(0, d) + m.subrange(d + 1, m.len() as int), x - (m.len() - d - 1))
    } else {
        (m, x)
    }
}

/// Whether `d` times ten to the power `scale` is below `limit`.
pub open spec fn scaled_below(d: nat, scale: int, limit: nat) -> bool {
    if scale >= 0 {
        d * pow10(scale as nat) < limit
    } else {
        d < limit * pow10((-scale) as nat)
    }
}

/// A decimal numeral whose magnitude reads as a finite 64-bit float: its mantissa
/// digits times ten to its scale stay below `f64_overflow()`.
pub open spec fn is_finite_numeral(s: Seq<char>) -> bool {
    is_decimal_numeral(s) && numeral_parts_wf(s) && scaled_below(
        digits_value(numeral_parts(s).0),
        numeral_parts(s).1,
        f64_overflow(),
    )
}

proof fn lemma_pow10_add(a: nat, b: nat)
    ensures
        pow10(a + b) == pow10(a) * pow10(b),
    decreases b,
{
    if b == 0 {
        assert(pow10(0) == 1);
        assert(pow10(a) * 1 == pow10(a));
    } else {
        let b1 = (b - 1) as nat;
        lemma_pow10_add(a, b1);
        assert(a + b1 == (a + b - 1) as nat);
        assert(pow10(a + b) == 10 * pow10((a + b - 1) as nat));
        assert(pow10(a) * pow10(b) == pow10(a) * (10 * pow10((b - 1) as nat)));
        assert(pow10(a) * (10 * pow10((b - 1) as nat)) == 10 * (pow10(a) * pow10((b - 1) as nat)))
            by (nonlinear_arith);
    }
}

proof fn lemma_pow10_positive(n: nat)
    ensures
        pow10(n) >= 1,
    decreases n,
{
    if n > 0 {
        lemma_pow10_positive((n - 1) as nat);
    }
}

proof fn lemma_pow10_monotone(a: nat, b: nat)
    requires
        a <= b,
    ensures
        pow10(a) <= pow10(b),
    decreases b,
{
    if a < b {
        lemma_pow10_monotone(a, (b - 1) as nat);
        lemma_pow10_positive((b - 1) as nat);
    }
}

proof fn lemma_digits_concat(a: Seq<char>, b: Seq<char>)
    requires
        all_digits(a),
        all_digits(b),
    ensures
        digits_value(a + b) == digits_value(a) * pow10(b.len()) + digits_value(b),
    decreases b.len(),
{
    if b.len() == 0 {
        assert(a + b =~= a);
        assert(pow10(0) == 1);
        assert(digits_value(b) == 0);
        assert(digits_value(a) * 1 == digits_value(a));
    } else {
        let b1 = b.drop_last();
        assert((a + b).drop_last() =~= a + b1);
        assert((a + b).last() == b.last());
        assert forall|i: int| 0 <= i < b1.len() implies is_digit(#[trigger] b1[i]) by {
            assert(b1[i] == b[i]);
        }
        assert(is_digit(b[b.len() - 1]));
        lemma_digits_concat(a, b1);
        let va = digits_value(a);
        let p = pow10(b1.len());
        let v1 = digits_value(b1);
        let d = digit_value(b.last());
        assert(d >= 0);
        assert((va * p + v1) * 10 + d >= 0) by (nonlinear_arith)
            requires
                d >= 0,
                va >= 0,
                p >= 0,
                v1 >= 0,
        ;
        assert(digits_value(a + b) == (va * p + v1) * 10 + d);
        assert(digits_value(b) == v1 * 10 + d);
        assert(pow10(b.len()) == 10 * p);
        assert((va * p + v1) * 10 + d == va * (10 * p) + (v1 * 10 + d)) by (nonlinear_arith);
    }
}

proof fn lemma_digits_below(a: Seq<char>)
    requires
        all_digits(a),
    ensures
        digits_value(a) < pow10(a.len()),
    decreases a.len(),
{
    if a.len() > 0 {
        let a1 = a.drop_last();
        assert forall|i: int| 0 <= i < a1.len() implies is_digit(#[trigger] a1[i]) by {
            assert(a1[i] == a[i]);
        }
        assert(is_digit(a[a.len() - 1]));
        lemma_digits_below(a1);
        let v = digits_value(a1);
        let p = pow10(a1.len());
        assert(v + 1 <= p);
        assert(v * 10 + 9 < 10 * p) by (nonlinear_arith)
            requires
                v + 1 <= p,
        ;
    }
}

proof fn lemma_digits_above(a: Seq<char>)
    requires
        all_digits(a),
        a.len() > 0,
        a[0] != '0',
    ensures
        pow10((a.len() - 1) as nat) <= digits_value(a),
{
    let head = a.subrange(0, 1);
    let rest = a.subrange(1, a.len() as int);
    assert(head + rest =~= a);
    assert(is_digit(a[0]));
    assert forall|i: int| 0 <= i < rest.len() implies is_digit(#[trigger] rest[i]) by {
        assert(rest[i] == a[i + 1]);
    }
    assert(all_digits(head)) by {
        assert(head[0] == a[0]);
    }
    lemma_digits_concat(head, rest);
    assert(head.drop_last() =~= Seq::<char>::empty());
    assert(head.last() == a[0]);
    assert(digits_value(head) >= 1);
    let p = pow10(rest.len());
    assert(digits_value(head) * p >= p) by (nonlinear_arith)
        requires
            digits_value(head) >= 1,
    ;
}

proof fn lemma_zeros_value(a: Seq<char>)
    requires
        forall|i: int| 0 <= i < a.len() ==> #[trigger] a[i] == '0',
    ensures
        all_digits(a),
        digits_value(a) == 0,
    decreases a.len(),
{
    if a.len() > 0 {
        let a1 = a.drop_last();
        assert forall|i: int| 0 <= i < a1.len() implies #[trigger] a1[i] == '0' by {
            assert(a1[i] == a[i]);
        }
        lemma_zeros_value(a1);
        assert(a[a.len() - 1] == '0');
    }
}

/// Two digit runs of one length compare as numbers as they compare at their first
/// differing position.
proof fn lemma_digits_first_difference(a: Seq<char>, b: Seq<char>, i: int)
    requires
        all_digits(a),
        all_digits(b),
        a.len() == b.len(),
        0 <= i < a.len(),
        a.subrange(0, i) == b.subrange(0, i),
        digit_value(a[i]) < digit_value(b[i]),
    ensures
        digits_value(a) < digits_value(b),
{
    let x = a.subrange(0, i);
    let ha = a.subrange(0, i + 1);
    let hb = b.subrange(0, i + 1);
    let ya = a.subrange(i + 1, a.len() as int);
    let yb = b.subrange(i + 1, b.len() as int);
    assert(ha + ya =~= a);
    assert(hb + yb =~= b);
    assert(ha.drop_last() =~= x);
    assert(hb.drop_last() =~= x);
    assert forall|j: int| 0 <= j < ha.len() implies is_digit(#[trigger] ha[j]) by {
        assert(ha[j] == a[j]);
    }
    assert forall|j: int| 0 <= j < hb.len() implies is_digit(#[trigger] hb[j]) by {
        assert(hb[j] == b[j]);
    }
    assert forall|j: int| 0 <= j < ya.len() implies is_digit(#[trigger] ya[j]) by {
        assert(ya[j] == a[i + 1 + j]);
    }
    assert forall|j: int| 0 <= j < yb.len() implies is_digit(#[trigger] yb[j]) by {
        assert(yb[j] == b[i + 1 + j]);
    }
    lemma_digits_concat(ha, ya);
    lemma_digits_concat(hb, yb);
    lemma_digits_below(ya);
    assert(is_digit(a[i]) && is_digit(b[i]));
    assert(ha.last() == a[i] && hb.last() == b[i]);
    let vx = digits_value(x);
    let va = digit_value(a[i]);
    let vb = digit_value(b[i]);
    assert(digits_value(ha) == vx * 10 + va);
    assert(digits_value(hb) == vx * 10 + vb);
    let p = pow10(ya.len());
    assert(ya.len() == yb.len());
    let ra = digits_value(ya);
    let rb = digits_value(yb);
    assert((vx * 10 + va) * p + ra < (vx * 10 + vb) * p + rb) by (nonlinear_arith)
        requires
            ra < p,
            va < vb,
            rb >= 0,
            va >= 0,
            vx >= 0,
    ;
}

proof fn lemma_overflow_digits()
    ensures
        F64_OVERFLOW_DIGITS@.len() == 309,
        all_digits(F64_OVERFLOW_DIGITS@),
        pow10(308) <= f64_overflow() < pow10(309),
{
    let t = F64_OVERFLOW_DIGITS@;
    reveal_strlit("179769313486231580793728971405303415079934132710037826936173778980444968292764750946649017977587207096330286416692887910946555547851940402630657488671505820681908902000708383676273854845817711531764475730270069855571366959622842914819860834936475292719074168444365510704342711559699508093042880177904174497792");
    assert(t.len() == 309);
    assert(all_digits(t));
    assert(t[0] == '1');
    lemma_digits_above(t);
    lemma_digits_below(t);
}

/// A digit run cut or padded with zeros to 309 digits.
pub open spec fn padded309(sig: Seq<char>) -> Seq<char> {
    if sig.len() <= 309 {
        sig + Seq::new((309 - sig.len()) as nat, |i: int| '0')
    } else {
        sig.subrange(0, 309)
    }
}

proof fn lemma_scaled_cases(sig: Seq<char>, e: int)
    requires
        all_digits(sig),
        sig.len() > 0,
        sig[0] != '0',
    ensures
        sig.len() + e <= 308 ==> scaled_below(digits_value(sig), e, f64_overflow()),
        sig.len() + e >= 310 ==> !scaled_below(digits_value(sig), e, f64_overflow()),
        sig.len() + e == 309 ==> (scaled_below(digits_value(sig), e, f64_overflow()) <==> digits_value(
            padded309(sig),
        ) < f64_overflow()),
        sig.len() + e == 309 ==> padded309(sig).len() == 309 && all_digits(padded309(sig)),
{
    let n = sig.len();
    let d = digits_value(sig);
    let t = f64_overflow();
    lemma_overflow_digits();
    lemma_digits_below(sig);
    lemma_digits_above(sig);
    let lo = pow10((n - 1) as nat);
    let hi = pow10(n);
    if n + e <= 308 {
        if e >= 0 {
            let pe = pow10(e as nat);
            lemma_pow10_add(n, e as nat);
            lemma_pow10_monotone((n + e) as nat, 308);
            lemma_pow10_positive(e as nat);
            assert(d * pe < hi * pe) by (nonlinear_arith)
                requires
                    d < hi,
                    pe >= 1,
            ;
        } else {
            let q = (-e) as nat;
            let pq = pow10(q);
            lemma_pow10_monotone(n, 308 + q);
            lemma_pow10_add(308, q);
            lemma_pow10_positive(q);
            assert(pow10(308) * pq <= t * pq) by (nonlinear_arith)
                requires
                    pow10(308) <= t,
                    pq >= 1,
            ;
        }
    }
    if n + e >= 310 {
        if e >= 0 {
            let pe = pow10(e as nat);
            lemma_pow10_add((n - 1) as nat, e as nat);
            lemma_pow10_monotone(309, (n - 1 + e) as nat);
            lemma_pow10_positive(e as nat);
            assert(d * pe >= lo * pe) by (nonlinear_arith)
                requires
                    d >= lo,
                    pe >= 1,
            ;
        } else {
            let q = (-e) as nat;
            let pq = pow10(q);
            lemma_pow10_monotone(309 + q, (n - 1) as nat);
            lemma_pow10_add(309, q);
            lemma_pow10_positive(q);
            assert(t * pq < pow10(309) * pq) by (nonlinear_arith)
                requires
                    t < pow10(309),
                    pq >= 1,
            ;
        }
    }
    if n + e == 309 {
        let p = padded309(sig);
        if n <= 309 {
            let zs = Seq::new((309 - n) as nat, |i: int| '0');
            lemma_zeros_value(zs);
            lemma_digits_concat(sig, zs);
            assert forall|i: int| 0 <= i < p.len() implies is_digit(#[trigger] p[i]) by {
                if i < n {
                    assert(p[i] == sig[i]);
                } else {
                    assert(p[i] == zs[i - n]);
                }
            }
        } else {
            let q = (n - 309) as nat;
            let rest = sig.subrange(309, n as int);
            assert(p + rest =~= sig);
            assert forall|i: int| 0 <= i < p.len() implies is_digit(#[trigger] p[i]) by {
                assert(p[i] == sig[i]);
            }
            assert forall|i: int| 0 <= i < rest.len() implies is_digit(#[trigger] rest[i]) by {
                assert(rest[i] == sig[309 + i]);
            }
            lemma_digits_concat(p, rest);
            lemma_digits_below(rest);
            let pq = pow10(q);
            let vp = digits_value(p);
            let r = digits_value(rest);
            assert(d == vp * pq + r);
            if vp < t {
                assert(vp * pq + r < t * pq) by (nonlinear_arith)
                    requires
                        r < pq,
                        vp < t,
                ;
            } else {
                assert(vp * pq + r >= t * pq) by (nonlinear_arith)
                    requires
                        r >= 0,
                        vp >= t,
                        pq >= 0,
                ;
            }
        }
    }
}

/// The parts of a numeral are digits, and its exponent, if any, is an integer numeral.
pub open spec fn numeral_parts_wf(s: Seq<char>) -> bool {
    let u = unsigned_part(s);
    let k = first_index(u, 'e', 'E');
    all_digits(numeral_parts(s).0) && (k < u.len() ==> is_integer_numeral(
        u.subrange(k + 1, u.len() as int),
    ))
}

proof fn lemma_first_index(u: Seq<char>, a: char, b: char, k: int)
    requires
        0 <= k <= u.len(),
        forall|j: int| 0 <= j < k ==> u[j] != a && u[j] != b,
        k < u.len() ==> u[k] == a || u[k] == b,
    ensures
        first_index(u, a, b) == k,
    decreases k,
{
    if k > 0 {
        let v = u.drop_first();
        assert forall|j: int| 0 <= j < k - 1 implies v[j] != a && v[j] != b by {
            assert(v[j] == u[j + 1]);
        }
        if k < u.len() {
            assert(v[k - 1] == u[k]);
        }
        lemma_first_index(v, a, b, k - 1);
        assert(u[0] != a && u[0] != b);
    }
}

/// The bound beyond which an exponent's exact value no longer matters.
pub open spec fn exponent_cap() -> int {
    0x4_0000_0000_0000_0000
}

/// Reads an integer numeral, saturating: the second component is 0 when the first is
/// the exact value, positive when the value is above the cap, negative when below its
/// negation.
fn bounded_numeral(s: &Vec<char>, lo: usize, hi: usize) -> (r: (i128, i8))
    requires
        lo <= hi <= s@.len(),
        is_integer_numeral(s@.subrange(lo as int, hi as int)),
    ensures
        r.1 == 0 ==> r.0 == numeral_value(s@.subrange(lo as int, hi as int)) && -exponent_cap()
            <= r.0 <= exponent_cap(),
        r.1 > 0 ==> numeral_value(s@.subrange(lo as int, hi as int)) > exponent_cap(),
        r.1 < 0 ==> numeral_value(s@.subrange(lo as int, hi as int)) < -exponent_cap(),
{
    let ghost t = s@.subrange(lo as int, hi as int);
    let negative = lo < hi && s[lo] == '-';
    let start: usize = if lo < hi && (s[lo] == '+' || s[lo] == '-') {
        lo + 1
    } else {
        lo
    };
    let ghost u = s@.subrange(start as int, hi as int);
    assert(unsigned_part(t) =~= u);
    if negative {
        assert(t.drop_first() =~= u);
    }
    let cap: u128 = 0x4_0000_0000_0000_0000;
    let mut acc: u128 = 0;
    let mut big = false;
    let mut i = start;
    while i < hi
        invariant
            start <= i <= hi <= s@.len(),
            u == s@.subrange(start as int, hi as int),
            all_digits(u),
            cap == 0x4_0000_0000_0000_0000u128,
            !big ==> acc == digits_value(s@.subrange(start as int, i as int)) && acc <= cap,
            big ==> digits_value(s@.subrange(start as int, i as int)) > cap,
        decreases hi - i,
    {
        let c = s[i];
        proof {
            assert(u[i - start] == c);
            lemma_digits_value_step(u, i - start);
            assert(u.subrange(0, i - start) =~= s@.subrange(start as int, i as int));
            assert(u.subrange(0, i - start + 1) =~= s@.subrange(start as int, i + 1));
        }
        if !big {
            let next = acc * 10 + (c as u128 - '0' as u128);
            if next > cap {
                big = true;
            } else {
                acc = next;
            }
        }
        i = i + 1;
    }
    assert(s@.subrange(start as int, hi as int) =~= u);
    if big {
        if negative {
            (0, -1)
        } else {
            (0, 1)
        }
    } else if negative {
        (-(acc as i128), 0)
    } else {
        (acc as i128, 0)
    }
}

fn copy_range(s: &Vec<char>, lo: usize, hi: usize, out: &mut Vec<char>)
    requires
        lo <= hi <= s@.len(),
    ensures
        final(out)@ == old(out)@ + s@.subrange(lo as int, hi as int),
{
    let ghost init = out@;
    let mut i = lo;
    while i < hi
        invariant
            lo <= i <= hi <= s@.len(),
            out@ == init + s@.subrange(lo as int, i as int),
        decreases hi - i,
    {
        out.push(s[i]);
        i = i + 1;
        assert(out@ =~= init + s@.subrange(lo as int, i as int));
    }
}

/// Whether a 309-digit run, cut or padded from `digits[z..]`, is below the overflow
/// threshold.
fn padded_below(digits: &Vec<char>, z: usize) -> (r: bool)
    requires
        z < digits@.len(),
        all_digits(padded309(digits@.subrange(z as int, digits@.len() as int))),
        padded309(digits@.subrange(z as int, digits@.len() as int)).len() == 309,
    ensures
        r == (digits_value(padded309(digits@.subrange(z as int, digits@.len() as int)))
            < f64_overflow()),
{
    let ghost sig = digits@.subrange(z as int, digits@.len() as int);
    let len = digits.len();
    let mut p: Vec<char> = Vec::new();
    let mut i: usize = 0;
    while i < 309
        invariant
            i <= 309,
            z < len == digits@.len(),
            sig == digits@.subrange(z as int, len as int),
            p@.len() == i,
            forall|j: int| 0 <= j < i ==> #[trigger] p@[j] == padded309(sig)[j],
        decreases 309 - i,
    {
        let c = if i < len - z {
            digits[z + i]
        } else {
            '0'
        };
        proof {
            if sig.len() <= 309 {
                let zs = Seq::new((309 - sig.len()) as nat, |q: int| '0');
                if i < sig.len() {
                    assert((sig + zs)[i as int] == sig[i as int]);
                } else {
                    assert((sig + zs)[i as int] == zs[i - sig.len()]);
                }
            }
        }
        p.push(c);
        i = i + 1;
    }
    assert(p@ =~= padded309(sig));
    let t = chars_of(F64_OVERFLOW_DIGITS);
    proof {
        lemma_overflow_digits();
    }
    let mut j: usize = 0;
    while j < 309
        invariant
            j <= 309,
            p@ == padded309(sig),
            sig == digits@.subrange(z as int, digits@.len() as int),
            t@ == F64_OVERFLOW_DIGITS@,
            t@.len() == 309,
            p@.len() == 309,
            all_digits(p@),
            all_digits(t@),
            p@.subrange(0, j as int) == t@.subrange(0, j as int),
        decreases 309 - j,
    {
        if p[j] != t[j] {
            proof {
                assert(is_digit(p@[j as int]) && is_digit(t@[j as int]));
                if digit_value(p@[j as int]) < digit_value(t@[j as int]) {
                    lemma_digits_first_difference(p@, t@, j as int);
                } else {
                    lemma_digits_first_difference(t@, p@, j as int);
                }
            }
            return p[j] < t[j];
        }
        proof {
            assert(p@.subrange(0, j + 1) =~= p@.subrange(0, j as int).push(p@[j as int]));
            assert(t@.subrange(0, j + 1) =~= t@.subrange(0, j as int).push(t@[j as int]));
        }
        j = j + 1;
    }
    assert(p@.subrange(0, 309) =~= p@);
    assert(t@.subrange(0, 309) =~= t@);
    assert(p@ =~= t@);
    false
}

/// Whether digits scaled by a power of ten stay below the overflow threshold, given the
/// scale as `x - frac` or, when `saturated` is not 0, only its side of the cap.
fn below_overflow(digits: &Vec<char>, x: i128, saturated: i8, frac: usize, Ghost(scale): Ghost<int>) -> (r: bool)
    requires
        all_digits(digits@),
        saturated == 0 ==> scale == x - frac && -exponent_cap() <= x <= exponent_cap(),
        saturated > 0 ==> scale > exponent_cap() - frac,
        saturated < 0 ==> scale < -exponent_cap(),
    ensures
        r == scaled_below(digits_value(digits@), scale, f64_overflow()),
{
    let len = digits.len();
    let mut z: usize = 0;
    while z < len && digits[z] == '0'
        invariant
            z <= len == digits@.len(),
            forall|j: int| 0 <= j < z ==> digits@[j] == '0',
        decreases len - z,
    {
        z = z + 1;
    }
    let ghost zeros = digits@.subrange(0, z as int);
    let ghost sig = digits@.subrange(z as int, len as int);
    proof {
        assert(zeros + sig =~= digits@);
        lemma_zeros_value(zeros);
        assert forall|j: int| 0 <= j < sig.len() implies is_digit(#[trigger] sig[j]) by {
            assert(sig[j] == digits@[z + j]);
        }
        lemma_digits_concat(zeros, sig);
        lemma_overflow_digits();
    }
    if z == len {
        proof {
            assert(sig.len() == 0);
            if scale >= 0 {
                assert(0 * pow10(scale as nat) == 0);
            } else {
                lemma_pow10_positive((-scale) as nat);
                assert(f64_overflow() * pow10((-scale) as nat) >= 1) by (nonlinear_arith)
                    requires
                        f64_overflow() >= 1,
                        pow10((-scale) as nat) >= 1,
                ;
            }
        }
        return true;
    }
    proof {
        assert(sig[0] == digits@[z as int]);
        lemma_scaled_cases(sig, scale);
    }
    let n = len - z;
    if saturated > 0 {
        return false;
    }
    if saturated < 0 {
        return true;
    }
    let kd: i128 = n as i128 + x - frac as i128;
    if kd <= 308 {
        true
    } else if kd >= 310 {
        false
    } else {
        padded_below(digits, z)
    }
}

/// Recognises a decimal numeral that reads as a finite 64-bit float, with digits for
/// its mantissa and an integer exponent (see `is_finite_numeral`).
#[verifier::rlimit(60)]
pub fn is_finite_decimal_text(text: &str) -> (r: bool)
    ensures
        r == is_finite_numeral(text@),
{
    if !is_decimal_text(text) {
        return false;
    }
    let s = chars_of(text);
    let hi = s.len();
    let start: usize = if 0 < hi && (s[0] == '+' || s[0] == '-') {
        1
    } else {
        0
    };
    let ghost u = s@.subrange(start as int, hi as int);
    assert(unsigned_part(text@) =~= u);
    let k = find_either(&s, start, hi, 'e', 'E');
    proof {
        assert forall|j: int| 0 <= j < k - start implies u[j] != 'e' && u[j] != 'E' by {
            assert(u[j] == s@[start + j]);
        }
        if k < hi {
            assert(u[k - start] == s@[k as int]);
        }
        lemma_first_index(u, 'e', 'E', k - start);
    }
    let ghost m = u.subrange(0, k - start);
    assert(m =~= s@.subrange(start as int, k as int));
    let d = find_either(&s, start, k, '.', '.');
    proof {
        assert forall|j: int| 0 <= j < d - start implies m[j] != '.' && m[j] != '.' by {
            assert(m[j] == s@[start + j]);
        }
        if d < k {
            assert(m[d - start] == s@[d as int]);
        }
        lemma_first_index(m, '.', '.', d - start);
    }
    let mut digits: Vec<char> = Vec::new();
    copy_range(&s, start, d, &mut digits);
    let frac: usize = if d < k {
        copy_range(&s, d + 1, k, &mut digits);
        k - d - 1
    } else {
        0
    };
    let ghost parts = numeral_parts(text@);
    proof {
        if d < k {
            assert(m.subrange(0, d - start) =~= s@.subrange(start as int, d as int));
            assert(m.subrange(d - start + 1, m.len() as int) =~= s@.subrange(d + 1, k as int));
        }
        assert(digits@ =~= parts.0);
    }
    let len = digits.len();
    assert(digits@.subrange(0, len as int) =~= digits@);
    if !digits_between(&digits, 0, len) {
        return false;
    }
    let (x, saturated): (i128, i8) = if k < hi {
        assert(u.subrange(k - start + 1, u.len() as int) =~= s@.subrange(k + 1, hi as int));
        if !integer_numeral_between(&s, k + 1, hi) {
            return false;
        }
        bounded_numeral(&s, k + 1, hi)
    } else {
        (0, 0)
    };
    below_overflow(&digits, x, saturated, frac, Ghost(parts.1))
}

} // verus!
