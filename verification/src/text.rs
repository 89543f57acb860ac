//! Text primitives shared by the whole crate: string equality, prefixes,
//! and the decimal form of 32-bit integers (printing and parsing, with the
//! error kinds that the standard library reports).
use vstd::prelude::*;
use vstd::string::*;
use vstd::utf8::*;

verus! {

// ---------------------------------------------------------------------------
// Characters and digits
// ---------------------------------------------------------------------------

pub open spec fn is_digit_char(c: char) -> bool {
    '0' <= c && c <= '9'
}

pub open spec fn digit_value(c: char) -> int {
    (c as int) - ('0' as int)
}

pub open spec fn digit_char(d: int) -> char {
    if d == 0 {
        '0'
    } else if d == 1 {
        '1'
    } else if d == 2 {
        '2'
    } else if d == 3 {
        '3'
    } else if d == 4 {
        '4'
    } else if d == 5 {
        '5'
    } else if d == 6 {
        '6'
    } else if d == 7 {
        '7'
    } else if d == 8 {
        '8'
    } else {
        '9'
    }
}

/// The decimal digits of a natural number, most significant first, without
/// leading zeros.
pub open spec fn nat_decimal(n: nat) -> Seq<char>
    decreases n,
{
    if n < 10 {
        seq![digit_char(n as int)]
    } else {
        nat_decimal(n / 10).push(digit_char((n % 10) as int))
    }
}

/// The decimal form of an integer, as `Display` writes it: a minus sign for
/// negative numbers, no sign otherwise.
pub open spec fn int_decimal(n: int) -> Seq<char> {
    if n < 0 {
        seq!['-'] + nat_decimal((-n) as nat)
    } else {
        nat_decimal(n as nat)
    }
}

// ---------------------------------------------------------------------------
// Parsing `i32`
// ---------------------------------------------------------------------------

/// Why a string is not a valid `i32`, with the same cases as the standard
/// library's `IntErrorKind` for a signed 32-bit integer in radix 10.
#[derive(Debug, Clone, Copy, PartialEq, Eq, Structural)]
pub enum IntErrorKind {
    Empty,
    InvalidDigit,
    PosOverflow,
    NegOverflow,
}

impl IntErrorKind {
    pub open spec fn spec_message(self) -> Seq<char> {
        match self {
            IntErrorKind::Empty => "cannot parse integer from empty string"@,
            IntErrorKind::InvalidDigit => "invalid digit found in string"@,
            IntErrorKind::PosOverflow => "number too large to fit in target type"@,
            IntErrorKind::NegOverflow => "number too small to fit in target type"@,
        }
    }

    /// The text that the standard library's `ParseIntError` displays for this kind.
    pub fn message(&self) -> (s: &'static str)
        ensures
            s@ == self.spec_message(),
    {
        match self {
            IntErrorKind::Empty => "cannot parse integer from empty string",
            IntErrorKind::InvalidDigit => "invalid digit found in string",
            IntErrorKind::PosOverflow => "number too large to fit in target type",
            IntErrorKind::NegOverflow => "number too small to fit in target type",
        }
    }
}

pub open spec fn in_i32_range(n: int) -> bool {
    i32::MIN <= n && n <= i32::MAX
}

/// Reads the digits `s` left to right into `acc`, accumulating downwards
/// when `neg` holds (so that `i32::MIN` is reachable). The first character
/// that is not a digit gives `InvalidDigit`; the first step that leaves the
/// range of `i32` gives an overflow of the matching sign.
pub open spec fn fold_digits(s: Seq<char>, neg: bool, acc: int) -> Result<int, IntErrorKind>
    decreases s.len(),
{
    if s.len() == 0 {
        Ok(acc)
    } else {
        let c = s[0];
        if !is_digit_char(c) {
            Err(IntErrorKind::InvalidDigit)
        } else {
            let next = if neg {
                acc * 10 - digit_value(c)
            } else {
                acc * 10 + digit_value(c)
            };
            if !in_i32_range(next) {
                Err(
                    if neg {
                        IntErrorKind::NegOverflow
                    } else {
                        IntErrorKind::PosOverflow
                    },
                )
            } else {
                fold_digits(s.drop_first(), neg, next)
            }
        }
    }
}

/// What `str::parse::<i32>` gives for the text `s`: an optional sign
/// (`+` or `-`) followed by at least one decimal digit.
pub open spec fn spec_parse_i32(s: Seq<char>) -> Result<int, IntErrorKind> {
    if s.len() == 0 {
        Err(IntErrorKind::Empty)
    } else if s.len() == 1 && (s[0] == '+' || s[0] == '-') {
        Err(IntErrorKind::InvalidDigit)
    } else if s[0] == '-' {
        fold_digits(s.drop_first(), true, 0)
    } else if s[0] == '+' {
        fold_digits(s.drop_first(), false, 0)
    } else {
        fold_digits(s, false, 0)
    }
}

proof fn lemma_fold_stays_in_range(s: Seq<char>, neg: bool, acc: int)
    requires
        in_i32_range(acc),
    ensures
        fold_digits(s, neg, acc) matches Ok(n) ==> in_i32_range(n),
    decreases s.len(),
{
    if s.len() > 0 {
        let c = s[0];
        if is_digit_char(c) {
            let next = if neg {
                acc * 10 - digit_value(c)
            } else {
                acc * 10 + digit_value(c)
            };
            if in_i32_range(next) {
                lemma_fold_stays_in_range(s.drop_first(), neg, next);
            }
        }
    }
}

/// The result of `spec_parse_i32` always fits in an `i32`.
pub proof fn lemma_parse_i32_in_range(s: Seq<char>)
    ensures
        spec_parse_i32(s) matches Ok(n) ==> in_i32_range(n),
{
    if s.len() > 0 {
        lemma_fold_stays_in_range(s.drop_first(), true, 0);
        lemma_fold_stays_in_range(s.drop_first(), false, 0);
        lemma_fold_stays_in_range(s, false, 0);
    }
}

proof fn lemma_fold_push(s: Seq<char>, c: char, neg: bool, acc: int, mid: int)
    requires
        fold_digits(s, neg, acc) == Ok::<int, IntErrorKind>(mid),
    ensures
        fold_digits(s.push(c), neg, acc) == fold_digits(seq![c], neg, mid),
    decreases s.len(),
{
    if s.len() == 0 {
        assert(s.push(c) =~= seq![c]);
    } else {
        let d = s[0];
        let next = if neg {
            acc * 10 - digit_value(d)
        } else {
            acc * 10 + digit_value(d)
        };
        assert(s.push(c).drop_first() =~= s.drop_first().push(c));
        assert(s.push(c)[0] == d);
        lemma_fold_push(s.drop_first(), c, neg, next, mid);
    }
}

pub(crate) proof fn lemma_digit_char(d: int)
    requires
        0 <= d < 10,
    ensures
        is_digit_char(digit_char(d)),
        digit_value(digit_char(d)) == d,
{
}

pub(crate) proof fn lemma_nat_decimal_digits(n: nat)
    ensures
        nat_decimal(n).len() >= 1,
        forall|i: int| 0 <= i < nat_decimal(n).len() ==> is_digit_char(#[trigger] nat_decimal(n)[i]),
    decreases n,
{
    lemma_digit_char((n % 10) as int);
    if n >= 10 {
        lemma_nat_decimal_digits(n / 10);
    } else {
        lemma_digit_char(n as int);
    }
}

proof fn lemma_fold_nat_decimal(m: nat, neg: bool)
    requires
        in_i32_range(if neg { -m } else { m as int }),
    ensures
        fold_digits(nat_decimal(m), neg, 0) == Ok::<int, IntErrorKind>(if neg { -m } else { m as int }),
    decreases m,
{
    lemma_digit_char((m % 10) as int);
    if m < 10 {
        lemma_digit_char(m as int);
        let s = nat_decimal(m);
        assert(s.drop_first() =~= Seq::<char>::empty());
        let next: int = if neg { 0 - m } else { m as int };
        assert(fold_digits(s.drop_first(), neg, next) == Ok::<int, IntErrorKind>(next));
    } else {
        let q = m / 10;
        let r = m % 10;
        assert(m == q * 10 + r);
        assert(in_i32_range(if neg { -q } else { q as int }));
        lemma_fold_nat_decimal(q, neg);
        let c = digit_char(r as int);
        assert(nat_decimal(m) == nat_decimal(q).push(c));
        lemma_fold_push(nat_decimal(q), c, neg, 0, if neg { -q } else { q as int });
        let t = seq![c];
        assert(t.drop_first() =~= Seq::<char>::empty());
        let acc: int = if neg { -q } else { q as int };
        let next: int = if neg { acc * 10 - r } else { acc * 10 + (r as int) };
        assert(next == if neg { -m } else { m as int });
        assert(fold_digits(t.drop_first(), neg, next) == Ok::<int, IntErrorKind>(next));
        assert(fold_digits(t, neg, acc) == Ok::<int, IntErrorKind>(next));
    }
}

/// Parsing the decimal form of any `i32` gives that number back.
pub proof fn lemma_parse_int_decimal(n: i32)
    ensures
        spec_parse_i32(int_decimal(n as int)) == Ok::<int, IntErrorKind>(n as int),
{
    let s = int_decimal(n as int);
    if n < 0 {
        let m = (-(n as int)) as nat;
        lemma_nat_decimal_digits(m);
        lemma_fold_nat_decimal(m, true);
        assert(s.drop_first() =~= nat_decimal(m));
        assert(s[0] == '-');
    } else {
        let m = n as nat;
        lemma_nat_decimal_digits(m);
        lemma_fold_nat_decimal(m, false);
        assert(is_digit_char(s[0]));
    }
}

// ---------------------------------------------------------------------------
// Executable string helpers
// ---------------------------------------------------------------------------

/// Whether two strings hold the same characters.
pub fn str_eq(a: &str, b: &str) -> (r: bool)
    ensures
        r == (a@ == b@),
{
    let x = a.as_bytes();
    let y = b.as_bytes();
    proof {
        encode_utf8_decode_utf8(a@);
        encode_utf8_decode_utf8(b@);
    }
    if x.len() != y.len() {
        return false;
    }
    let mut i: usize = 0;
    while i < x.len()
        invariant
            x@ == a.spec_bytes(),
            y@ == b.spec_bytes(),
            x.len() == y.len(),
            i <= x.len(),
            forall|j: int| 0 <= j < i ==> x@[j] == y@[j],
        decreases x.len() - i,
    {
        if x[i] != y[i] {
            return false;
        }
        i = i + 1;
    }
    assert(x@ =~= y@);
    true
}

/// Whether `s` begins with `prefix`.
pub fn starts_with(s: &str, prefix: &str) -> (r: bool)
    ensures
        r == prefix@.is_prefix_of(s@),
{
    let n = prefix.unicode_len();
    let m = s.unicode_len();
    if n > m {
        return false;
    }
    let head = s.substring_char(0, n);
    let r = str_eq(head, prefix);
    proof {
        if prefix@.is_prefix_of(s@) {
            assert(head@ =~= prefix@);
        }
        if r {
            assert forall|i: int| 0 <= i < prefix@.len() implies prefix@[i] == s@[i] by {
                assert(head@[i] == s@[i]);
            }
        }
    }
    r
}

/// The characters of `s` from position `from` on (the text after a prefix).
pub fn chars_from(s: &str, from: usize) -> (r: &str)
    requires
        from <= s@.len(),
    ensures
        r@ == s@.skip(from as int),
{
    let len = s.unicode_len();
    let r = s.substring_char(from, len);
    assert(r@ =~= s@.skip(from as int));
    r
}

fn digit_str(d: u32) -> (s: &'static str)
    requires
        d < 10,
    ensures
        s@ == seq![digit_char(d as int)],
{
    proof {
        reveal_strlit("0");
        reveal_strlit("1");
        reveal_strlit("2");
        reveal_strlit("3");
        reveal_strlit("4");
        reveal_strlit("5");
        reveal_strlit("6");
        reveal_strlit("7");
        reveal_strlit("8");
        reveal_strlit("9");
    }
    let s = if d == 0 {
        "0"
    } else if d == 1 {
        "1"
    } else if d == 2 {
        "2"
    } else if d == 3 {
        "3"
    } else if d == 4 {
        "4"
    } else if d == 5 {
        "5"
    } else if d == 6 {
        "6"
    } else if d == 7 {
        "7"
    } else if d == 8 {
        "8"
    } else {
        "9"
    };
    assert(s@ =~= seq![digit_char(d as int)]);
    s
}

fn append_nat_decimal(out: &mut String, m: u64)
    ensures
        final(out)@ == old(out)@ + nat_decimal(m as nat),
    decreases m,
{
    if m >= 10 {
        append_nat_decimal(out, m / 10);
    }
    let d = (m % 10) as u32;
    out.append(digit_str(d));
    proof {
        if m >= 10 {
            assert(old(out)@ + nat_decimal(m as nat) =~= old(out)@ + nat_decimal((m / 10) as nat)
                + seq![digit_char((m % 10) as int)]);
        } else {
            assert(m % 10 == m);
        }
    }
}

/// Appends the decimal form of `n` to `out`, as `format!("{}", n)` would.
pub fn push_i64_decimal(out: &mut String, n: i64)
    ensures
        final(out)@ == old(out)@ + int_decimal(n as int),
{
    if n < 0 {
        out.append("-");
        proof {
            reveal_strlit("-");
        }
        let m: u64 = if n == i64::MIN {
            9223372036854775808u64
        } else {
            (-n) as u64
        };
        let ghost mid = out@;
        append_nat_decimal(out, m);
        assert(final(out)@ =~= old(out)@ + int_decimal(n as int));
    } else {
        append_nat_decimal(out, n as u64);
    }
}

/// The decimal form of an `i32`, as its `Display` writes it.
pub fn i32_to_decimal(n: i32) -> (s: String)
    ensures
        s@ == int_decimal(n as int),
{
    let mut s = String::new();
    push_i64_decimal(&mut s, n as i64);
    assert(s@ =~= int_decimal(n as int));
    s
}

/// `str::parse::<i32>`: the number that `s` writes, or why it is not one.
pub fn parse_i32(s: &str) -> (r: Result<i32, IntErrorKind>)
    ensures
        match r {
            Ok(n) => spec_parse_i32(s@) == Ok::<int, IntErrorKind>(n as int),
            Err(k) => spec_parse_i32(s@) == Err::<int, IntErrorKind>(k),
        },
{
    let len = s.unicode_len();
    if len == 0 {
        return Err(IntErrorKind::Empty);
    }
    let c0 = s.get_char(0);
    if len == 1 && (c0 == '+' || c0 == '-') {
        return Err(IntErrorKind::InvalidDigit);
    }
    let neg = c0 == '-';
    let start: usize = if c0 == '-' || c0 == '+' {
        1
    } else {
        0
    };
    let ghost digits = s@.subrange(start as int, len as int);
    proof {
        if start == 1 {
            assert(digits =~= s@.drop_first());
        } else {
            assert(digits =~= s@);
        }
    }
    assert(s@[0] == c0);
    assert(spec_parse_i32(s@) == fold_digits(digits, neg, 0));
    let mut acc: i64 = 0;
    let mut i: usize = start;
    while i < len
        invariant
            len == s@.len(),
            start <= i <= len,
            in_i32_range(acc as int),
            fold_digits(digits, neg, 0) == fold_digits(s@.subrange(i as int, len as int), neg, acc as int),
            digits == s@.subrange(start as int, len as int),
            spec_parse_i32(s@) == fold_digits(digits, neg, 0),
        decreases len - i,
    {
        let ghost rest = s@.subrange(i as int, len as int);
        let c = s.get_char(i);
        assert(rest[0] == c);
        assert(rest.drop_first() =~= s@.subrange(i as int + 1, len as int));
        if !('0' <= c && c <= '9') {
            return Err(IntErrorKind::InvalidDigit);
        }
        let d = (c as u32 - '0' as u32) as i64;
        assert(d == digit_value(c));
        let next: i64 = if neg {
            acc * 10 - d
        } else {
            acc * 10 + d
        };
        if next < i32::MIN as i64 || next > i32::MAX as i64 {
            return if neg {
                Err(IntErrorKind::NegOverflow)
            } else {
                Err(IntErrorKind::PosOverflow)
            };
        }
        acc = next;
        i = i + 1;
    }
    assert(s@.subrange(len as int, len as int) =~= Seq::<char>::empty());
    Ok(acc as i32)
}

} // verus!
