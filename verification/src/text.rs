//! Character classification and numeric parsing over text.

use vstd::prelude::*;
use vstd::string::StrSliceExecFns;
use vstd::string::StringExecFns;

verus! {

// ---------------------------------------------------------------------------
// Character classification
// ---------------------------------------------------------------------------

/// An ASCII letter or digit.
pub open spec fn spec_is_alnum(c: char) -> bool {
    let u = c as u32;
    (48 <= u && u <= 57) || (65 <= u && u <= 90) || (97 <= u && u <= 122)
}

/// A character that may start a bareword: alphanumeric or `_`.
pub open spec fn spec_is_bareword_start(c: char) -> bool {
    spec_is_alnum(c) || c as u32 == 95
}

/// A character that may continue a bareword: alphanumeric, `_`, `.`, `:`, `-`.
pub open spec fn spec_is_bareword_char(c: char) -> bool {
    spec_is_bareword_start(c) || c as u32 == 46 || c as u32 == 58 || c as u32 == 45
}

/// An ASCII decimal digit.
pub open spec fn spec_is_digit(c: char) -> bool {
    48 <= c as u32 && c as u32 <= 57
}

pub fn is_alnum(c: char) -> (r: bool)
    ensures
        r == spec_is_alnum(c),
{
    let u = c as u32;
    (48 <= u && u <= 57) || (65 <= u && u <= 90) || (97 <= u && u <= 122)
}

pub fn is_bareword_start(c: char) -> (r: bool)
    ensures
        r == spec_is_bareword_start(c),
{
    is_alnum(c) || c as u32 == 95
}

pub fn is_bareword_char(c: char) -> (r: bool)
    ensures
        r == spec_is_bareword_char(c),
{
    is_bareword_start(c) || c as u32 == 46 || c as u32 == 58 || c as u32 == 45
}

pub fn is_digit(c: char) -> (r: bool)
    ensures
        r == spec_is_digit(c),
{
    let u = c as u32;
    48 <= u && u <= 57
}

/// Whether `c` has the Unicode `White_Space` property.
pub uninterp spec fn unicode_whitespace(c: char) -> bool;

/// Relies on char::is_whitespace: true exactly for characters with the
/// Unicode `White_Space` property, which includes space, tab, newline and
/// carriage return.
#[verifier::external_body]
pub fn is_whitespace(c: char) -> (r: bool)
    ensures
        r == unicode_whitespace(c),
        c == ' ' || c == '\t' || c == '\n' || c == '\r' ==> r,
{
    c.is_whitespace()
}

// ---------------------------------------------------------------------------
// Text equality
// ---------------------------------------------------------------------------

/// Relies on str's PartialEq: two string slices are equal exactly when their
/// character sequences are equal.
#[verifier::external_body]
pub fn str_eq(a: &str, b: &str) -> (r: bool)
    ensures
        r == (a@ == b@),
{
    a == b
}

// ---------------------------------------------------------------------------
// Numeric parsing
// ---------------------------------------------------------------------------

/// Numeric value of a sequence of decimal digits, most significant first.
pub open spec fn spec_digits_val(s: Seq<char>) -> int
    decreases s.len(),
{
    if s.len() == 0 {
        0
    } else {
        spec_digits_val(s.drop_last()) * 10 + (s.last() as u32 - 48)
    }
}

/// A non-empty, all-digit sequence.
pub open spec fn spec_all_digits(s: Seq<char>) -> bool {
    s.len() > 0 && forall|i: int| 0 <= i < s.len() ==> spec_is_digit(#[trigger] s[i])
}

/// The unsigned integer denoted by `s`, if `s` is a non-empty run of digits.
pub open spec fn spec_parse_uint(s: Seq<char>) -> Option<int> {
    if spec_all_digits(s) {
        Some(spec_digits_val(s))
    } else {
        None
    }
}

/// The signed integer denoted by `s`: an optional `+` or `-` sign followed by
/// a non-empty run of digits.
pub open spec fn spec_parse_int(s: Seq<char>) -> Option<int> {
    if s.len() > 0 && s[0] == '-' {
        match spec_parse_uint(s.drop_first()) {
            Some(v) => Some(-v),
            None => None,
        }
    } else if s.len() > 0 && s[0] == '+' {
        spec_parse_uint(s.drop_first())
    } else {
        spec_parse_uint(s)
    }
}

proof fn lemma_digits_val_nonneg(s: Seq<char>)
    requires
        forall|i: int| 0 <= i < s.len() ==> spec_is_digit(#[trigger] s[i]),
    ensures
        spec_digits_val(s) >= 0,
    decreases s.len(),
{
    if s.len() > 0 {
        lemma_digits_val_nonneg(s.drop_last());
    }
}

proof fn lemma_digits_val_extend_ge(s: Seq<char>, n: int)
    requires
        forall|i: int| 0 <= i < s.len() ==> spec_is_digit(#[trigger] s[i]),
        0 <= n <= s.len(),
    ensures
        spec_digits_val(s) >= spec_digits_val(s.take(n)),
    decreases s.len() - n,
{
    if n < s.len() {
        lemma_digits_val_extend_ge(s, n + 1);
        let t = s.take(n + 1);
        assert(t.drop_last() =~= s.take(n));
        lemma_digits_val_nonneg(s.take(n));
        assert(spec_digits_val(t) == spec_digits_val(s.take(n)) * 10 + (t.last() as u32 - 48));
    } else {
        assert(s.take(n) =~= s);
    }
}

proof fn lemma_digits_val_bound(s: Seq<char>)
    requires
        forall|i: int| 0 <= i < s.len() ==> spec_is_digit(#[trigger] s[i]),
    ensures
        spec_digits_val(s) < spec_pow10(s.len() as nat),
    decreases s.len(),
{
    if s.len() > 0 {
        lemma_digits_val_bound(s.drop_last());
        assert(spec_pow10(s.len() as nat) == 10 * spec_pow10((s.len() - 1) as nat));
        assert(spec_digits_val(s) == spec_digits_val(s.drop_last()) * 10 + (s.last() as u32
            - 48));
        assert(spec_digits_val(s.drop_last()) * 10 <= (spec_pow10((s.len() - 1) as nat) - 1)
            * 10) by (nonlinear_arith)
            requires
                spec_digits_val(s.drop_last()) <= spec_pow10((s.len() - 1) as nat) - 1,
        ;
    }
}

proof fn lemma_mul_le(a: int, b: int, c: int)
    requires
        a >= 0,
        0 <= b <= c,
    ensures
        a * b <= a * c,
{
    assert(a * b <= a * c) by (nonlinear_arith)
        requires
            a >= 0,
            0 <= b <= c,
    ;
}

proof fn lemma_spec_pow10_18()
    ensures
        spec_pow10(18) == 1000000000000000000,
{
    assert(spec_pow10(0) == 1);
    assert(spec_pow10(1) == 10);
    assert(spec_pow10(2) == 100);
    assert(spec_pow10(3) == 1000);
    assert(spec_pow10(4) == 10000);
    assert(spec_pow10(5) == 100000);
    assert(spec_pow10(6) == 1000000);
    assert(spec_pow10(7) == 10000000);
    assert(spec_pow10(8) == 100000000);
    assert(spec_pow10(9) == 1000000000);
    assert(spec_pow10(10) == 10000000000);
    assert(spec_pow10(11) == 100000000000);
    assert(spec_pow10(12) == 1000000000000);
    assert(spec_pow10(13) == 10000000000000);
    assert(spec_pow10(14) == 100000000000000);
    assert(spec_pow10(15) == 1000000000000000);
    assert(spec_pow10(16) == 10000000000000000);
    assert(spec_pow10(17) == 100000000000000000);
    assert(spec_pow10(18) == 1000000000000000000);
}

proof fn lemma_spec_pow10_mono(a: nat, b: nat)
    requires
        a <= b,
    ensures
        spec_pow10(a) <= spec_pow10(b),
    decreases b,
{
    lemma_spec_pow10_pos(a);
    if a < b {
        lemma_spec_pow10_mono(a, (b - 1) as nat);
        assert(spec_pow10(b) == 10 * spec_pow10((b - 1) as nat));
        lemma_spec_pow10_pos((b - 1) as nat);
    }
}

/// Parses a run of decimal digits as an unsigned magnitude, bounded by `max`.
/// Returns `None` when `s` is empty, holds a non-digit, or denotes a value
/// above `max`.
pub fn parse_digits_bounded(s: &str, max: u128) -> (r: Option<u128>)
    ensures
        match r {
            Some(v) => spec_parse_uint(s@) == Some(v as int) && v <= max,
            None => spec_parse_uint(s@) is None || spec_parse_uint(s@)->Some_0 > max,
        },
{
    let n = s.unicode_len();
    if n == 0 {
        return None;
    }
    let mut acc: u128 = 0;
    let mut i: usize = 0;
    while i < n
        invariant
            0 <= i <= n,
            n == s@.len(),
            acc <= max,
            acc as int == spec_digits_val(s@.take(i as int)),
            forall|j: int| 0 <= j < i ==> spec_is_digit(#[trigger] s@[j]),
        decreases n - i,
    {
        let c = s.get_char(i);
        if !is_digit(c) {
            return None;
        }
        let d: u128 = (c as u32 - 48) as u128;
        proof {
            assert(s@.take(i + 1).drop_last() =~= s@.take(i as int));
            assert(spec_digits_val(s@.take(i + 1)) == acc * 10 + d);
        }
        let next = match acc.checked_mul(10) {
            Some(m) => m.checked_add(d),
            None => None,
        };
        match next {
            Some(v) => {
                if v <= max {
                    acc = v;
                    i = i + 1;
                } else {
                    proof {
                        if spec_all_digits(s@) {
                            lemma_digits_val_extend_ge(s@, i + 1);
                        }
                    }
                    return None;
                }
            },
            None => {
                proof {
                    if spec_all_digits(s@) {
                        lemma_digits_val_extend_ge(s@, i + 1);
                    }
                }
                return None;
            },
        }
    }
    proof {
        assert(s@.take(n as int) =~= s@);
    }
    Some(acc)
}

/// The unsigned integer denoted by `s`: an optional leading `+` followed
/// by a non-empty run of digits.
pub open spec fn spec_parse_unsigned(s: Seq<char>) -> Option<int> {
    if s.len() > 0 && s[0] == '+' {
        spec_parse_uint(s.drop_first())
    } else {
        spec_parse_uint(s)
    }
}

/// Parses an unsigned 32-bit integer: an optional leading `+`, then
/// digits; exactly the values that fit in `u32` are accepted.
pub fn parse_u32(s: &str) -> (r: Option<u32>)
    ensures
        match r {
            Some(v) => spec_parse_unsigned(s@) == Some(v as int),
            None => spec_parse_unsigned(s@) is None || spec_parse_unsigned(s@)->Some_0
                > u32::MAX,
        },
{
    let n = s.unicode_len();
    let body = if n > 0 && s.get_char(0) as u32 == 43 {
        let rest = s.substring_char(1, n);
        proof {
            assert(rest@ =~= s@.drop_first());
        }
        rest
    } else {
        s
    };
    match parse_digits_bounded(body, u32::MAX as u128) {
        Some(v) => Some(v as u32),
        None => None,
    }
}

/// Parses a signed integer with an optional leading `+` or `-`, bounded to
/// `[min, max]`.
pub fn parse_int_bounded(s: &str, min: i128, max: i128) -> (r: Option<i128>)
    requires
        min <= 0 <= max,
    ensures
        match r {
            Some(v) => spec_parse_int(s@) == Some(v as int) && min <= v <= max,
            None => spec_parse_int(s@) is None || !(min <= spec_parse_int(s@)->Some_0 <= max),
        },
{
    let n = s.unicode_len();
    if n == 0 {
        return None;
    }
    let c0 = s.get_char(0);
    if c0 as u32 == 45 {
        // leading minus sign: parse the magnitude, which may exceed i128::MAX
        // by one for the most negative value
        let mag_max: u128 = if min == i128::MIN {
            170141183460469231731687303715884105728u128
        } else {
            (-min) as u128
        };
        let rest = s.substring_char(1, n);
        assert(rest@ =~= s@.drop_first());
        match parse_digits_bounded(rest, mag_max) {
            Some(v) => {
                if v == 170141183460469231731687303715884105728u128 {
                    Some(i128::MIN)
                } else {
                    Some(-(v as i128))
                }
            },
            None => None,
        }
    } else if c0 as u32 == 43 {
        // leading plus sign
        let rest = s.substring_char(1, n);
        assert(rest@ =~= s@.drop_first());
        match parse_digits_bounded(rest, max as u128) {
            Some(v) => Some(v as i128),
            None => None,
        }
    } else {
        match parse_digits_bounded(s, max as u128) {
            Some(v) => Some(v as i128),
            None => None,
        }
    }
}

/// Parses a signed 32-bit integer.
pub fn parse_i32(s: &str) -> (r: Option<i32>)
    ensures
        match r {
            Some(v) => spec_parse_int(s@) == Some(v as int),
            None => spec_parse_int(s@) is None || !(i32::MIN <= spec_parse_int(s@)->Some_0
                <= i32::MAX),
        },
{
    match parse_int_bounded(s, i32::MIN as i128, i32::MAX as i128) {
        Some(v) => Some(v as i32),
        None => None,
    }
}

/// Parses a signed 128-bit integer, the value domain of ranges and lengths.
pub fn parse_i128(s: &str) -> (r: Option<i128>)
    ensures
        match r {
            Some(v) => spec_parse_int(s@) == Some(v as int),
            None => spec_parse_int(s@) is None || !(i128::MIN <= spec_parse_int(s@)->Some_0
                <= i128::MAX),
        },
{
    parse_int_bounded(s, i128::MIN, i128::MAX)
}


/// Concatenation of two string slices.
pub fn str_concat(a: &str, b: &str) -> (r: String)
    ensures
        r@ == a@ + b@,
{
    let mut s = String::from_str(a);
    s.append(b);
    s
}

/// Concatenation of three string slices.
pub fn str_concat3(a: &str, b: &str, c: &str) -> (r: String)
    ensures
        r@ == a@ + b@ + c@,
{
    let mut s = String::from_str(a);
    s.append(b);
    s.append(c);
    s
}


// ---------------------------------------------------------------------------
// Splitting and trimming
// ---------------------------------------------------------------------------

/// Index of the first occurrence of `sep` in `s`, or its length when none.
pub open spec fn find_char(s: Seq<char>, sep: char) -> int
    decreases s.len(),
{
    if s.len() == 0 {
        0
    } else if s[0] == sep {
        0
    } else {
        1 + find_char(s.drop_first(), sep)
    }
}

proof fn lemma_find_char_absent(s: Seq<char>, sep: char)
    requires
        forall|k: int| 0 <= k < s.len() ==> s[k] != sep,
    ensures
        find_char(s, sep) == s.len(),
    decreases s.len(),
{
    if s.len() > 0 {
        lemma_find_char_absent(s.drop_first(), sep);
    }
}

proof fn lemma_find_char_concat(l: Seq<char>, sep: char, r: Seq<char>)
    requires
        forall|k: int| 0 <= k < l.len() ==> l[k] != sep,
    ensures
        find_char(l + seq![sep] + r, sep) == l.len(),
    decreases l.len(),
{
    if l.len() == 0 {
        assert((l + seq![sep] + r)[0] == sep);
    } else {
        assert((l + seq![sep] + r).drop_first() =~= l.drop_first() + seq![sep] + r);
        lemma_find_char_concat(l.drop_first(), sep, r);
    }
}

proof fn lemma_find_char_at(s: Seq<char>, sep: char, i: int)
    requires
        0 <= i < s.len(),
        forall|k: int| 0 <= k < i ==> s[k] != sep,
        s[i] == sep,
    ensures
        find_char(s, sep) == i,
    decreases i,
{
    if i > 0 {
        assert(forall|k: int| 0 <= k < i - 1 ==> s.drop_first()[k] == s[k + 1]);
        assert(s.drop_first()[i - 1] == s[i as int]);
        lemma_find_char_at(s.drop_first(), sep, i - 1);
    }
}

/// The segments of `s` split at every occurrence of `sep`: one more
/// segment than there are separators, in order.
pub open spec fn spec_split(s: Seq<char>, sep: char) -> Seq<Seq<char>>
    decreases s.len(),
{
    let i = find_char(s, sep);
    if i < 0 || i >= s.len() {
        seq![s]
    } else {
        seq![s.take(i)] + spec_split(s.skip(i + 1), sep)
    }
}

/// Splits `s` at every occurrence of `sep`.
pub fn split_on_char(s: &str, sep: char) -> (r: Vec<String>)
    ensures
        r.deep_view() == spec_split(s@, sep),
        r@.len() >= 1,
{
    let n = s.unicode_len();
    let mut out: Vec<String> = Vec::new();
    let mut start: usize = 0;
    let mut i: usize = 0;
    proof {
        assert(s@.skip(0) =~= s@);
        assert(out.deep_view() =~= Seq::<Seq<char>>::empty());
        assert(out.deep_view() + spec_split(s@.skip(0), sep) =~= spec_split(s@, sep));
    }
    while i < n
        invariant
            0 <= start <= i <= n,
            n == s@.len(),
            forall|k: int| start <= k < i ==> s@[k] != sep,
            out.deep_view() + spec_split(s@.skip(start as int), sep) == spec_split(s@, sep),
        decreases n - i,
    {
        if s.get_char(i) == sep {
            let ghost pre_dv = out.deep_view();
            let seg = s.substring_char(start, i);
            out.push(String::from_str(seg));
            proof {
                let rest = s@.skip(start as int);
                assert(rest =~= s@.subrange(start as int, i as int) + seq![sep] + s@.skip(i + 1));
                lemma_find_char_concat(
                    s@.subrange(start as int, i as int),
                    sep,
                    s@.skip(i + 1),
                );
                assert(rest.take(i - start) =~= s@.subrange(start as int, i as int));
                assert(rest.skip(i - start + 1) =~= s@.skip(i + 1));
                assert(out.deep_view() =~= pre_dv + seq![s@.subrange(start as int, i as int)]);
                assert(out.deep_view() + spec_split(s@.skip(i + 1), sep) =~= spec_split(
                    s@,
                    sep,
                ));
            }
            start = i + 1;
        }
        i = i + 1;
    }
    let ghost pre_dv = out.deep_view();
    let seg = s.substring_char(start, n);
    out.push(String::from_str(seg));
    proof {
        let rest = s@.skip(start as int);
        assert(forall|k: int| 0 <= k < rest.len() ==> rest[k] != sep);
        lemma_find_char_absent(rest, sep);
        assert(rest =~= s@.subrange(start as int, n as int));
        assert(out.deep_view() =~= pre_dv + seq![rest]);
        assert(out.deep_view() =~= spec_split(s@, sep));
    }
    out
}

/// Index of the first occurrence of two consecutive dots in `s`, or its
/// length when none.
pub open spec fn find_dotdot(s: Seq<char>) -> int
    decreases s.len(),
{
    if s.len() < 2 {
        s.len() as int
    } else if s[0] == '.' && s[1] == '.' {
        0
    } else {
        1 + find_dotdot(s.drop_first())
    }
}

proof fn lemma_find_dotdot_absent(s: Seq<char>)
    requires
        forall|k: int| 0 <= k && k + 1 < s.len() ==> !((#[trigger] s[k]) == '.' && s[k + 1]
            == '.'),
    ensures
        find_dotdot(s) == s.len(),
    decreases s.len(),
{
    if s.len() >= 2 {
        assert(s.drop_first()[0] == s[1]);
        lemma_find_dotdot_absent(s.drop_first());
    }
}

proof fn lemma_find_dotdot_concat(l: Seq<char>, r: Seq<char>)
    requires
        forall|k: int| 0 <= k && k + 1 < l.len() ==> !((#[trigger] l[k]) == '.' && l[k + 1]
            == '.'),
        l.len() > 0 ==> l.last() != '.',
    ensures
        find_dotdot(l + seq!['.', '.'] + r) == l.len(),
    decreases l.len(),
{
    let w = l + seq!['.', '.'] + r;
    if l.len() == 0 {
        assert(w[0] == '.' && w[1] == '.');
    } else {
        assert(w[0] == l[0] && w[1] == (if l.len() >= 2 {
            l[1]
        } else {
            '.'
        }));
        assert(!(w[0] == '.' && w[1] == '.'));
        assert(w.drop_first() =~= l.drop_first() + seq!['.', '.'] + r);
        lemma_find_dotdot_concat(l.drop_first(), r);
    }
}

/// The segments of `s` split at every occurrence of two consecutive dots,
/// scanning left to right without overlap.
pub open spec fn spec_split_dotdot(s: Seq<char>) -> Seq<Seq<char>>
    decreases s.len(),
{
    let i = find_dotdot(s);
    if i < 0 || i + 2 > s.len() {
        seq![s]
    } else {
        seq![s.take(i)] + spec_split_dotdot(s.skip(i + 2))
    }
}

/// Splits `s` at every occurrence of two consecutive dots.
pub fn split_on_dotdot(s: &str) -> (r: Vec<String>)
    ensures
        r.deep_view() == spec_split_dotdot(s@),
        r@.len() >= 1,
{
    let n = s.unicode_len();
    let mut out: Vec<String> = Vec::new();
    let mut start: usize = 0;
    let mut i: usize = 0;
    proof {
        assert(s@.skip(0) =~= s@);
        assert(out.deep_view() =~= Seq::<Seq<char>>::empty());
        assert(out.deep_view() + spec_split_dotdot(s@.skip(0)) =~= spec_split_dotdot(s@));
    }
    while i < n
        invariant
            0 <= start <= i <= n,
            n == s@.len(),
            forall|k: int| start <= k < i ==> (k + 1 < n ==> !((#[trigger] s@[k]) == '.' && s@[
                k + 1] == '.')),
            out.deep_view() + spec_split_dotdot(s@.skip(start as int)) == spec_split_dotdot(s@),
        decreases n - i,
    {
        if i + 1 < n && s.get_char(i) as u32 == 46 && s.get_char(i + 1) as u32 == 46 {
            let ghost pre_dv = out.deep_view();
            let seg = s.substring_char(start, i);
            out.push(String::from_str(seg));
            proof {
                let rest = s@.skip(start as int);
                let l = s@.subrange(start as int, i as int);
                assert(rest =~= l + seq!['.', '.'] + s@.skip(i + 2));
                assert(l.len() > 0 ==> l.last() != '.') by {
                    if start < i {
                        assert(s@[i - 1] != '.');
                    }
                }
                lemma_find_dotdot_concat(l, s@.skip(i + 2));
                assert(rest.take(i - start) =~= l);
                assert(rest.skip(i - start + 2) =~= s@.skip(i + 2));
                assert(out.deep_view() =~= pre_dv + seq![l]);
                assert(out.deep_view() + spec_split_dotdot(s@.skip(i + 2)) =~= spec_split_dotdot(
                    s@,
                ));
            }
            start = i + 2;
            i = i + 2;
        } else {
            i = i + 1;
        }
    }
    let ghost pre_dv = out.deep_view();
    let seg = s.substring_char(start, n);
    out.push(String::from_str(seg));
    proof {
        let rest = s@.skip(start as int);
        assert(forall|k: int| 0 <= k && k + 1 < rest.len() ==> !((#[trigger] rest[k]) == '.'
            && rest[k + 1] == '.')) by {
            assert(forall|k: int| 0 <= k && k + 1 < rest.len() ==> (#[trigger] rest[k]) == s@[
                start + k] && rest[k + 1] == s@[start + k + 1]);
        }
        lemma_find_dotdot_absent(rest);
        assert(rest =~= s@.subrange(start as int, n as int));
        assert(out.deep_view() =~= pre_dv + seq![rest]);
        assert(out.deep_view() =~= spec_split_dotdot(s@));
    }
    out
}

/// `s` without its leading whitespace.
pub open spec fn spec_ltrim(s: Seq<char>) -> Seq<char>
    decreases s.len(),
{
    if s.len() > 0 && unicode_whitespace(s[0]) {
        spec_ltrim(s.drop_first())
    } else {
        s
    }
}

/// `s` without its trailing whitespace.
pub open spec fn spec_rtrim(s: Seq<char>) -> Seq<char>
    decreases s.len(),
{
    if s.len() > 0 && unicode_whitespace(s.last()) {
        spec_rtrim(s.drop_last())
    } else {
        s
    }
}

/// `s` without leading or trailing whitespace.
pub open spec fn spec_trim(s: Seq<char>) -> Seq<char> {
    spec_rtrim(spec_ltrim(s))
}

/// Removes leading and trailing whitespace.
pub fn trim_ws(s: &str) -> (r: String)
    ensures
        r@ == spec_trim(s@),
{
    let n = s.unicode_len();
    let mut b: usize = 0;
    proof {
        assert(s@.skip(0) =~= s@);
    }
    while b < n
        invariant
            0 <= b <= n,
            n == s@.len(),
            spec_ltrim(s@) == spec_ltrim(s@.skip(b as int)),
        ensures
            0 <= b <= n,
            n == s@.len(),
            spec_ltrim(s@) == s@.skip(b as int),
        decreases n - b,
    {
        proof {
            assert(s@.skip(b as int)[0] == s@[b as int]);
            assert(s@.skip(b as int).drop_first() =~= s@.skip(b + 1));
        }
        if is_whitespace(s.get_char(b)) {
            b = b + 1;
        } else {
            break;
        }
    }
    proof {
        if b == n {
            assert(s@.skip(b as int) =~= Seq::<char>::empty());
        }
    }
    let mut e: usize = n;
    while e > b
        invariant
            b <= e <= n,
            n == s@.len(),
            spec_rtrim(s@.skip(b as int)) == spec_rtrim(s@.subrange(b as int, e as int)),
        ensures
            b <= e <= n,
            n == s@.len(),
            spec_rtrim(s@.skip(b as int)) == s@.subrange(b as int, e as int),
        decreases e,
    {
        proof {
            assert(s@.subrange(b as int, e as int).last() == s@[e - 1]);
            assert(s@.subrange(b as int, e as int).drop_last() =~= s@.subrange(
                b as int,
                e - 1,
            ));
        }
        if is_whitespace(s.get_char(e - 1)) {
            e = e - 1;
        } else {
            break;
        }
    }
    proof {
        if e == b {
            assert(s@.subrange(b as int, e as int) =~= Seq::<char>::empty());
        }
        assert(s@.skip(b as int) =~= s@.subrange(b as int, n as int));
    }
    String::from_str(s.substring_char(b, e))
}

/// Ten to the power `n`.
pub open spec fn spec_pow10(n: nat) -> int
    decreases n,
{
    if n == 0 {
        1
    } else {
        10 * spec_pow10((n - 1) as nat)
    }
}

proof fn lemma_spec_pow10_pos(n: nat)
    ensures
        spec_pow10(n) >= 1,
    decreases n,
{
    if n > 0 {
        lemma_spec_pow10_pos((n - 1) as nat);
    }
}

/// The fixed-point value of a decimal literal, in units of 10^-18: an
/// optional sign, a non-empty run of digits, one dot, and one to eighteen
/// fractional digits; nothing otherwise, or when the value leaves the
/// 128-bit domain.
pub open spec fn spec_parse_decimal(s: Seq<char>) -> Option<int> {
    let neg = s.len() > 0 && s[0] == '-';
    let body = if s.len() > 0 && (s[0] == '-' || s[0] == '+') {
        s.drop_first()
    } else {
        s
    };
    let d = find_char(body, '.');
    if d < 0 || d >= body.len() {
        None
    } else {
        let ip = body.take(d);
        let fp = body.skip(d + 1);
        if spec_all_digits(ip) && spec_all_digits(fp) && fp.len() <= 18 {
            let mag = spec_digits_val(ip) * spec_pow10(18) + spec_digits_val(fp) * spec_pow10(
                (18 - fp.len()) as nat,
            );
            let v: int = if neg {
                -mag
            } else {
                mag
            };
            if i128::MIN <= v <= i128::MAX {
                Some(v)
            } else {
                None
            }
        } else {
            None
        }
    }
}

/// Parses a decimal literal with a fractional part, such as the boundaries
/// of a decimal range, into fixed-point units of 10^-18.
pub fn parse_decimal_scaled(s: &str) -> (r: Option<i128>)
    ensures
        match spec_parse_decimal(s@) {
            Some(v) => r == Some(v as i128),
            None => r is None,
        },
{
    let ghost gs = spec_parse_decimal(s@);
    let n = s.unicode_len();
    if n == 0 {
        return None;
    }
    let c0 = s.get_char(0);
    let negative = c0 as u32 == 45;
    let body = if c0 as u32 == 45 || c0 as u32 == 43 {
        s.substring_char(1, n)
    } else {
        s
    };
    proof {
        if c0 as u32 == 45 || c0 as u32 == 43 {
            assert(body@ =~= s@.drop_first());
        }
    }
    let m = body.unicode_len();
    // locate the single dot
    let mut dot: usize = m;
    let mut i: usize = 0;
    while i < m
        invariant
            0 <= i <= m,
            m == body@.len(),
            dot <= m,
            dot == m ==> forall|k: int| 0 <= k < i ==> body@[k] != '.',
            dot < m ==> dot < i && body@[dot as int] == '.' && (forall|k: int|
                0 <= k < dot ==> body@[k] != '.') && (forall|k: int|
                dot < k < i ==> body@[k] != '.'),
            gs == spec_parse_decimal(s@),
            body@ == (if s@.len() > 0 && (s@[0] == '-' || s@[0] == '+') {
                s@.drop_first()
            } else {
                s@
            }),
        decreases m - i,
    {
        if body.get_char(i) as u32 == 46 {
            if dot < m {
                // a second dot: the fractional part is not all digits
                proof {
                    lemma_find_char_at(body@, '.', dot as int);
                    assert(body@.skip(dot + 1)[i - dot - 1] == body@[i as int]);
                }
                return None;
            }
            dot = i;
        }
        i = i + 1;
    }
    if dot == m {
        // no fractional part: not a decimal literal
        proof {
            lemma_find_char_absent(body@, '.');
        }
        return None;
    }
    proof {
        lemma_find_char_at(body@, '.', dot as int);
    }
    let ghost ip = body@.take(dot as int);
    let ghost fp = body@.skip(dot + 1);
    let int_part = body.substring_char(0, dot);
    let frac_part = body.substring_char(dot + 1, m);
    proof {
        assert(int_part@ =~= ip);
        assert(frac_part@ =~= fp);
    }
    let frac_len = frac_part.unicode_len();
    if frac_len == 0 || frac_len > 18 {
        return None;
    }
    if int_part.unicode_len() == 0 {
        return None;
    }
    let ghost pw = spec_pow10((18 - fp.len()) as nat);
    proof {
        lemma_spec_pow10_pos((18 - fp.len()) as nat);
        lemma_spec_pow10_pos(18);
        lemma_spec_pow10_mono((18 - fp.len()) as nat, 18);
    }
    // 170141183460469231731687303715884105727 == i128::MAX
    let int_mag = match parse_digits_bounded(int_part, 170141183460469231731687303715884105727u128) {
        Some(v) => v,
        None => {
            proof {
                if spec_all_digits(ip) && spec_all_digits(fp) {
                    // the integer part alone already leaves the domain
                    lemma_digits_val_nonneg(ip);
                    lemma_digits_val_nonneg(fp);
                    assert(spec_pow10(0) == 1);
                    assert(spec_pow10(1) == 10);
                    lemma_spec_pow10_mono(1, 18);
                    assert(spec_digits_val(ip) * spec_pow10(18) >= spec_digits_val(ip) * 10)
                        by (nonlinear_arith)
                        requires
                            spec_digits_val(ip) >= 0,
                            spec_pow10(18) >= 10,
                    ;
                    assert(spec_digits_val(fp) * pw >= 0) by (nonlinear_arith)
                        requires
                            spec_digits_val(fp) >= 0,
                            pw >= 1,
                    ;
                }
            }
            return None;
        },
    };
    let frac_mag = match parse_digits_bounded(frac_part, 170141183460469231731687303715884105727u128) {
        Some(v) => v,
        None => {
            proof {
                if spec_all_digits(fp) {
                    // at most eighteen digits always fit the bound
                    lemma_digits_val_bound(fp);
                    lemma_spec_pow10_mono(fp.len() as nat, 18);
                    lemma_spec_pow10_18();
                }
            }
            return None;
        },
    };
    proof {
        lemma_digits_val_nonneg(ip);
        lemma_digits_val_nonneg(fp);
    }
    let ghost mag = spec_digits_val(ip) * spec_pow10(18) + spec_digits_val(fp) * pw;
    proof {
        assert(spec_digits_val(fp) * pw >= 0) by (nonlinear_arith)
            requires
                spec_digits_val(fp) >= 0,
                pw >= 1,
        ;
        assert(gs == ({
            let v: int = if negative {
                -mag
            } else {
                mag
            };
            if i128::MIN <= v && v <= i128::MAX {
                Some(v)
            } else {
                None
            }
        }));
    }
    // scale the integer part by 10^18 and the fraction up to 18 digits
    let mut scaled: u128 = int_mag;
    let mut k: usize = 0;
    proof {
        assert(spec_pow10(0) == 1);
        assert(spec_digits_val(ip) * spec_pow10(18) >= spec_digits_val(ip) * 1)
            by (nonlinear_arith)
            requires
                spec_digits_val(ip) >= 0,
                spec_pow10(18) >= 1,
        ;
    }
    while k < 18
        invariant
            0 <= k <= 18,
            int_mag as int == spec_digits_val(ip),
            scaled as int == spec_digits_val(ip) * spec_pow10(k as nat),
            mag >= scaled as int,
            mag == spec_digits_val(ip) * spec_pow10(18) + spec_digits_val(fp) * pw,
            spec_digits_val(ip) >= 0,
            spec_digits_val(fp) >= 0,
            pw >= 1,
            spec_pow10(18) >= 1,
            gs == spec_parse_decimal(s@),
            gs == ({
                let v: int = if negative {
                    -mag
                } else {
                    mag
                };
                if i128::MIN <= v && v <= i128::MAX {
                    Some(v)
                } else {
                    None
                }
            }),
        decreases 18 - k,
    {
        proof {
            lemma_spec_pow10_pos(k as nat);
            assert((spec_digits_val(ip) * spec_pow10(k as nat)) * 10 == spec_digits_val(ip)
                * spec_pow10((k + 1) as nat)) by (nonlinear_arith)
                requires
                    spec_pow10((k + 1) as nat) == 10 * spec_pow10(k as nat),
            ;
            lemma_spec_pow10_pos((k + 1) as nat);
            lemma_spec_pow10_mono((k + 1) as nat, 18);
            lemma_mul_le(spec_digits_val(ip), spec_pow10((k + 1) as nat), spec_pow10(18));
            assert(spec_digits_val(fp) * pw >= 0) by (nonlinear_arith)
                requires
                    spec_digits_val(fp) >= 0,
                    pw >= 1,
            ;
        }
        scaled = match scaled.checked_mul(10) {
            Some(v) => v,
            None => {
                return None;
            },
        };
        k = k + 1;
    }
    let mut frac_scaled: u128 = frac_mag;
    let mut k2: usize = frac_len;
    proof {
        assert(spec_pow10(0) == 1);
        assert(spec_digits_val(fp) * pw >= spec_digits_val(fp) * 1) by (nonlinear_arith)
            requires
                spec_digits_val(fp) >= 0,
                pw >= 1,
        ;
        assert(spec_digits_val(ip) * spec_pow10(18) >= 0) by (nonlinear_arith)
            requires
                spec_digits_val(ip) >= 0,
                spec_pow10(18) >= 1,
        ;
    }
    while k2 < 18
        invariant
            frac_len <= k2 <= 18,
            frac_len == fp.len(),
            frac_mag as int == spec_digits_val(fp),
            frac_scaled as int == spec_digits_val(fp) * spec_pow10((k2 - frac_len) as nat),
            mag >= frac_scaled as int,
            mag == spec_digits_val(ip) * spec_pow10(18) + spec_digits_val(fp) * pw,
            pw == spec_pow10((18 - fp.len()) as nat),
            scaled as int == spec_digits_val(ip) * spec_pow10(18),
            spec_digits_val(ip) >= 0,
            spec_digits_val(fp) >= 0,
            pw >= 1,
            spec_pow10(18) >= 1,
            gs == spec_parse_decimal(s@),
            gs == ({
                let v: int = if negative {
                    -mag
                } else {
                    mag
                };
                if i128::MIN <= v && v <= i128::MAX {
                    Some(v)
                } else {
                    None
                }
            }),
        decreases 18 - k2,
    {
        proof {
            lemma_spec_pow10_pos((k2 - frac_len) as nat);
            assert((spec_digits_val(fp) * spec_pow10((k2 - frac_len) as nat)) * 10
                == spec_digits_val(fp) * spec_pow10((k2 + 1 - frac_len) as nat))
                by (nonlinear_arith)
                requires
                    spec_pow10((k2 + 1 - frac_len) as nat) == 10 * spec_pow10(
                        (k2 - frac_len) as nat,
                    ),
            ;
            lemma_spec_pow10_pos((k2 + 1 - frac_len) as nat);
            lemma_spec_pow10_mono((k2 + 1 - frac_len) as nat, (18 - frac_len) as nat);
            lemma_mul_le(
                spec_digits_val(fp),
                spec_pow10((k2 + 1 - frac_len) as nat),
                spec_pow10((18 - frac_len) as nat),
            );
            assert(spec_digits_val(ip) * spec_pow10(18) >= 0) by (nonlinear_arith)
                requires
                    spec_digits_val(ip) >= 0,
                    spec_pow10(18) >= 1,
            ;
        }
        frac_scaled = match frac_scaled.checked_mul(10) {
            Some(v) => v,
            None => {
                return None;
            },
        };
        k2 = k2 + 1;
    }
    let total = match scaled.checked_add(frac_scaled) {
        Some(v) => v,
        None => {
            return None;
        },
    };
    proof {
        assert(total as int == mag);
    }
    if negative {
        if total > 170141183460469231731687303715884105728u128 {
            return None;
        }
        if total == 170141183460469231731687303715884105728u128 {
            Some(i128::MIN)
        } else {
            Some(-(total as i128))
        }
    } else {
        if total > 170141183460469231731687303715884105727u128 {
            return None;
        }
        Some(total as i128)
    }
}


} // verus!
