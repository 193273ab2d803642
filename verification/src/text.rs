//! Character-level helpers: whitespace stripping and the grammars of the
//! unsigned-integer and decimal-amount fields.

use vstd::prelude::*;
use crate::amount::{FixedPointAmount, amount_of_units};

verus! {

/// The characters that count as whitespace when a field is cleaned.
pub open spec fn is_ws_char(c: char) -> bool {
    c == ' ' || c == '\t' || c == '\n' || c == '\r' || c == '\u{000B}' || c == '\u{000C}'
}

/// `s` with every whitespace character removed, inner ones included.
pub open spec fn strip_ws_spec(s: Seq<char>) -> Seq<char>
    decreases s.len(),
{
    if s.len() == 0 {
        Seq::empty()
    } else {
        strip_ws_spec(s.drop_last()) + (if is_ws_char(s.last()) {
            Seq::<char>::empty()
        } else {
            seq![s.last()]
        })
    }
}

proof fn lemma_strip_ws_step(s: Seq<char>, i: int)
    requires
        0 <= i < s.len(),
    ensures
        strip_ws_spec(s.take(i + 1)) == strip_ws_spec(s.take(i)) + (if is_ws_char(s[i]) {
            Seq::<char>::empty()
        } else {
            seq![s[i]]
        }),
{
    assert(s.take(i + 1).drop_last() =~= s.take(i));
    assert(s.take(i + 1).last() == s[i]);
}

/// Whitespace test on a single character.
pub fn is_ws(c: char) -> (r: bool)
    ensures
        r == is_ws_char(c),
{
    c == ' ' || c == '\t' || c == '\n' || c == '\r' || c == '\u{000B}' || c == '\u{000C}'
}

/// Clean a raw field: every whitespace character is dropped, the rest kept
/// in order.
pub fn strip_field(s: &str) -> (v: Vec<char>)
    ensures
        v@ == strip_ws_spec(s@),
{
    let n = s.unicode_len();
    let mut v: Vec<char> = Vec::new();
    let mut i: usize = 0;
    while i < n
        invariant
            0 <= i <= n,
            n == s@.len(),
            v@ == strip_ws_spec(s@.take(i as int)),
        decreases n - i,
    {
        let c = s.get_char(i);
        proof {
            lemma_strip_ws_step(s@, i as int);
        }
        if !is_ws(c) {
            v.push(c);
        }
        i = i + 1;
    }
    proof {
        assert(s@.take(n as int) =~= s@);
    }
    v
}

/// Compare a cleaned field with a literal name, character by character.
pub fn chars_eq(v: &Vec<char>, s: &str) -> (r: bool)
    ensures
        r == (v@ == s@),
{
    let n = s.unicode_len();
    if v.len() != n {
        return false;
    }
    let mut i: usize = 0;
    while i < n
        invariant
            0 <= i <= n,
            n == s@.len(),
            v@.len() == n,
            forall|j: int| 0 <= j < i ==> v@[j] == s@[j],
        decreases n - i,
    {
        if v[i] != s.get_char(i) {
            return false;
        }
        i = i + 1;
    }
    proof {
        assert(v@ =~= s@);
    }
    true
}

/// Decimal-digit test.
pub open spec fn is_digit_char(c: char) -> bool {
    '0' <= c && c <= '9'
}

/// The numeric value of one digit character.
pub open spec fn digit_val(c: char) -> int {
    c as int - '0' as int
}

/// True when every character of `s` is a decimal digit.
pub open spec fn all_digits(s: Seq<char>) -> bool {
    forall|i: int| 0 <= i < s.len() ==> is_digit_char(#[trigger] s[i])
}

/// The value of a digit string read in base ten.
pub open spec fn digits_val(s: Seq<char>) -> int
    decreases s.len(),
{
    if s.len() == 0 {
        0
    } else {
        digits_val(s.drop_last()) * 10 + digit_val(s.last())
    }
}

pub proof fn lemma_digits_val_nonneg(s: Seq<char>)
    requires
        all_digits(s),
    ensures
        digits_val(s) >= 0,
    decreases s.len(),
{
    if s.len() > 0 {
        lemma_digits_val_nonneg(s.drop_last());
    }
}

proof fn lemma_digits_val_step(s: Seq<char>, i: int)
    requires
        0 <= i < s.len(),
    ensures
        digits_val(s.take(i + 1)) == digits_val(s.take(i)) * 10 + digit_val(s[i]),
{
    assert(s.take(i + 1).drop_last() =~= s.take(i));
    assert(s.take(i + 1).last() == s[i]);
}

pub proof fn lemma_digits_val_upper(s: Seq<char>)
    requires
        all_digits(s),
    ensures
        digits_val(s) < pow10(s.len() as int),
    decreases s.len(),
{
    if s.len() > 0 {
        lemma_digits_val_upper(s.drop_last());
    }
}

/// An unsigned integer field: an optional leading `+`, then one or more
/// digits, read in base ten; `None` when the shape is wrong or the value
/// exceeds `max`.
pub open spec fn parse_uint_spec(s: Seq<char>, max: int) -> Option<int> {
    let body = if s.len() > 0 && s[0] == '+' {
        s.skip(1)
    } else {
        s
    };
    if body.len() > 0 && all_digits(body) && digits_val(body) <= max {
        Some(digits_val(body))
    } else {
        None
    }
}

/// Parse an unsigned integer of at most `max`, whitespace already stripped.
pub fn parse_uint(field: &Vec<char>, max: u64) -> (r: Option<u64>)
    ensures
        match r {
            Some(v) => parse_uint_spec(field@, max as int) == Some(v as int),
            None => parse_uint_spec(field@, max as int) is None,
        },
{
    let n = field.len();
    let start: usize = if n > 0 && field[0] == '+' {
        1
    } else {
        0
    };
    let ghost body = if field@.len() > 0 && field@[0] == '+' {
        field@.skip(1)
    } else {
        field@
    };
    if start >= n {
        return None;
    }
    assert(body =~= field@.subrange(start as int, n as int));
    let mut acc: u64 = 0;
    let mut over: bool = false;
    let mut i: usize = start;
    while i < n
        invariant
            start <= i <= n,
            n == field@.len(),
            max <= u64::MAX,
            body == (if field@.len() > 0 && field@[0] == '+' {
                field@.skip(1)
            } else {
                field@
            }),
            body == field@.subrange(start as int, n as int),
            all_digits(body.take(i - start)),
            !over ==> acc == digits_val(body.take(i - start)) && acc <= max,
            over ==> digits_val(body.take(i - start)) > max,
        decreases n - i,
    {
        let c = field[i];
        if c < '0' || c > '9' {
            proof {
                assert(body[i - start] == field@[i as int]);
                assert(!is_digit_char(body[i - start]));
                assert(!all_digits(body));
            }
            return None;
        }
        let d: u64 = (c as u32 - '0' as u32) as u64;
        proof {
            lemma_digits_val_step(body, i - start);
            lemma_digits_val_nonneg(body.take(i - start));
        }
        if !over {
            // `max` may be any u64, so the next step could leave u64 range;
            // widen to u128 for the bound check.
            let wide: u128 = acc as u128 * 10 + d as u128;
            if wide > max as u128 {
                over = true;
            } else {
                acc = wide as u64;
            }
        }
        i = i + 1;
    }
    assert(body.take(n - start) =~= body);
    if over {
        None
    } else {
        Some(acc)
    }
}

/// The index of the first `.` in `s`, or `s.len()` when there is none.
pub open spec fn find_dot(s: Seq<char>) -> int
    decreases s.len(),
{
    if s.len() == 0 {
        0
    } else if s.first() == '.' {
        0
    } else {
        1 + find_dot(s.drop_first())
    }
}

/// Ten to the `k`-th power.
pub open spec fn pow10(k: int) -> int
    decreases k,
{
    if k <= 0 {
        1
    } else {
        10 * pow10(k - 1)
    }
}

/// The first four fractional digits of `frac`, padded with zeros on the
/// right, read as a count of ten-thousandths.
pub open spec fn frac4_val(frac: Seq<char>) -> int {
    if frac.len() >= 4 {
        digits_val(frac.take(4))
    } else {
        digits_val(frac) * pow10(4 - frac.len())
    }
}

/// Whether rounding at the fourth fractional digit goes up, by the
/// round-half-to-even rule: the digits beyond the fourth are compared with
/// one half of the last kept place; ties go to the even neighbour.
pub open spec fn rounds_up(frac: Seq<char>, scaled: int) -> bool {
    if frac.len() <= 4 {
        false
    } else {
        let e0 = digit_val(frac[4]);
        if e0 > 5 {
            true
        } else if e0 < 5 {
            false
        } else if exists|j: int| 5 <= j < frac.len() && digit_val(#[trigger] frac[j]) != 0 {
            true
        } else {
            scaled % 2 == 1
        }
    }
}

/// `find_dot` is pinned down by a scan: no dot before `d`, and a dot (or the
/// end) at `d`.
proof fn lemma_find_dot_at(s: Seq<char>, d: int)
    requires
        0 <= d <= s.len(),
        forall|j: int| 0 <= j < d ==> s[j] != '.',
        d < s.len() ==> s[d] == '.',
    ensures
        find_dot(s) == d,
    decreases d,
{
    if d == 0 {
    } else {
        assert(s.first() != '.');
        assert forall|j: int| 0 <= j < d - 1 implies s.drop_first()[j] != '.' by {
            assert(s.drop_first()[j] == s[j + 1]);
        }
        assert(d - 1 < s.drop_first().len() ==> s.drop_first()[d - 1] == s[d]);
        lemma_find_dot_at(s.drop_first(), d - 1);
    }
}

/// A decimal amount field: an optional sign, digits with at most one `.`,
/// at least one digit in all.  The value is canonicalized to four decimal
/// places, rounding half to even; `None` when the shape is wrong or the
/// canonical magnitude leaves the representable range.
pub open spec fn parse_amount_spec(s: Seq<char>) -> Option<FixedPointAmount> {
    let neg = s.len() > 0 && s[0] == '-';
    let body = if s.len() > 0 && (s[0] == '-' || s[0] == '+') {
        s.skip(1)
    } else {
        s
    };
    let d = find_dot(body);
    let int_part = body.take(d);
    let frac = if d < body.len() {
        body.skip(d + 1)
    } else {
        Seq::<char>::empty()
    };
    if all_digits(int_part) && all_digits(frac) && int_part.len() + frac.len() > 0 {
        let scaled = digits_val(int_part) * 10000 + frac4_val(frac);
        let mag = scaled + (if rounds_up(frac, scaled) {
            1int
        } else {
            0int
        });
        if mag <= i64::MAX {
            Some(amount_of_units(if neg {
                -mag
            } else {
                mag
            }))
        } else {
            None
        }
    } else {
        None
    }
}

/// Parse a decimal amount field, whitespace already stripped.  The value is
/// canonicalized to four decimal places with round-half-to-even; a malformed
/// or out-of-range field yields `None`.
#[verifier::rlimit(50)]
pub fn parse_amount(field: &Vec<char>) -> (r: Option<FixedPointAmount>)
    ensures
        r == parse_amount_spec(field@),
{
    let n = field.len();
    let signed = n > 0 && (field[0] == '-' || field[0] == '+');
    let neg = n > 0 && field[0] == '-';
    let start: usize = if signed {
        1
    } else {
        0
    };
    let ghost body = if field@.len() > 0 && (field@[0] == '-' || field@[0] == '+') {
        field@.skip(1)
    } else {
        field@
    };
    assert(body =~= field@.subrange(start as int, n as int));

    // Locate the first dot, if any.
    let mut dotf: usize = start;
    while dotf < n && field[dotf] != '.'
        invariant
            start <= dotf <= n,
            n == field@.len(),
            forall|j: int| start <= j < dotf ==> field@[j] != '.',
        decreases n - dotf,
    {
        dotf = dotf + 1;
    }
    let ghost d = dotf - start;
    proof {
        assert forall|j: int| 0 <= j < d implies body[j] != '.' by {
            assert(body[j] == field@[j + start]);
        }
        lemma_find_dot_at(body, d);
    }
    let ghost int_part = body.take(d);
    let ghost frac = if d < body.len() {
        body.skip(d + 1)
    } else {
        Seq::<char>::empty()
    };
    assert(int_part =~= field@.subrange(start as int, dotf as int));
    assert(dotf < n ==> frac =~= field@.subrange(dotf as int + 1, n as int));

    let imax: u128 = 9223372036854775807;
    assert(imax == i64::MAX);

    // The integer part, with an overflow cut at the representable maximum.
    let mut acc: u128 = 0;
    let mut over: bool = false;
    let mut ok_int: bool = true;
    let mut i: usize = start;
    while i < dotf
        invariant
            start <= i <= dotf <= n,
            n == field@.len(),
            imax == i64::MAX,
            int_part == field@.subrange(start as int, dotf as int),
            ok_int == all_digits(int_part.take(i - start)),
            ok_int && !over ==> acc == digits_val(int_part.take(i - start)) && acc <= imax,
            ok_int && over ==> digits_val(int_part.take(i - start)) > imax,
        decreases dotf - i,
    {
        let c = field[i];
        proof {
            assert(int_part[i - start] == field@[i as int]);
            lemma_digits_val_step(int_part, i - start);
            assert(int_part.take(i - start + 1).drop_last() =~= int_part.take(i - start));
        }
        if c < '0' || c > '9' {
            ok_int = false;
        } else if ok_int {
            let dv: u128 = (c as u32 - '0' as u32) as u128;
            proof {
                lemma_digits_val_nonneg(int_part.take(i - start));
            }
            if !over {
                let wide: u128 = acc * 10 + dv;
                if wide > imax {
                    over = true;
                } else {
                    acc = wide;
                }
            }
        }
        i = i + 1;
    }
    assert(int_part.take(dotf - start) =~= int_part);

    // The fractional part: four kept digits, then the rounding window.
    let mut f4acc: u128 = 0;
    let mut ok_frac: bool = true;
    let mut e0: u32 = 0;
    let mut any_nz: bool = false;
    let fbase: usize = if dotf < n {
        dotf + 1
    } else {
        n
    };
    let mut k: usize = fbase;
    while k < n
        invariant
            fbase <= k <= n,
            n == field@.len(),
            dotf < n ==> fbase == dotf + 1,
            dotf >= n ==> fbase == n,
            dotf < n ==> frac == field@.subrange(dotf as int + 1, n as int),
            dotf >= n ==> frac == Seq::<char>::empty(),
            frac.len() == n - fbase,
            ok_frac == all_digits(frac.take(k - fbase)),
            ok_frac ==> f4acc == digits_val(frac.take(if k - fbase < 4 {
                k - fbase
            } else {
                4
            })) && f4acc <= 9999,
            ok_frac && k - fbase > 4 ==> e0 == digit_val(frac[4]),
            ok_frac ==> (any_nz <==> exists|j: int|
                5 <= j < k - fbase && digit_val(#[trigger] frac[j]) != 0),
        decreases n - k,
    {
        let c = field[k];
        let ghost rel = k - fbase;
        proof {
            assert(frac[rel] == field@[k as int]);
            lemma_digits_val_step(frac, rel);
            assert(frac.take(rel + 1).drop_last() =~= frac.take(rel));
        }
        if c < '0' || c > '9' {
            ok_frac = false;
        } else if ok_frac {
            let dv: u32 = c as u32 - '0' as u32;
            if k - fbase < 4 {
                proof {
                    lemma_digits_val_nonneg(frac.take(rel));
                    assert(all_digits(frac.take(rel + 1)));
                    lemma_digits_val_upper(frac.take(rel + 1));
                    assert(pow10(0) == 1);
                    assert(pow10(1) == 10);
                    assert(pow10(2) == 100);
                    assert(pow10(3) == 1000);
                    assert(pow10(4) == 10000);
                }
                f4acc = f4acc * 10 + dv as u128;
            } else if k - fbase == 4 {
                e0 = dv;
                assert(frac.take(rel + 1).take(4) =~= frac.take(4));
            } else {
                if dv != 0 {
                    any_nz = true;
                }
                assert(frac.take(rel + 1).take(4) =~= frac.take(4));
            }
        }
        k = k + 1;
    }
    assert(frac.take(n - fbase) =~= frac);

    if !ok_int || !ok_frac {
        return None;
    }
    let int_len = dotf - start;
    let frac_len = n - fbase;
    if int_len == 0 && frac_len == 0 {
        return None;
    }
    proof {
        assert(pow10(0) == 1);
        assert(pow10(1) == 10);
        assert(pow10(2) == 100);
        assert(pow10(3) == 1000);
        assert(pow10(4) == 10000);
        lemma_digits_val_nonneg(int_part);
        lemma_digits_val_nonneg(frac);
        if frac.len() >= 4 {
            lemma_digits_val_nonneg(frac.take(4));
        }
    }
    let mult: u128 = if frac_len >= 4 {
        1
    } else if frac_len == 3 {
        10
    } else if frac_len == 2 {
        100
    } else if frac_len == 1 {
        1000
    } else {
        10000
    };
    let f4: u128 = f4acc * mult;
    assert(f4 == frac4_val(frac)) by {
        if frac.len() < 4 {
            assert(frac.take(frac.len() as int) =~= frac);
        }
    }
    if over {
        // The integer part alone exceeds the representable range, so the
        // canonical magnitude does too.
        return None;
    }
    let scaled: u128 = acc * 10000 + f4;
    assert(scaled == digits_val(int_part) * 10000 + frac4_val(frac));
    let round_up: bool = if frac_len > 4 {
        if e0 > 5 {
            true
        } else if e0 < 5 {
            false
        } else if any_nz {
            true
        } else {
            scaled % 2 == 1
        }
    } else {
        false
    };
    assert(round_up == rounds_up(frac, scaled as int));
    let mag: u128 = scaled + (if round_up {
        1
    } else {
        0
    });
    if mag > imax {
        return None;
    }
    let units: i64 = if neg {
        -(mag as i64)
    } else {
        mag as i64
    };
    Some(FixedPointAmount::from_units(units))
}

} // verus!
