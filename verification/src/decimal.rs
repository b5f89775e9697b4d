//! Exact parsing of non-negative decimal numerals (as bytes, for instance
//! a quote provider's `"123.45"`) into the engine's fixed-point form.
//!
//! The original text is parsed exactly: no detour through binary floating
//! point. Digits beyond the fourth decimal place are truncated, matching
//! the fixed-point resolution.

use vstd::prelude::*;
use crate::fixed::SCALE;

verus! {

/// Largest value [`parse_fixed`] accepts, `10^14` currency units.
pub const PARSE_CAP: i64 = 1_000_000_000_000_000_000;

/// An ASCII decimal digit.
pub open spec fn is_digit(b: u8) -> bool {
    48 <= b <= 57
}

/// Every byte is an ASCII decimal digit.
pub open spec fn all_digits(s: Seq<u8>) -> bool {
    forall|i: int| 0 <= i < s.len() ==> is_digit(#[trigger] s[i])
}

/// Value of a digit string read in base ten.
pub open spec fn digits_val(s: Seq<u8>) -> int
    decreases s.len(),
{
    if s.len() == 0 {
        0
    } else {
        digits_val(s.drop_last()) * 10 + (s.last() - 48)
    }
}

/// Index of the first `.` in `s`, or `s.len()` if there is none.
pub open spec fn dot_pos(s: Seq<u8>) -> int
    decreases s.len(),
{
    if s.len() == 0 {
        0
    } else if s[0] == 46 {
        0
    } else {
        1 + dot_pos(s.drop_first())
    }
}

/// The fraction digits' contribution, scaled to four decimal places;
/// digits beyond the fourth are truncated.
pub open spec fn frac_scaled(f: Seq<u8>) -> int {
    if f.len() >= 4 {
        digits_val(f.take(4))
    } else if f.len() == 3 {
        digits_val(f) * 10
    } else if f.len() == 2 {
        digits_val(f) * 100
    } else if f.len() == 1 {
        digits_val(f) * 1000
    } else {
        0
    }
}

/// A well-formed numeral: at least one integer digit, digits only on both
/// sides of the (optional) dot.
pub open spec fn decimal_ok(s: Seq<u8>) -> bool {
    let d = dot_pos(s);
    &&& d >= 1
    &&& all_digits(s.take(d))
    &&& (d < s.len() ==> all_digits(s.subrange(d + 1, s.len() as int)))
}

/// The numeral's value in fixed-point form (integer part scaled, plus the
/// first four fraction digits).
pub open spec fn decimal_value(s: Seq<u8>) -> int {
    let d = dot_pos(s);
    let frac = if d < s.len() {
        s.subrange(d + 1, s.len() as int)
    } else {
        Seq::empty()
    };
    digits_val(s.take(d)) * (SCALE as int) + frac_scaled(frac)
}

/// `dot_pos` is exactly the position scanned to: no dot before it, and a
/// dot (or the end) at it.
proof fn lemma_dot_pos_char(s: Seq<u8>, d: int)
    requires
        0 <= d <= s.len(),
        forall|k: int| 0 <= k < d ==> s[k] != 46,
        d < s.len() ==> s[d] == 46,
    ensures
        dot_pos(s) == d,
    decreases d,
{
    if d == 0 {
    } else {
        assert(s[0] != 46);
        let t = s.drop_first();
        assert(forall|k: int| 0 <= k < d - 1 ==> #[trigger] t[k] == s[k + 1] && t[k] != 46);
        assert(d - 1 < t.len() ==> t[d - 1] == 46);
        lemma_dot_pos_char(t, d - 1);
    }
}

/// A digit string's value is non-negative.
proof fn lemma_digits_val_nonneg(s: Seq<u8>)
    requires
        all_digits(s),
    ensures
        digits_val(s) >= 0,
    decreases s.len(),
{
    if s.len() > 0 {
        assert(all_digits(s.drop_last()));
        lemma_digits_val_nonneg(s.drop_last());
        assert(digits_val(s.drop_last()) * 10 >= 0) by (nonlinear_arith)
            requires
                digits_val(s.drop_last()) >= 0,
        ;
    }
}

/// A fraction's scaled contribution is non-negative whenever its digits
/// are digits.
proof fn lemma_frac_scaled_nonneg(f: Seq<u8>)
    requires
        all_digits(f),
    ensures
        frac_scaled(f) >= 0,
{
    if f.len() >= 4 {
        assert(all_digits(f.take(4)));
        lemma_digits_val_nonneg(f.take(4));
    } else {
        lemma_digits_val_nonneg(f);
        assert(digits_val(f) * 10 >= 0 && digits_val(f) * 100 >= 0 && digits_val(f) * 1000 >= 0)
            by (nonlinear_arith)
            requires
                digits_val(f) >= 0,
        ;
    }
}

/// Reading further digits never decreases the value.
proof fn lemma_digits_val_monotone(s: Seq<u8>, i: int, j: int)
    requires
        all_digits(s),
        0 <= i <= j <= s.len(),
    ensures
        digits_val(s.take(i)) <= digits_val(s.take(j)),
    decreases j - i,
{
    if i < j {
        lemma_digits_val_monotone(s, i, j - 1);
        let p = s.take(j - 1);
        assert(all_digits(p));
        lemma_digits_val_nonneg(p);
        assert(s.take(j).drop_last() =~= p);
        assert(digits_val(p) * 10 + (s.take(j).last() - 48) >= digits_val(p)) by (nonlinear_arith)
            requires
                digits_val(p) >= 0,
                s.take(j).last() - 48 >= 0,
        ;
    }
}

/// Parses a non-negative decimal numeral into fixed-point form.
///
/// Returns the exact fixed-point value (fraction truncated to four places)
/// whenever the input is a well-formed numeral whose value is
/// representable, and `None` otherwise.
#[verifier::loop_isolation(false)]
pub fn parse_fixed(s: &[u8]) -> (r: Option<i64>)
    ensures
        r is Some <==> (decimal_ok(s@) && decimal_value(s@) <= PARSE_CAP),
        r is Some ==> r.unwrap() == decimal_value(s@) && 0 <= r.unwrap() <= PARSE_CAP,
{
    let n = s.len();
    let mut d: usize = 0;
    while d < n && s[d] != 46
        invariant
            d <= n,
            forall|k: int| 0 <= k < d ==> s@[k] != 46,
        decreases n - d,
    {
        d = d + 1;
    }
    proof {
        lemma_dot_pos_char(s@, d as int);
    }
    if d == 0 {
        return None;
    }
    let mut acc: i64 = 0;
    let mut i: usize = 0;
    while i < d
        invariant
            i <= d,
            acc == digits_val(s@.take(i as int)),
            0 <= acc <= 100_000_000_000_000,
            forall|k: int| 0 <= k < i ==> is_digit(#[trigger] s@[k]),
        decreases d - i,
    {
        let b = s[i];
        if b < 48 || b > 57 {
            proof {
                assert(s@.take(d as int)[i as int] == s@[i as int]);
                assert(!all_digits(s@.take(d as int)));
            }
            return None;
        }
        proof {
            assert(s@.take(i as int + 1).drop_last() =~= s@.take(i as int));
            assert(s@.take(i as int + 1).last() == s@[i as int]);
        }
        acc = acc * 10 + (b - 48) as i64;
        i = i + 1;
        if acc > 100_000_000_000_000 {
            proof {
                if decimal_ok(s@) {
                    let ip = s@.take(d as int);
                    assert(all_digits(ip));
                    assert(ip.take(i as int) =~= s@.take(i as int));
                    lemma_digits_val_monotone(ip, i as int, d as int);
                    assert(ip.take(d as int) =~= ip);
                    assert(digits_val(ip) >= acc);
                    assert(digits_val(ip) * (SCALE as int) > PARSE_CAP) by (nonlinear_arith)
                        requires
                            digits_val(ip) > 100_000_000_000_000,
                    ;
                    let frac = if (d as int) < s@.len() {
                        s@.subrange(d as int + 1, s@.len() as int)
                    } else {
                        Seq::<u8>::empty()
                    };
                    lemma_frac_scaled_nonneg(frac);
                    assert(decimal_value(s@) > PARSE_CAP);
                }
            }
            return None;
        }
    }
    let mut frac_acc: i64 = 0;
    let mut cnt: usize = 0;
    let ghost fseq = if (d as int) < s@.len() {
        s@.subrange(d as int + 1, s@.len() as int)
    } else {
        Seq::<u8>::empty()
    };
    if d < n {
        let mut j: usize = d + 1;
        while j < n
            invariant
                d + 1 <= j <= n,
                fseq == s@.subrange(d as int + 1, s@.len() as int),
                cnt == if j - d - 1 <= 4 {
                    (j - d - 1) as int
                } else {
                    4int
                },
                frac_acc == digits_val(fseq.take(cnt as int)),
                0 <= frac_acc <= 9999,
                cnt < 4 ==> frac_acc <= 999,
                cnt < 3 ==> frac_acc <= 99,
                cnt < 2 ==> frac_acc <= 9,
                cnt < 1 ==> frac_acc == 0,
                forall|k: int| 0 <= k < j - d - 1 ==> is_digit(#[trigger] fseq[k]),
            decreases n - j,
        {
            let b = s[j];
            if b < 48 || b > 57 {
                proof {
                    assert(fseq[j - d - 1] == s@[j as int]);
                    assert(!all_digits(fseq));
                }
                return None;
            }
            proof {
                assert(fseq[j - d - 1] == s@[j as int]);
            }
            if cnt < 4 {
                proof {
                    assert(fseq.take(cnt as int + 1).drop_last() =~= fseq.take(cnt as int));
                    assert(fseq.take(cnt as int + 1).last() == fseq[cnt as int]);
                    assert(fseq[cnt as int] == s@[j as int]);
                }
                frac_acc = frac_acc * 10 + (b - 48) as i64;
                cnt = cnt + 1;
            }
            j = j + 1;
        }
    }
    let frac_part: i64 = if cnt >= 4 {
        frac_acc
    } else if cnt == 3 {
        frac_acc * 10
    } else if cnt == 2 {
        frac_acc * 100
    } else if cnt == 1 {
        frac_acc * 1000
    } else {
        0
    };
    proof {
        if fseq.len() >= 4 {
            assert(cnt == 4);
        } else {
            assert(cnt == fseq.len());
            assert(fseq.take(cnt as int) =~= fseq);
        }
        assert(frac_part == frac_scaled(fseq));
        assert(s@.take(d as int) =~= s@.take(i as int));
        assert(decimal_ok(s@));
    }
    let value: i64 = acc * 10_000 + frac_part;
    if value > PARSE_CAP {
        return None;
    }
    Some(value)
}

} // verus!
