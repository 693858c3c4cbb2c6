//! Fixed-point monetary values: signed integers scaled by 10,000, so that
//! every balance and transaction quantity carries exactly four decimal
//! digits and arithmetic on them is exact.

use vstd::prelude::*;
use vstd::string::{StringExecFns, StrSliceExecFns};

verus! {

/// Number of scaled units per whole unit: amounts store ten-thousandths.
pub const PRECISION: i64 = 10000;

/// Whether `v` is representable as a 64-bit signed integer.
pub open spec fn fits_i64(v: int) -> bool {
    i64::MIN <= v <= i64::MAX
}

/// A monetary value in ten-thousandths of a unit. Equality and ordering
/// are integer equality and ordering on the scaled value.
#[derive(Debug, Clone, Copy, PartialEq, Eq, PartialOrd, Ord, Structural)]
pub struct Amount(pub i64);

impl View for Amount {
    type V = int;

    open spec fn view(&self) -> int {
        self.0 as int
    }
}

impl Amount {
    /// The raw scaled integer this amount stores.
    pub fn to_i64(&self) -> (r: i64)
        ensures
            r as int == self@,
    {
        self.0
    }

    /// The exact sum of two amounts, or `None` outside the representable
    /// range: fixed-point addition is exact integer addition, without any
    /// rounding.
    pub fn checked_add(&self, other: &Amount) -> (r: Option<Amount>)
        ensures
            fits_i64(self@ + other@) ==> r == Some(Amount((self@ + other@) as i64)),
            !fits_i64(self@ + other@) ==> r is None,
    {
        match self.0.checked_add(other.0) {
            Some(v) => Some(Amount(v)),
            None => None,
        }
    }

    /// The exact difference of two amounts, or `None` outside the
    /// representable range: fixed-point subtraction is exact integer
    /// subtraction, without any rounding.
    pub fn checked_sub(&self, other: &Amount) -> (r: Option<Amount>)
        ensures
            fits_i64(self@ - other@) ==> r == Some(Amount((self@ - other@) as i64)),
            !fits_i64(self@ - other@) ==> r is None,
    {
        match self.0.checked_sub(other.0) {
            Some(v) => Some(Amount(v)),
            None => None,
        }
    }

    /// Builds an amount from decimal text, truncating toward zero at the
    /// fourth fractional digit; `None` for malformed text and for values
    /// outside the representable range.
    pub fn from_decimal_str(s: &str) -> (r: Option<Amount>)
        ensures
            r == spec_amount_from_text(s@),
    {
        let n = s.unicode_len();
        let neg = if n > 0 {
            s.get_char(0) == '-'
        } else {
            false
        };
        let start: usize = if neg {
            1
        } else {
            0
        };
        let ghost t = if neg {
            s@.skip(1)
        } else {
            s@
        };
        proof {
            assert(t =~= s@.skip(start as int));
            assert(t.len() == n - start);
        }
        if start >= n {
            return None;
        }
        let dot = find_dot(s, start);
        let ghost i = dot - start;
        proof {
            assert(i == first_dot(t));
            assert(t.take(i) =~= s@.subrange(start as int, dot as int));
        }
        if dot == start {
            return None;
        }
        let units = match digits_value(s, start, dot) {
            Some(v) => v,
            None => {
                proof {
                    let ip = t.take(i);
                    if all_digits(ip) {
                        lemma_whole_part_overflow(t, i, neg);
                    }
                }
                return None;
            },
        };
        if dot == n {
            let mag: u64 = units * 10000;
            let v: i64 = if neg {
                -(mag as i64)
            } else {
                mag as i64
            };
            return Some(Amount(v));
        }
        let fstart = dot + 1;
        if fstart >= n {
            proof {
                assert(t.skip(i + 1) =~= s@.subrange(fstart as int, n as int));
            }
            return None;
        }
        let ghost fp = t.skip(i + 1);
        proof {
            assert(fp =~= s@.subrange(fstart as int, n as int));
        }
        let f_len = n - fstart;
        let first_end = if f_len > 4 {
            fstart + 4
        } else {
            n
        };
        let frac_part = match digits_value(s, fstart, first_end) {
            Some(v) => v,
            None => {
                proof {
                    let d4 = s@.subrange(fstart as int, first_end as int);
                    if all_digits(d4) {
                        lemma_val_bound(d4);
                        reveal_with_fuel(pow10, 6);
                        assert(val_of_digits(d4) < 10000);
                        assert(false);
                    }
                    let k = choose|k: int| 0 <= k < d4.len() && !is_digit_char(d4[k]);
                    assert(fp[k] == d4[k]);
                    assert(!all_digits(fp));
                }
                return None;
            },
        };
        if first_end < n {
            if !all_digits_in(s, first_end, n) {
                proof {
                    let dr = s@.subrange(first_end as int, n as int);
                    let k = choose|k: int| 0 <= k < dr.len() && !is_digit_char(dr[k]);
                    assert(fp[k + 4] == dr[k]);
                    assert(!all_digits(fp));
                }
                return None;
            }
        }
        proof {
            let d4 = s@.subrange(fstart as int, first_end as int);
            assert forall|j: int| 0 <= j < fp.len() implies is_digit_char(#[trigger] fp[j]) by {
                if j < first_end - fstart {
                    assert(fp[j] == d4[j]);
                } else {
                    let dr = s@.subrange(first_end as int, n as int);
                    assert(fp[j] == dr[j - (first_end - fstart)]);
                }
            }
        }
        proof {
            let d4 = s@.subrange(fstart as int, first_end as int);
            reveal_with_fuel(pow10, 6);
            lemma_val_bound(d4);
            if f_len >= 4 {
                assert(fp.take(4) =~= d4);
                assert(d4.len() == 4);
            } else {
                assert(d4.len() == f_len);
                assert(fp =~= d4);
            }
        }
        let frac_val: u64 = scale_frac(frac_part, f_len);
        proof {
            assert(units <= MAX_UNITS);
        }
        let mag: u64 = units * 10000 + frac_val;
        if !neg {
            if mag <= i64::MAX as u64 {
                Some(Amount(mag as i64))
            } else {
                None
            }
        } else {
            if mag <= i64::MAX as u64 {
                Some(Amount(-(mag as i64)))
            } else if mag == 9223372036854775808u64 {
                Some(Amount(i64::MIN))
            } else {
                None
            }
        }
    }

    /// Renders the amount as decimal text: the scaled value divided by
    /// 10,000, with trailing fractional zeros suppressed but at least one
    /// fractional digit kept.
    pub fn to_decimal_string(&self) -> (r: String)
        ensures
            r@ == spec_amount_text(self@),
    {
        let v = self.0;
        let mag = magnitude_u64(v);
        let units: u64 = mag / (PRECISION as u64);
        let frac: u64 = mag % (PRECISION as u64);
        let mut out: String = if v < 0 {
            "-".to_owned()
        } else {
            "".to_owned()
        };
        proof {
            reveal_strlit("-");
            reveal_strlit("");
            reveal_strlit(".");
        }
        let units_str = u64_to_digits(units);
        out.append(units_str.as_str());
        out.append(".");
        let frac_str = frac_to_text(frac);
        out.append(frac_str.as_str());
        proof {
            assert(out@ =~= spec_amount_text(self@));
        }
        out
    }
}

/// When the whole-units digit run alone exceeds the representable range,
/// whatever the rest of the text says, no representable amount denotes it.
proof fn lemma_whole_part_overflow(t: Seq<char>, i: int, neg: bool)
    requires
        i == first_dot(t),
        0 <= i <= t.len(),
        all_digits(t.take(i)),
        val_of_digits(t.take(i)) > MAX_UNITS,
    ensures
        (spec_parse_amount_tail(t, neg) matches Some(v) ==> !fits_i64(v)),
{
    let ip = t.take(i);
    if i == t.len() {
        assert(val_of_digits(ip) * 10000 > MAX_UNITS * 10000);
    } else {
        let fp = t.skip(i + 1);
        if fp.len() == 0 || !all_digits(fp) {
        } else {
            let frac = if fp.len() >= 4 {
                val_of_digits(fp.take(4))
            } else {
                val_of_digits(fp) * pow10((4 - fp.len()) as nat)
            };
            assert(frac >= 0) by {
                if fp.len() >= 4 {
                    assert(all_digits(fp.take(4))) by {
                        assert(forall|j: int| 0 <= j < 4 ==> fp.take(4)[j] == fp[j]);
                    }
                    lemma_val_bound(fp.take(4));
                } else {
                    lemma_val_bound(fp);
                    lemma_pow10_pos((4 - fp.len()) as nat);
                    vstd::arithmetic::mul::lemma_mul_nonnegative(
                        val_of_digits(fp),
                        pow10((4 - fp.len()) as nat),
                    );
                }
            }
            assert(val_of_digits(ip) * 10000 > MAX_UNITS * 10000);
        }
    }
}

/// The parse of the text whose sign was already stripped: exactly the
/// cases of `spec_parse_amount` after its sign handling.
pub open spec fn spec_parse_amount_tail(t: Seq<char>, neg: bool) -> Option<int> {
    let i = first_dot(t);
    let ip = t.take(i);
    if ip.len() == 0 || !all_digits(ip) {
        None
    } else if i == t.len() {
        Some(
            if neg {
                -(val_of_digits(ip) * 10000)
            } else {
                val_of_digits(ip) * 10000
            },
        )
    } else {
        let fp = t.skip(i + 1);
        if fp.len() == 0 || !all_digits(fp) {
            None
        } else {
            let frac = if fp.len() >= 4 {
                val_of_digits(fp.take(4))
            } else {
                val_of_digits(fp) * pow10((4 - fp.len()) as nat)
            };
            let mag = val_of_digits(ip) * 10000 + frac;
            Some(
                if neg {
                    -mag
                } else {
                    mag
                },
            )
        }
    }
}

/// Ten to any power is positive.
proof fn lemma_pow10_pos(n: nat)
    ensures
        pow10(n) >= 1,
    decreases n,
{
    if n > 0 {
        lemma_pow10_pos((n - 1) as nat);
    }
}

/// Each digit character denotes its digit, and is a digit character.
proof fn lemma_digit_char_val(d: int)
    requires
        0 <= d <= 9,
    ensures
        is_digit_char(spec_digit_char(d)),
        digit_val(spec_digit_char(d)) == d,
{
}

/// A rendered digit run is non-empty, all digits, and denotes its value.
proof fn lemma_digits_val(n: nat)
    ensures
        spec_digits(n).len() >= 1,
        all_digits(spec_digits(n)),
        val_of_digits(spec_digits(n)) == n,
    decreases n,
{
    if n < 10 {
        lemma_digit_char_val(n as int);
        let s = spec_digits(n);
        assert(s.drop_last() =~= Seq::<char>::empty());
        assert(val_of_digits(Seq::<char>::empty()) == 0);
        assert(s.last() == spec_digit_char(n as int));
        assert(val_of_digits(s) == 0 * 10 + digit_val(spec_digit_char(n as int)));
    } else {
        lemma_digits_val(n / 10);
        lemma_digit_char_val((n % 10) as int);
        let s = spec_digits(n);
        assert(s.drop_last() =~= spec_digits(n / 10));
        assert(s.last() == spec_digit_char((n % 10) as int));
        assert(val_of_digits(s) == val_of_digits(spec_digits(n / 10)) * 10 + digit_val(
            spec_digit_char((n % 10) as int),
        ));
        assert(val_of_digits(s) == (n / 10) * 10 + n % 10);
        assert(all_digits(s)) by {
            assert(forall|j: int|
                0 <= j < s.len() - 1 ==> s[j] == spec_digits(n / 10)[j]);
        }
    }
}

/// The value of an explicit run of up to four digit characters.
proof fn lemma_val_of_four(c1: char, c2: char, c3: char, c4: char)
    ensures
        val_of_digits(seq![c1]) == digit_val(c1),
        val_of_digits(seq![c1, c2]) == digit_val(c1) * 10 + digit_val(c2),
        val_of_digits(seq![c1, c2, c3]) == (digit_val(c1) * 10 + digit_val(c2)) * 10 + digit_val(
            c3,
        ),
        val_of_digits(seq![c1, c2, c3, c4]) == ((digit_val(c1) * 10 + digit_val(c2)) * 10
            + digit_val(c3)) * 10 + digit_val(c4),
{
    assert(seq![c1].drop_last() =~= Seq::<char>::empty());
    assert(val_of_digits(Seq::<char>::empty()) == 0);
    assert(seq![c1].last() == c1);
    assert(val_of_digits(seq![c1]) == val_of_digits(seq![c1].drop_last()) * 10 + digit_val(
        seq![c1].last(),
    ));
    assert(seq![c1, c2].drop_last() =~= seq![c1]);
    assert(seq![c1, c2].last() == c2);
    assert(val_of_digits(seq![c1, c2]) == val_of_digits(seq![c1, c2].drop_last()) * 10 + digit_val(
        seq![c1, c2].last(),
    ));
    assert(seq![c1, c2, c3].drop_last() =~= seq![c1, c2]);
    assert(seq![c1, c2, c3].last() == c3);
    assert(val_of_digits(seq![c1, c2, c3]) == val_of_digits(seq![c1, c2, c3].drop_last()) * 10
        + digit_val(seq![c1, c2, c3].last()));
    assert(seq![c1, c2, c3, c4].drop_last() =~= seq![c1, c2, c3]);
    assert(seq![c1, c2, c3, c4].last() == c4);
    assert(val_of_digits(seq![c1, c2, c3, c4]) == val_of_digits(seq![c1, c2, c3, c4].drop_last())
        * 10 + digit_val(seq![c1, c2, c3, c4].last()));
}

/// The rendered fraction consists of one to four digit characters, and
/// parsing it back — padded to four places — recovers the fraction.
proof fn lemma_frac_chars_val(frac: int)
    requires
        0 <= frac < 10000,
    ensures
        ({
            let fc = spec_frac_chars(frac);
            &&& 1 <= fc.len() <= 4
            &&& all_digits(fc)
            &&& (if fc.len() >= 4 {
                val_of_digits(fc.take(4))
            } else {
                val_of_digits(fc) * pow10((4 - fc.len()) as nat)
            }) == frac
        }),
{
    reveal_with_fuel(pow10, 6);
    let b = frac % 10;
    let a = frac / 10;
    let d = a % 10;
    let c = a / 10;
    let f = c % 10;
    let e = c / 10;
    vstd::arithmetic::div_mod::lemma_fundamental_div_mod(frac, 10);
    vstd::arithmetic::div_mod::lemma_fundamental_div_mod(a, 10);
    vstd::arithmetic::div_mod::lemma_fundamental_div_mod(c, 10);
    assert(0 <= b < 10 && 0 <= d < 10 && 0 <= f < 10 && 0 <= e <= 9);
    assert(frac == 1000 * e + 100 * f + 10 * d + b);
    vstd::arithmetic::div_mod::lemma_fundamental_div_mod_converse(frac, 1000, e, 100 * f + 10 * d
        + b);
    vstd::arithmetic::div_mod::lemma_fundamental_div_mod_converse(frac, 100, 10 * e + f, 10 * d
        + b);
    vstd::arithmetic::div_mod::lemma_fundamental_div_mod_converse(10 * e + f, 10, e, f);
    vstd::arithmetic::div_mod::lemma_fundamental_div_mod_converse(e, 10, 0, e);
    assert(frac / 1000 % 10 == e);
    assert(frac / 100 % 10 == f);
    assert(frac / 10 % 10 == d);
    lemma_digit_char_val(e);
    lemma_digit_char_val(f);
    lemma_digit_char_val(d);
    lemma_digit_char_val(b);
    let ce = spec_digit_char(e);
    let cf = spec_digit_char(f);
    let cd = spec_digit_char(d);
    let cb = spec_digit_char(b);
    lemma_val_of_four(ce, cf, cd, cb);
    let fc = spec_frac_chars(frac);
    if b != 0 {
        assert(fc =~= seq![ce, cf, cd, cb]);
        assert(fc.take(4) =~= fc);
        assert(all_digits(fc)) by {
            assert(fc[0] == ce && fc[1] == cf && fc[2] == cd && fc[3] == cb);
        }
    } else if frac % 100 != 0 {
        assert(fc =~= seq![ce, cf, cd]);
        assert(all_digits(fc)) by {
            assert(fc[0] == ce && fc[1] == cf && fc[2] == cd);
        }
        assert(val_of_digits(fc) * pow10(1) == frac);
    } else if frac % 1000 != 0 {
        assert(10 * d + b == frac % 100);
        assert(d == 0);
        assert(fc =~= seq![ce, cf]);
        assert(all_digits(fc)) by {
            assert(fc[0] == ce && fc[1] == cf);
        }
        assert(val_of_digits(fc) * pow10(2) == frac);
    } else {
        assert(100 * f + 10 * d + b == frac % 1000);
        assert(f == 0 && d == 0);
        assert(fc =~= seq![ce]);
        assert(all_digits(fc)) by {
            assert(fc[0] == ce);
        }
        assert(val_of_digits(fc) * pow10(3) == frac);
    }
}

/// Decimal text is a faithful code for scaled values: rendering any
/// representable value and parsing the text back yields exactly that
/// value.
pub proof fn lemma_text_round_trip(v: int)
    requires
        fits_i64(v),
    ensures
        spec_parse_amount(spec_amount_text(v)) == Some(v),
{
    let mag = if v < 0 {
        -v
    } else {
        v
    };
    let units = mag / 10000;
    let frac = mag % 10000;
    vstd::arithmetic::div_mod::lemma_fundamental_div_mod(mag, 10000);
    assert(0 <= frac < 10000);
    assert(0 <= units);
    lemma_digits_val(units as nat);
    lemma_frac_chars_val(frac);
    let dd = spec_digits(units as nat);
    let fc = spec_frac_chars(frac);
    let s = spec_amount_text(v);
    let t = dd + seq!['.'] + fc;
    assert(forall|j: int| 0 <= j < dd.len() ==> t[j] == dd[j]);
    assert(t[dd.len() as int] == '.');
    assert(forall|j: int| 0 <= j < fc.len() ==> t[dd.len() + 1 + j] == fc[j]);
    if v < 0 {
        assert(s == seq!['-'] + dd + seq!['.'] + fc);
        assert(s[0] == '-');
        assert(s.skip(1) =~= t);
    } else {
        assert(s == Seq::<char>::empty() + dd + seq!['.'] + fc);
        assert(s =~= t);
        assert(s[0] == dd[0]);
        assert(is_digit_char(s[0]));
        assert(s[0] != '-') by {
            assert(('-') as int == 45);
        }
    }
    let neg = s.len() > 0 && s[0] == '-';
    assert(neg == (v < 0));
    assert((if neg {
        s.skip(1)
    } else {
        s
    }) =~= t);
    assert(forall|j: int| 0 <= j < dd.len() ==> #[trigger] t[j] != '.') by {
        assert(forall|j: int| 0 <= j < dd.len() ==> is_digit_char(#[trigger] dd[j]));
        assert(('.') as int == 46);
    }
    lemma_first_dot_at(t, dd.len() as int);
    let i = first_dot(t);
    assert(i == dd.len());
    let ip = t.take(i);
    assert(ip =~= dd);
    assert(ip.len() >= 1 && all_digits(ip));
    assert(val_of_digits(ip) == units);
    assert(i < t.len());
    let fp = t.skip(i + 1);
    assert(fp =~= fc);
    assert(fp.len() >= 1 && all_digits(fp));
    assert((if fp.len() >= 4 {
        val_of_digits(fp.take(4))
    } else {
        val_of_digits(fp) * pow10((4 - fp.len()) as nat)
    }) == frac);
    assert(val_of_digits(ip) * 10000 + frac == mag);
    assert(spec_parse_amount_tail(t, neg) == Some(v));
}

/// Rendering an amount as decimal text and reading the text back yields
/// the same amount.
pub proof fn lemma_amount_text_round_trip(a: Amount)
    ensures
        spec_amount_from_text(spec_amount_text(a@)) == Some(a),
{
    lemma_text_round_trip(a@);
}

/// The one-character string for digit `d`.
fn digit_to_str(d: u64) -> (r: &'static str)
    requires
        d < 10,
    ensures
        r@ == seq![spec_digit_char(d as int)],
{
    proof {
        reveal_strlit("0");
        reveal_strlit("1");
        reveal_strlit("2");
        reveal_strlit("3");
        reveal_strlit("4");
        reveal_strlit("5");
        reveal_strlit("6");
        reveal_strlit("7");
        reveal_strlit("8");
        reveal_strlit("9");
    }
    let r: &'static str = if d == 0 {
        "0"
    } else if d == 1 {
        "1"
    } else if d == 2 {
        "2"
    } else if d == 3 {
        "3"
    } else if d == 4 {
        "4"
    } else if d == 5 {
        "5"
    } else if d == 6 {
        "6"
    } else if d == 7 {
        "7"
    } else if d == 8 {
        "8"
    } else {
        "9"
    };
    proof {
        assert(r@ =~= seq![spec_digit_char(d as int)]);
    }
    r
}

/// The decimal digits of `n`, most significant first.
fn u64_to_digits(n: u64) -> (s: String)
    ensures
        s@ == spec_digits(n as nat),
    decreases n,
{
    if n < 10 {
        digit_to_str(n).to_owned()
    } else {
        let mut s = u64_to_digits(n / 10);
        s.append(digit_to_str(n % 10));
        proof {
            assert(s@ =~= spec_digits(n as nat));
        }
        s
    }
}

/// The fractional digits of `frac`, zero-padded to four places with
/// trailing zeros removed, keeping at least one digit.
fn frac_to_text(frac: u64) -> (s: String)
    requires
        frac < 10000,
    ensures
        s@ == spec_frac_chars(frac as int),
{
    let d1 = digit_to_str(frac / 1000);
    let d2 = digit_to_str(frac / 100 % 10);
    let d3 = digit_to_str(frac / 10 % 10);
    let d4 = digit_to_str(frac % 10);
    let mut s = d1.to_owned();
    if frac % 10 != 0 {
        s.append(d2);
        s.append(d3);
        s.append(d4);
    } else if frac % 100 != 0 {
        s.append(d2);
        s.append(d3);
    } else if frac % 1000 != 0 {
        s.append(d2);
    }
    proof {
        assert(s@ =~= spec_frac_chars(frac as int));
    }
    s
}

/// The magnitude of `v` as an unsigned value.
fn magnitude_u64(v: i64) -> (r: u64)
    ensures
        v >= 0 ==> r == v,
        v < 0 ==> r as int == -(v as int),
{
    if v >= 0 {
        v as u64
    } else {
        let w: i128 = -(v as i128);
        w as u64
    }
}

/// Whether `c` is a decimal digit.
pub open spec fn is_digit_char(c: char) -> bool {
    48 <= c as int && c as int <= 57
}

/// The numeric value of a digit character.
pub open spec fn digit_val(c: char) -> int {
    c as int - 48
}

/// Whether every character of `s` is a decimal digit.
pub open spec fn all_digits(s: Seq<char>) -> bool {
    forall|i: int| 0 <= i < s.len() ==> is_digit_char(#[trigger] s[i])
}

/// The value of a digit string, most significant digit first.
pub open spec fn val_of_digits(s: Seq<char>) -> int
    decreases s.len(),
{
    if s.len() == 0 {
        0
    } else {
        val_of_digits(s.drop_last()) * 10 + digit_val(s.last())
    }
}

/// Ten to the `n`th power.
pub open spec fn pow10(n: nat) -> int
    decreases n,
{
    if n == 0 {
        1
    } else {
        10 * pow10((n - 1) as nat)
    }
}

/// The index of the first `'.'` in `s`, or `s.len()` if there is none.
pub open spec fn first_dot(s: Seq<char>) -> int
    decreases s.len(),
{
    if s.len() == 0 {
        0
    } else if s[0] == '.' {
        0
    } else {
        1 + first_dot(s.skip(1))
    }
}

/// The scaled value of decimal text: an optional minus sign, a non-empty
/// run of digits, and optionally a dot followed by a non-empty run of
/// digits; the value is truncated (not rounded) toward zero at the fourth
/// fractional digit. `None` for any other shape of text.
pub open spec fn spec_parse_amount(s: Seq<char>) -> Option<int> {
    let neg = s.len() > 0 && s[0] == '-';
    let t = if neg {
        s.skip(1)
    } else {
        s
    };
    spec_parse_amount_tail(t, neg)
}

/// The amount decimal text denotes: `None` for malformed text and for a
/// value outside the 64-bit scaled range.
pub open spec fn spec_amount_from_text(s: Seq<char>) -> Option<Amount> {
    match spec_parse_amount(s) {
        None => None,
        Some(v) => if fits_i64(v) {
            Some(Amount(v as i64))
        } else {
            None
        },
    }
}

/// The character for digit `d`.
pub open spec fn spec_digit_char(d: int) -> char {
    if d == 0 {
        '0'
    } else if d == 1 {
        '1'
    } else if d == 2 {
        '2'
    } else if d == 3 {
        '3'
    } else if d == 4 {
        '4'
    } else if d == 5 {
        '5'
    } else if d == 6 {
        '6'
    } else if d == 7 {
        '7'
    } else if d == 8 {
        '8'
    } else {
        '9'
    }
}

/// The decimal digits of `n`, most significant first.
pub open spec fn spec_digits(n: nat) -> Seq<char>
    decreases n,
{
    if n < 10 {
        seq![spec_digit_char(n as int)]
    } else {
        spec_digits(n / 10).push(spec_digit_char((n % 10) as int))
    }
}

/// The fractional digits of a value below 10,000, zero-padded to four
/// places and with trailing zeros removed, keeping at least one digit.
pub open spec fn spec_frac_chars(frac: int) -> Seq<char> {
    let d1 = spec_digit_char(frac / 1000 % 10);
    let d2 = spec_digit_char(frac / 100 % 10);
    let d3 = spec_digit_char(frac / 10 % 10);
    let d4 = spec_digit_char(frac % 10);
    if frac % 10 != 0 {
        seq![d1, d2, d3, d4]
    } else if frac % 100 != 0 {
        seq![d1, d2, d3]
    } else if frac % 1000 != 0 {
        seq![d1, d2]
    } else {
        seq![d1]
    }
}

/// The decimal text for scaled value `v`: sign, whole units, a dot, and
/// the fraction with trailing zeros suppressed (at least one digit).
pub open spec fn spec_amount_text(v: int) -> Seq<char> {
    let mag = if v < 0 {
        -v
    } else {
        v
    };
    let sign: Seq<char> = if v < 0 {
        seq!['-']
    } else {
        Seq::empty()
    };
    sign + spec_digits((mag / 10000) as nat) + seq!['.'] + spec_frac_chars(mag % 10000)
}

/// `first_dot` is the unique position with no dot before it and a dot (or
/// the end of the string) at it.
proof fn lemma_first_dot_at(s: Seq<char>, k: int)
    requires
        0 <= k <= s.len(),
        forall|j: int| 0 <= j < k ==> s[j] != '.',
        k == s.len() || s[k] == '.',
    ensures
        first_dot(s) == k,
    decreases k,
{
    if k == 0 {
    } else {
        assert(s[0] != '.');
        let s1 = s.skip(1);
        assert(forall|j: int| 0 <= j < k - 1 ==> s1[j] == s[j + 1] && s[j + 1] != '.');
        assert(k - 1 == s1.len() || s1[k - 1] == s[k]);
        lemma_first_dot_at(s1, k - 1);
    }
}

/// A digit string's value is non-negative and below ten to its length.
proof fn lemma_val_bound(s: Seq<char>)
    requires
        all_digits(s),
    ensures
        0 <= val_of_digits(s) < pow10(s.len()),
    decreases s.len(),
{
    if s.len() == 0 {
    } else {
        let s0 = s.drop_last();
        assert(all_digits(s0)) by {
            assert(forall|i: int| 0 <= i < s0.len() ==> s0[i] == s[i]);
        }
        lemma_val_bound(s0);
        assert(s.last() == s[s.len() - 1]);
        assert(0 <= digit_val(s.last()) <= 9);
        assert(pow10(s.len()) == 10 * pow10(s0.len()));
    }
}

/// A prefix of a digit string never exceeds the whole string's value.
proof fn lemma_val_take_le(s: Seq<char>, i: int)
    requires
        all_digits(s),
        0 <= i <= s.len(),
    ensures
        val_of_digits(s.take(i)) <= val_of_digits(s),
    decreases s.len(),
{
    if i == s.len() {
        assert(s.take(i) =~= s);
    } else {
        let s0 = s.drop_last();
        assert(all_digits(s0)) by {
            assert(forall|j: int| 0 <= j < s0.len() ==> s0[j] == s[j]);
        }
        assert(s.take(i) =~= s0.take(i));
        lemma_val_take_le(s0, i);
        lemma_val_bound(s0);
        assert(0 <= digit_val(s.last()) <= 9);
    }
}

/// The largest digit-run value the parser accumulates before it is sure
/// the scaled value cannot fit: above this, value times 10,000 overflows.
pub const MAX_UNITS: u64 = 922337203685477;

/// Finds the first `'.'` at or after `from`, returning `s@.len()` if none.
fn find_dot(s: &str, from: usize) -> (i: usize)
    requires
        from <= s@.len(),
    ensures
        from <= i <= s@.len(),
        i - from == first_dot(s@.skip(from as int)),
        i < s@.len() ==> s@[i as int] == '.',
        forall|j: int| from <= j < i ==> s@[j] != '.',
{
    let n = s.unicode_len();
    let mut idx = from;
    while idx < n
        invariant
            from <= idx <= n,
            n == s@.len(),
            forall|j: int| from <= j < idx ==> s@[j] != '.',
        decreases n - idx,
    {
        if s.get_char(idx) == '.' {
            proof {
                let t = s@.skip(from as int);
                assert(forall|j: int| 0 <= j < idx - from ==> t[j] == s@[j + from] && s@[j + from]
                    != '.');
                lemma_first_dot_at(t, idx - from);
            }
            return idx;
        }
        idx = idx + 1;
    }
    proof {
        let t = s@.skip(from as int);
        assert(forall|j: int| 0 <= j < n - from ==> t[j] == s@[j + from] && s@[j + from] != '.');
        lemma_first_dot_at(t, n - from);
    }
    n
}

/// Reads the digit run `s[from..to]` into a value, refusing a non-digit
/// and any value that could not lead to a representable amount.
fn digits_value(s: &str, from: usize, to: usize) -> (r: Option<u64>)
    requires
        from <= to <= s@.len(),
    ensures
        ({
            let d = s@.subrange(from as int, to as int);
            match r {
                Some(v) => all_digits(d) && v as int == val_of_digits(d) && val_of_digits(d)
                    <= MAX_UNITS,
                None => !all_digits(d) || val_of_digits(d) > MAX_UNITS,
            }
        }),
{
    let ghost d = s@.subrange(from as int, to as int);
    let mut idx = from;
    let mut acc: u64 = 0;
    while idx < to
        invariant
            from <= idx <= to,
            to <= s@.len(),
            d == s@.subrange(from as int, to as int),
            all_digits(d.take(idx - from)),
            acc as int == val_of_digits(d.take(idx - from)),
            acc <= MAX_UNITS,
        decreases to - idx,
    {
        let c = s.get_char(idx);
        proof {
            assert(d[idx - from] == c);
        }
        let u = c as u32;
        if u < 48 || u > 57 {
            proof {
                assert(!is_digit_char(d[idx - from]));
            }
            return None;
        }
        let dv = (u - 48) as u64;
        let acc2 = acc * 10 + dv;
        proof {
            let k = idx - from;
            assert(d.take(k + 1).drop_last() =~= d.take(k));
            assert(d.take(k + 1).last() == d[k]);
            assert(val_of_digits(d.take(k + 1)) == val_of_digits(d.take(k)) * 10 + digit_val(
                d[k],
            ));
            assert(all_digits(d.take(k + 1))) by {
                assert(forall|j: int| 0 <= j < k + 1 ==> d.take(k + 1)[j] == d[j]);
            }
        }
        if acc2 > MAX_UNITS {
            proof {
                if all_digits(d) {
                    lemma_val_take_le(d, idx + 1 - from);
                }
            }
            return None;
        }
        acc = acc2;
        idx = idx + 1;
    }
    proof {
        assert(d.take(to - from) =~= d);
    }
    Some(acc)
}

/// Whether `s[from..to]` consists of digits only.
fn all_digits_in(s: &str, from: usize, to: usize) -> (r: bool)
    requires
        from <= to <= s@.len(),
    ensures
        r == all_digits(s@.subrange(from as int, to as int)),
{
    let ghost d = s@.subrange(from as int, to as int);
    let mut idx = from;
    while idx < to
        invariant
            from <= idx <= to,
            to <= s@.len(),
            d == s@.subrange(from as int, to as int),
            all_digits(d.take(idx - from)),
        decreases to - idx,
    {
        let c = s.get_char(idx);
        proof {
            assert(d[idx - from] == c);
        }
        let u = c as u32;
        if u < 48 || u > 57 {
            proof {
                assert(!is_digit_char(d[idx - from]));
            }
            return false;
        }
        proof {
            let k = idx - from;
            assert(all_digits(d.take(k + 1))) by {
                assert(forall|j: int| 0 <= j < k + 1 ==> d.take(k + 1)[j] == d[j]);
            }
        }
        idx = idx + 1;
    }
    proof {
        assert(d.take(to - from) =~= d);
    }
    true
}

/// Pads a run of up to four fractional digits out to four places: the
/// digit-run value times ten to the number of missing places.
fn scale_frac(frac_part: u64, f_len: usize) -> (r: u64)
    requires
        f_len >= 1,
        f_len >= 4 ==> frac_part < 10000,
        f_len < 4 ==> (frac_part as int) < pow10(f_len as nat),
    ensures
        r < 10000,
        f_len >= 4 ==> r == frac_part,
        f_len < 4 ==> r as int == frac_part as int * pow10((4 - f_len) as nat),
{
    proof {
        reveal_with_fuel(pow10, 6);
    }
    if f_len >= 4 {
        frac_part
    } else if f_len == 1 {
        frac_part * 1000
    } else if f_len == 2 {
        frac_part * 100
    } else {
        frac_part * 10
    }
}

impl From<i64> for Amount {
    fn from(item: i64) -> (r: Amount) {
        Amount(item)
    }
}

impl vstd::std_specs::convert::FromSpecImpl<i64> for Amount {
    open spec fn obeys_from_spec() -> bool {
        true
    }

    open spec fn from_spec(item: i64) -> Amount {
        Amount(item)
    }
}

} // verus!
