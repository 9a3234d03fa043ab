//! Telemetry values as the display clients send them: plain text, each field
//! optional, parsed into numbers or dropped when it does not parse.

use vstd::prelude::*;

verus! {

/// A decimal number `mantissa / 10^scale`, kept exactly as it was written
/// (`"3.70"` is mantissa 370, scale 2).
#[derive(Clone, Copy, Debug, PartialEq, Eq, Structural)]
pub struct Decimal {
    pub mantissa: i64,
    pub scale: usize,
}

pub open spec fn is_digit(c: char) -> bool {
    '0' <= c && c <= '9'
}

pub open spec fn digit_value(c: char) -> int {
    c as int - '0' as int
}

pub open spec fn all_digits(s: Seq<char>) -> bool {
    forall|i: int| 0 <= i < s.len() ==> #[trigger] is_digit(s[i])
}

/// The number that a run of decimal digits denotes.
pub open spec fn digits_value(s: Seq<char>) -> int
    decreases s.len(),
{
    if s.len() == 0 {
        0
    } else {
        10 * digits_value(s.drop_last()) + digit_value(s.last())
    }
}

pub open spec fn has_sign(s: Seq<char>) -> bool {
    s.len() > 0 && (s[0] == '-' || s[0] == '+')
}

pub open spec fn is_negative(s: Seq<char>) -> bool {
    s.len() > 0 && s[0] == '-'
}

/// `v` with the sign that `s` starts with.
pub open spec fn signed(s: Seq<char>, v: int) -> int {
    if is_negative(s) {
        -v
    } else {
        v
    }
}

/// The text after an optional leading sign.
pub open spec fn unsigned_part(s: Seq<char>) -> Seq<char> {
    if has_sign(s) {
        s.skip(1)
    } else {
        s
    }
}

/// The integer that `s` writes: an optional `+` or `-`, then one or more digits.
pub open spec fn integer_text_value(s: Seq<char>) -> Option<int> {
    let u = unsigned_part(s);
    if u.len() > 0 && all_digits(u) {
        Some(signed(s, digits_value(u)))
    } else {
        None
    }
}

/// What parsing `s` as an `i32` gives: its integer, where it is one and fits.
pub open spec fn i32_of_text(s: Seq<char>) -> Option<i32> {
    match integer_text_value(s) {
        Some(v) => if i32::MIN <= v <= i32::MAX {
            Some(v as i32)
        } else {
            None
        },
        None => None,
    }
}

/// `u` is digits, one decimal point at `p`, digits, and at least one digit in all.
pub open spec fn point_at(u: Seq<char>, p: int) -> bool {
    &&& 0 <= p < u.len()
    &&& u[p] == '.'
    &&& u.len() >= 2
    &&& all_digits(u.take(p))
    &&& all_digits(u.skip(p + 1))
}

/// Sign, mantissa and scale of the decimal that `s` writes: an optional sign,
/// then digits with at most one decimal point among or around them.
pub open spec fn decimal_text_value(s: Seq<char>) -> Option<(int, nat)> {
    let u = unsigned_part(s);
    if u.len() > 0 && all_digits(u) {
        Some((signed(s, digits_value(u)), 0nat))
    } else if exists|p: int| point_at(u, p) {
        let p = choose|p: int| point_at(u, p);
        Some((signed(s, digits_value(u.remove(p))), (u.len() - p - 1) as nat))
    } else {
        None
    }
}

/// What parsing `s` as a decimal gives: its value, where the mantissa fits.
pub open spec fn decimal_of_text(s: Seq<char>) -> Option<Decimal> {
    match decimal_text_value(s) {
        Some((m, k)) => if i64::MIN <= m <= i64::MAX && k <= usize::MAX {
            Some(Decimal { mantissa: m as i64, scale: k as usize })
        } else {
            None
        },
        None => None,
    }
}

proof fn lemma_digits_value_push(s: Seq<char>, c: char)
    ensures
        digits_value(s.push(c)) == 10 * digits_value(s) + digit_value(c),
{
    assert(s.push(c).drop_last() =~= s);
}

proof fn lemma_digits_value_nonneg(s: Seq<char>)
    requires
        all_digits(s),
    ensures
        digits_value(s) >= 0,
    decreases s.len(),
{
    if s.len() > 0 {
        assert(is_digit(s[s.len() - 1]));
        lemma_digits_value_nonneg(s.drop_last());
    }
}

/// The largest magnitude that the digit scanner tracks exactly.
const MAGNITUDE_LIMIT: u128 = 9223372036854775808;

/// Reads `s[from..to]` as a run of digits. `None` when a character there is
/// not a digit; otherwise whether the value went past `MAGNITUDE_LIMIT` and,
/// when it did not, the value itself.
fn scan_digits(s: &str, from: usize, to: usize, skip: usize) -> (r: Option<(bool, u128)>)
    requires
        from <= to <= s@.len(),
    ensures
        ({
            let d = s@.subrange(from as int, to as int);
            let d = if from <= skip < to { d.remove(skip - from) } else { d };
            match r {
                None => !all_digits(d),
                Some((over, v)) => all_digits(d) && (over <==> digits_value(d) > MAGNITUDE_LIMIT)
                    && (!over ==> v == digits_value(d)),
            }
        }),
{
    let ghost mut seen: Seq<char> = Seq::empty();
    let mut over = false;
    let mut acc: u128 = 0;
    let mut i = from;
    while i < to
        invariant
            from <= i <= to <= s@.len(),
            all_digits(seen),
            seen == (if from <= skip < i {
                s@.subrange(from as int, i as int).remove(skip - from)
            } else {
                s@.subrange(from as int, i as int)
            }),
            over <==> digits_value(seen) > MAGNITUDE_LIMIT,
            !over ==> acc == digits_value(seen),
        decreases to - i,
    {
        if i != skip {
            let c = s.get_char(i);
            if !('0' <= c && c <= '9') {
                proof {
                    let d = s@.subrange(from as int, to as int);
                    let d2 = if from <= skip < to { d.remove(skip - from) } else { d };
                    let k = if from <= skip < i { i - from - 1 } else { i - from };
                    assert(d[i - from] == c);
                    assert(0 <= k < d2.len());
                    assert(d2[k as int] == c);
                    assert(!is_digit(d2[k as int]));
                }
                return None;
            }
            proof {
                lemma_digits_value_push(seen, c);
                lemma_digits_value_nonneg(seen);
            }
            if !over {
                let d = (c as u32 - '0' as u32) as u128;
                acc = acc * 10 + d;
                if acc > MAGNITUDE_LIMIT {
                    over = true;
                }
            }
            proof {
                let old_seen = seen;
                seen = seen.push(c);
                assert(seen =~= (if from <= skip < i + 1 {
                    s@.subrange(from as int, i + 1).remove(skip - from)
                } else {
                    s@.subrange(from as int, i + 1)
                }));
            }
        } else {
            proof {
                assert(seen =~= s@.subrange(from as int, i + 1).remove(skip - from));
            }
        }
        i = i + 1;
    }
    Some((over, acc))
}

/// Where the sign ends in `s`: 1 after a leading `+` or `-`, else 0; and
/// whether that sign is `-`.
fn sign_prefix(s: &str) -> (r: (usize, bool))
    ensures
        r.0 <= s@.len(),
        s@.subrange(r.0 as int, s@.len() as int) == unsigned_part(s@),
        r.1 <==> is_negative(s@),
{
    let n = s.unicode_len();
    if n > 0 {
        let c = s.get_char(0);
        if c == '-' {
            assert(s@.skip(1) =~= s@.subrange(1, s@.len() as int));
            return (1, true);
        } else if c == '+' {
            assert(s@.skip(1) =~= s@.subrange(1, s@.len() as int));
            return (1, false);
        }
    }
    assert(s@ =~= s@.subrange(0, s@.len() as int));
    (0, false)
}

/// Parses `s` as an `i32` in decimal notation: an optional `+` or `-`, then
/// digits. `None` for anything else and for values out of range.
pub fn parse_i32(s: &str) -> (r: Option<i32>)
    ensures
        r == i32_of_text(s@),
{
    let n = s.unicode_len();
    let (start, negative) = sign_prefix(s);
    if start == n {
        return None;
    }
    let scanned = scan_digits(s, start, n, n);
    proof {
        let u = unsigned_part(s@);
        if let Some((over, v)) = scanned {
            lemma_digits_value_nonneg(u);
        }
    }
    match scanned {
        None => None,
        Some((over, v)) => {
            if over {
                None
            } else if negative {
                if v <= 2147483648 {
                    Some((0 - (v as i64)) as i32)
                } else {
                    None
                }
            } else if v <= 2147483647 {
                Some(v as i32)
            } else {
                None
            }
        },
    }
}

proof fn lemma_point_unique(u: Seq<char>, p: int, q: int)
    requires
        point_at(u, q),
        0 <= p < u.len(),
        u[p] == '.',
    ensures
        p == q,
{
    if p < q {
        assert(u.take(q)[p] == '.');
        assert(!is_digit(u.take(q)[p]));
    } else if p > q {
        assert(u.skip(q + 1)[p - q - 1] == '.');
        assert(!is_digit(u.skip(q + 1)[p - q - 1]));
    }
}

/// Parses `s` as a decimal number: an optional `+` or `-`, then digits with
/// at most one decimal point (`"3.7"`, `"-0.5"`, `"12."`, `".5"`). `None` for
/// anything else and where the mantissa does not fit an `i64`.
pub fn parse_decimal(s: &str) -> (r: Option<Decimal>)
    ensures
        r == decimal_of_text(s@),
{
    let n = s.unicode_len();
    let (start, negative) = sign_prefix(s);
    let ghost u = unsigned_part(s@);
    if start == n {
        return None;
    }
    let mut p = n;
    let mut i = start;
    while i < n
        invariant
            start <= i <= n,
            n == s@.len(),
            p <= n,
            p == n ==> forall|j: int| start <= j < i ==> s@[j] != '.',
            p < n ==> start <= p < i && s@[p as int] == '.' && forall|j: int|
                start <= j < p ==> s@[j] != '.',
        decreases n - i,
    {
        if p == n && s.get_char(i) == '.' {
            p = i;
        }
        i = i + 1;
    }
    if p < n && n - start < 2 {
        proof {
            assert(u[p - start] == '.');
            assert(!is_digit(u[p - start]));
            assert(!all_digits(u));
            assert forall|q: int| !point_at(u, q) by {
                if point_at(u, q) {
                    lemma_point_unique(u, p - start, q);
                }
            }
        }
        return None;
    }
    let scanned = scan_digits(s, start, n, p);
    proof {
        if p < n {
            assert(u[p - start] == '.');
            assert(!is_digit(u[p - start]));
            assert(!all_digits(u));
            assert forall|q: int| point_at(u, q) implies q == p - start by {
                lemma_point_unique(u, p - start, q);
            }
            if let Some((over, v)) = scanned {
                assert(u.take(p - start) =~= u.remove(p - start).take(p - start));
                assert(u.skip(p - start + 1) =~= u.remove(p - start).skip(p - start));
                assert(point_at(u, p - start));
            } else {
                assert forall|q: int| !point_at(u, q) by {
                    if point_at(u, q) {
                        assert(q == p - start);
                        assert forall|k: int| 0 <= k < u.remove(q).len() implies is_digit(
                            #[trigger] u.remove(q)[k],
                        ) by {
                            if k < q {
                                assert(u.remove(q)[k] == u.take(q)[k]);
                            } else {
                                assert(u.remove(q)[k] == u.skip(q + 1)[k - q]);
                            }
                        }
                    }
                }
            }
        } else {
            assert forall|q: int| !point_at(u, q) by {
                if point_at(u, q) {
                    assert(u[q] == s@[start + q]);
                    assert(s@[start + q] != '.');
                }
            }
        }
    }
    match scanned {
        None => None,
        Some((over, v)) => {
            let scale: usize = if p < n { n - p - 1 } else { 0 };
            let ghost digits = if p < n { u.remove(p - start) } else { u };
            proof {
                assert(decimal_text_value(s@) == Some((signed(s@, digits_value(digits)), scale as nat)));
                lemma_digits_value_nonneg(digits);
            }
            let mantissa: i64 = if over {
                return None;
            } else if negative {
                if v == MAGNITUDE_LIMIT {
                    i64::MIN
                } else {
                    0 - (v as i64)
                }
            } else if v < MAGNITUDE_LIMIT {
                v as i64
            } else {
                return None;
            };
            assert(mantissa == signed(s@, digits_value(digits)));
            Some(Decimal { mantissa, scale })
        },
    }
}

/// One check-in's telemetry after parsing: each field that did not parse is
/// left out.
#[derive(Clone, Debug)]
pub struct StatusReport {
    pub rssi: Option<i32>,
    pub battery_voltage: Option<Decimal>,
    pub fw_version: Option<String>,
    pub refresh_rate: Option<i32>,
}

/// An empty text stands for a field that was not sent.
pub open spec fn text_given(s: Seq<char>) -> Option<Seq<char>> {
    if s.len() == 0 {
        None
    } else {
        Some(s)
    }
}

/// Parses each telemetry field on its own: signal strength and refresh
/// interval as `i32`, battery voltage as a decimal, the firmware version as
/// it stands. A field that does not parse, or was not sent (empty), is
/// dropped; the others are kept.
pub fn parse_status_report(rssi: &str, battery_voltage: &str, fw_version: &str, refresh_rate: &str) -> (r: StatusReport)
    ensures
        r.rssi == i32_of_text(rssi@),
        r.battery_voltage == decimal_of_text(battery_voltage@),
        r.fw_version.deep_view() == text_given(fw_version@),
        r.refresh_rate == i32_of_text(refresh_rate@),
{
    StatusReport {
        rssi: parse_i32(rssi),
        battery_voltage: parse_decimal(battery_voltage),
        fw_version: if fw_version.unicode_len() == 0 {
            None
        } else {
            Some(fw_version.to_owned())
        },
        refresh_rate: parse_i32(refresh_rate),
    }
}

} // verus!
