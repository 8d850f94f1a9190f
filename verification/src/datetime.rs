//! Calendar instants for the reminder pipeline: a plain UTC date-time record,
//! its epoch-second value, parsing of RFC 3339 timestamps, and rendering back
//! to the canonical UTC form.
use vstd::prelude::*;

use crate::lemma_div_add_multiple;
use crate::strutil::{chars_of, pad2, pad4, push_char, push_pad2, push_pad4};
use crate::valid_epoch;

verus! {

/// Whether `y` is a leap year in the proleptic Gregorian calendar.
pub open spec fn is_leap_year(y: int) -> bool {
    (y % 4 == 0 && y % 100 != 0) || y % 400 == 0
}

/// Number of days in the given month of the given year.
pub open spec fn days_in_month(y: int, m: int) -> int {
    if m == 2 {
        if is_leap_year(y) {
            29
        } else {
            28
        }
    } else if m == 4 || m == 6 || m == 9 || m == 11 {
        30
    } else {
        31
    }
}

/// Whether the fields form a real calendar date and time of day, within the
/// library's supported years 0000 through 9999.
pub open spec fn wf_fields(
    year: int,
    month: int,
    day: int,
    hour: int,
    minute: int,
    second: int,
) -> bool {
    &&& 0 <= year <= 9999
    &&& 1 <= month <= 12
    &&& 1 <= day <= days_in_month(year, month)
    &&& 0 <= hour <= 23
    &&& 0 <= minute <= 59
    &&& 0 <= second <= 59
}

/// Days from 1970-01-01 to the given date (negative for earlier dates),
/// counted in the proleptic Gregorian calendar. The computation runs over
/// eras of 400 years, shifted so every intermediate value is nonnegative.
pub open spec fn days_from_civil(year: int, month: int, day: int) -> int {
    let y = if month <= 2 {
        year + 399
    } else {
        year + 400
    };
    let era = y / 400;
    let yoe = y - era * 400;
    let mp = if month > 2 {
        month - 3
    } else {
        month + 9
    };
    let doy = (153 * mp + 2) / 5 + day - 1;
    let doe = yoe * 365 + yoe / 4 - yoe / 100 + doy;
    era * 146097 + doe - 865565
}

/// UTC epoch seconds of the given date and time of day.
pub open spec fn epoch_of(
    year: int,
    month: int,
    day: int,
    hour: int,
    minute: int,
    second: int,
) -> int {
    days_from_civil(year, month, day) * 86400 + hour * 3600 + minute * 60 + second
}

/// A plain UTC date and time, second precision. The reminder logic models
/// every instant this way; well-formed values (see `wf`) cover years 0000
/// through 9999.
#[derive(Debug, Clone, Copy, PartialEq, Eq, Structural)]
pub struct UtcDateTime {
    pub year: u16,
    pub month: u8,
    pub day: u8,
    pub hour: u8,
    pub minute: u8,
    pub second: u8,
}

impl UtcDateTime {
    /// Whether the fields form a real date and time in the supported range.
    pub open spec fn wf(self) -> bool {
        wf_fields(
            self.year as int,
            self.month as int,
            self.day as int,
            self.hour as int,
            self.minute as int,
            self.second as int,
        )
    }

    /// The UTC epoch seconds this date-time denotes.
    pub open spec fn epoch_spec(self) -> int {
        epoch_of(
            self.year as int,
            self.month as int,
            self.day as int,
            self.hour as int,
            self.minute as int,
            self.second as int,
        )
    }

    /// Builds a UTC date-time from its fields; `None` iff the fields do not
    /// form a real date and time in the supported range.
    pub fn from_ymd_hms(year: u16, month: u8, day: u8, hour: u8, minute: u8, second: u8) -> (r:
        Option<UtcDateTime>)
        ensures
            r is Some <==> wf_fields(
                year as int,
                month as int,
                day as int,
                hour as int,
                minute as int,
                second as int,
            ),
            r is Some ==> r->0 == (UtcDateTime { year, month, day, hour, minute, second })
                && r->0.wf(),
    {
        let ok = year <= 9999 && 1 <= month && month <= 12 && 1 <= day && day <= days_in_month_exec(
            year,
            month,
        ) && hour <= 23 && minute <= 59 && second <= 59;
        if ok {
            Some(UtcDateTime { year, month, day, hour, minute, second })
        } else {
            None
        }
    }

    /// The day-of-month field.
    pub fn day_of_month(&self) -> (d: u8)
        ensures
            d == self.day,
    {
        self.day
    }

    /// The UTC epoch seconds of this instant.
    pub fn epoch_seconds(&self) -> (r: i64)
        requires
            self.wf(),
        ensures
            r as int == self.epoch_spec(),
            valid_epoch(r as int),
    {
        proof {
            lemma_days_from_civil_bounds(self.year as int, self.month as int, self.day as int);
        }
        let days_shifted: u64 = days_shifted_exec(self.year, self.month, self.day);
        let tod: u64 = (self.hour as u64) * 3600 + (self.minute as u64) * 60 + (self.second as u64);
        let secs_shifted: u64 = days_shifted * 86400 + tod;
        (secs_shifted as i64) - 74784816000i64
    }
}

/// Number of days in the given month, executable form.
pub fn days_in_month_exec(year: u16, month: u8) -> (d: u8)
    requires
        1 <= month <= 12,
    ensures
        d as int == days_in_month(year as int, month as int),
{
    if month == 2 {
        let leap = (year % 4 == 0 && year % 100 != 0) || year % 400 == 0;
        if leap {
            29
        } else {
            28
        }
    } else if month == 4 || month == 6 || month == 9 || month == 11 {
        30
    } else {
        31
    }
}

/// `days_from_civil` shifted into the nonnegative range by 865565 days.
fn days_shifted_exec(year: u16, month: u8, day: u8) -> (r: u64)
    requires
        0 <= year <= 9999,
        1 <= month <= 12,
        1 <= day <= days_in_month(year as int, month as int),
    ensures
        r as int == days_from_civil(year as int, month as int, day as int) + 865565,
        r <= 2932896 + 865565,
{
    proof {
        lemma_days_from_civil_bounds(year as int, month as int, day as int);
    }
    let y: u64 = if month <= 2 {
        year as u64 + 399
    } else {
        year as u64 + 400
    };
    let era: u64 = y / 400;
    let yoe: u64 = y - era * 400;
    let mp: u64 = if month > 2 {
        month as u64 - 3
    } else {
        month as u64 + 9
    };
    let doy: u64 = (153 * mp + 2) / 5 + day as u64 - 1;
    proof {
        vstd::arithmetic::div_mod::lemma_fundamental_div_mod(y as int, 400);
        broadcast use vstd::arithmetic::div_mod::lemma_mod_division_less_than_divisor;

        assert(yoe < 400);
        assert(yoe * 365 <= 399 * 365) by (nonlinear_arith)
            requires
                yoe < 400,
        ;
    }
    let doe: u64 = yoe * 365 + yoe / 4 - yoe / 100 + doy;
    era * 146097 + doe
}

/// Whether `c` is a decimal digit.
pub open spec fn is_digit(c: char) -> bool {
    48 <= c as u32 <= 57
}

/// The numeric value of a decimal digit character.
pub open spec fn digit_val(c: char) -> int {
    c as u32 - 48
}

/// The two-digit number at position `i`.
pub open spec fn num2(s: Seq<char>, i: int) -> int {
    10 * digit_val(s[i]) + digit_val(s[i + 1])
}

/// The four-digit number at position `i`.
pub open spec fn num4(s: Seq<char>, i: int) -> int {
    1000 * digit_val(s[i]) + 100 * digit_val(s[i + 1]) + 10 * digit_val(s[i + 2]) + digit_val(
        s[i + 3],
    )
}

/// The fixed "YYYY-MM-DDTHH:MM:SS" layout of an RFC 3339 timestamp: digit
/// positions, separators, and the date/time separator ('T', 't' or a space).
pub open spec fn rfc3339_base_ok(s: Seq<char>) -> bool {
    &&& s.len() >= 20
    &&& is_digit(s[0]) && is_digit(s[1]) && is_digit(s[2]) && is_digit(s[3])
    &&& s[4] == '-'
    &&& is_digit(s[5]) && is_digit(s[6])
    &&& s[7] == '-'
    &&& is_digit(s[8]) && is_digit(s[9])
    &&& (s[10] == 'T' || s[10] == 't' || s[10] == ' ')
    &&& is_digit(s[11]) && is_digit(s[12])
    &&& s[13] == ':'
    &&& is_digit(s[14]) && is_digit(s[15])
    &&& s[16] == ':'
    &&& is_digit(s[17]) && is_digit(s[18])
}

/// First position at or after `i` holding a non-digit (or the end).
pub open spec fn skip_digits(s: Seq<char>, i: int) -> int
    decreases s.len() - i,
{
    if 0 <= i < s.len() && is_digit(s[i]) {
        skip_digits(s, i + 1)
    } else {
        i
    }
}

/// End of the optional fractional-second part: past its digits when a '.'
/// follows the seconds, else right after the seconds.
pub open spec fn frac_end(s: Seq<char>) -> int {
    if s.len() > 19 && s[19] == '.' {
        skip_digits(s, 20)
    } else {
        19
    }
}

/// A well-formed UTC designator or numeric offset starting at `k` and ending
/// the string: 'Z'/'z', or a sign with "HH:MM", hours to 23 and minutes
/// to 59.
pub open spec fn offset_ok(s: Seq<char>, k: int) -> bool {
    if !(0 <= k < s.len()) {
        false
    } else if s[k] == 'Z' || s[k] == 'z' {
        k + 1 == s.len()
    } else if s[k] == '+' || s[k] == '-' {
        &&& k + 6 == s.len()
        &&& is_digit(s[k + 1]) && is_digit(s[k + 2])
        &&& s[k + 3] == ':'
        &&& is_digit(s[k + 4]) && is_digit(s[k + 5])
        &&& num2(s, k + 1) <= 23
        &&& num2(s, k + 4) <= 59
    } else {
        false
    }
}

/// The offset at `k` in seconds east of UTC (zero for the UTC designator).
pub open spec fn offset_secs(s: Seq<char>, k: int) -> int {
    if s[k] == '+' {
        num2(s, k + 1) * 3600 + num2(s, k + 4) * 60
    } else if s[k] == '-' {
        -(num2(s, k + 1) * 3600 + num2(s, k + 4) * 60)
    } else {
        0
    }
}

/// The instant an RFC 3339 timestamp denotes, as UTC epoch seconds. `None`
/// iff the string does not fit the grammar (date and time layout, an optional
/// nonempty fraction, a terminating offset), the fields do not form a real
/// date and time, or the instant falls outside the supported years. A
/// fractional second is accepted and ignored, which rounds the instant down.
pub open spec fn parse_rfc3339_spec(s: Seq<char>) -> Option<int> {
    if !rfc3339_base_ok(s) {
        None
    } else {
        let year = num4(s, 0);
        let month = num2(s, 5);
        let day = num2(s, 8);
        let hour = num2(s, 11);
        let minute = num2(s, 14);
        let second = num2(s, 17);
        let k = frac_end(s);
        if s.len() > 19 && s[19] == '.' && k == 20 {
            None
        } else if !offset_ok(s, k) {
            None
        } else if !wf_fields(year, month, day, hour, minute, second) {
            None
        } else {
            let e = epoch_of(year, month, day, hour, minute, second) - offset_secs(s, k);
            if valid_epoch(e) {
                Some(e)
            } else {
                None
            }
        }
    }
}

/// The digit value at position `i` of `v`, or `None` when `i` is out of
/// bounds or the character is not a digit.
fn digit_at(v: &Vec<char>, i: usize) -> (r: Option<u64>)
    ensures
        r is Some <==> (i < v@.len() && is_digit(v@[i as int])),
        r is Some ==> r->0 as int == digit_val(v@[i as int]),
{
    if i < v.len() {
        let u = v[i] as u32;
        if 48 <= u && u <= 57 {
            Some((u - 48) as u64)
        } else {
            None
        }
    } else {
        None
    }
}

/// Whether position `i` of `v` holds a decimal digit.
fn is_digit_at(v: &Vec<char>, i: usize) -> (b: bool)
    ensures
        b == (i < v@.len() && is_digit(v@[i as int])),
{
    if i < v.len() {
        let u = v[i] as u32;
        48 <= u && u <= 57
    } else {
        false
    }
}

/// The two-digit number at position `i` of `v`, when both are digits.
fn num2_at(v: &Vec<char>, i: usize) -> (r: Option<u64>)
    requires
        i + 2 <= usize::MAX,
    ensures
        r is Some <==> (i + 1 < v@.len() && is_digit(v@[i as int]) && is_digit(v@[i + 1])),
        r is Some ==> r->0 as int == num2(v@, i as int) && r->0 <= 99,
{
    match (digit_at(v, i), digit_at(v, i + 1)) {
        (Some(a), Some(b)) => Some(10 * a + b),
        _ => None,
    }
}

/// Parses an RFC 3339 timestamp into the UTC epoch seconds it denotes;
/// `None` exactly when `parse_rfc3339_spec` rejects the string.
pub fn parse_rfc3339_epoch(s: &str) -> (r: Option<i64>)
    ensures
        r is Some <==> parse_rfc3339_spec(s@) is Some,
        r is Some ==> Some(r->0 as int) == parse_rfc3339_spec(s@),
        r is Some ==> valid_epoch(r->0 as int),
{
    let v = chars_of(s);
    if v.len() < 20 {
        return None;
    }
    let year = match (digit_at(&v, 0), digit_at(&v, 1), digit_at(&v, 2), digit_at(&v, 3)) {
        (Some(a), Some(b), Some(c), Some(d)) => 1000 * a + 100 * b + 10 * c + d,
        _ => { return None },
    };
    if !(v[4] == '-') {
        return None;
    }
    let month = match num2_at(&v, 5) {
        Some(m) => m,
        None => { return None },
    };
    if !(v[7] == '-') {
        return None;
    }
    let day = match num2_at(&v, 8) {
        Some(d) => d,
        None => { return None },
    };
    if !(v[10] == 'T' || v[10] == 't' || v[10] == ' ') {
        return None;
    }
    let hour = match num2_at(&v, 11) {
        Some(h) => h,
        None => { return None },
    };
    if !(v[13] == ':') {
        return None;
    }
    let minute = match num2_at(&v, 14) {
        Some(m) => m,
        None => { return None },
    };
    if !(v[16] == ':') {
        return None;
    }
    let second = match num2_at(&v, 17) {
        Some(x) => x,
        None => { return None },
    };
    assert(rfc3339_base_ok(v@));
    assert(year as int == num4(v@, 0));
    // optional fractional seconds, parsed and ignored
    let mut k: usize = 19;
    if v[19] == '.' {
        k = 20;
        while is_digit_at(&v, k)
            invariant
                20 <= k <= v@.len(),
                v@.len() <= usize::MAX,
                skip_digits(v@, 20) == skip_digits(v@, k as int),
            decreases v@.len() - k,
        {
            k = k + 1;
        }
        assert(skip_digits(v@, k as int) == k);
        if k == 20 {
            return None;
        }
    }
    assert(k as int == frac_end(v@));
    // the offset must close the string
    if k >= v.len() {
        return None;
    }
    let off: i64 = if v[k] == 'Z' || v[k] == 'z' {
        if v.len() - k != 1 {
            return None;
        }
        0
    } else if v[k] == '+' || v[k] == '-' {
        if v.len() - k != 6 {
            return None;
        }
        let oh = match num2_at(&v, k + 1) {
            Some(h) => h,
            None => { return None },
        };
        if !(v[k + 3] == ':') {
            return None;
        }
        let om = match num2_at(&v, k + 4) {
            Some(m) => m,
            None => { return None },
        };
        if oh > 23 || om > 59 {
            return None;
        }
        let secs = (oh * 3600 + om * 60) as i64;
        if v[k] == '+' {
            secs
        } else {
            -secs
        }
    } else {
        return None;
    };
    assert(offset_ok(v@, k as int));
    assert(off as int == offset_secs(v@, k as int));
    let dt = match UtcDateTime::from_ymd_hms(
        year as u16,
        month as u8,
        day as u8,
        hour as u8,
        minute as u8,
        second as u8,
    ) {
        Some(dt) => dt,
        None => { return None },
    };
    let e: i64 = dt.epoch_seconds() - off;
    if -62167219200i64 <= e && e <= 253402300799i64 {
        Some(e)
    } else {
        None
    }
}

/// The canonical RFC 3339 rendering of a UTC date-time, "YYYY-MM-DDTHH:MM:SSZ".
pub open spec fn format_rfc3339_spec(dt: UtcDateTime) -> Seq<char> {
    pad4(dt.year as int) + seq!['-'] + pad2(dt.month as int) + seq!['-'] + pad2(dt.day as int)
        + seq!['T'] + pad2(dt.hour as int) + seq![':'] + pad2(dt.minute as int) + seq![':'] + pad2(
        dt.second as int,
    ) + seq!['Z']
}

/// Renders a UTC date-time in the canonical RFC 3339 form.
pub fn format_rfc3339(dt: &UtcDateTime) -> (r: String)
    requires
        dt.wf(),
    ensures
        r@ == format_rfc3339_spec(*dt),
{
    let mut out = String::new();
    push_pad4(&mut out, dt.year as u64);
    push_char(&mut out, '-');
    push_pad2(&mut out, dt.month as u64);
    push_char(&mut out, '-');
    push_pad2(&mut out, dt.day as u64);
    push_char(&mut out, 'T');
    push_pad2(&mut out, dt.hour as u64);
    push_char(&mut out, ':');
    push_pad2(&mut out, dt.minute as u64);
    push_char(&mut out, ':');
    push_pad2(&mut out, dt.second as u64);
    push_char(&mut out, 'Z');
    proof {
        assert(out@ =~= format_rfc3339_spec(*dt));
    }
    out
}

/// The calendar day after the given date.
pub open spec fn succ_date(year: int, month: int, day: int) -> (int, int, int) {
    if day < days_in_month(year, month) {
        (year, month, day + 1)
    } else if month < 12 {
        (year, month + 1, 1)
    } else {
        (year + 1, 1, 1)
    }
}

/// The date `n` calendar days after the given date.
pub open spec fn add_days_spec(year: int, month: int, day: int, n: nat) -> (int, int, int)
    decreases n,
{
    if n == 0 {
        (year, month, day)
    } else {
        let s = succ_date(year, month, day);
        add_days_spec(s.0, s.1, s.2, (n - 1) as nat)
    }
}

/// Stepping a date forward never decreases the year.
proof fn lemma_add_days_year_monotone(year: int, month: int, day: int, n: nat)
    ensures
        add_days_spec(year, month, day, n).0 >= year,
    decreases n,
{
    if n > 0 {
        let s = succ_date(year, month, day);
        lemma_add_days_year_monotone(s.0, s.1, s.2, (n - 1) as nat);
    }
}

impl UtcDateTime {
    /// The date `n` days later, keeping the time of day; `None` iff that
    /// date falls past year 9999.
    pub fn add_days(&self, n: u32) -> (r: Option<UtcDateTime>)
        requires
            self.wf(),
        ensures
            ({
                let t = add_days_spec(self.year as int, self.month as int, self.day as int, n as nat);
                &&& (r is Some <==> t.0 <= 9999)
                &&& r is Some ==> r->0 == (UtcDateTime {
                    year: t.0 as u16,
                    month: t.1 as u8,
                    day: t.2 as u8,
                    hour: self.hour,
                    minute: self.minute,
                    second: self.second,
                })
                &&& r is Some ==> r->0.wf()
            }),
    {
        let ghost t = add_days_spec(self.year as int, self.month as int, self.day as int, n as nat);
        let mut year: u16 = self.year;
        let mut month: u8 = self.month;
        let mut day: u8 = self.day;
        let mut i: u32 = 0;
        while i < n
            invariant
                i <= n,
                wf_fields(year as int, month as int, day as int, 0, 0, 0),
                t == add_days_spec(year as int, month as int, day as int, (n - i) as nat),
                t == add_days_spec(self.year as int, self.month as int, self.day as int, n as nat),
            decreases n - i,
        {
            let dim = days_in_month_exec(year, month);
            if day < dim {
                day = day + 1;
            } else if month < 12 {
                month = month + 1;
                day = 1;
            } else if year < 9999 {
                year = year + 1;
                month = 1;
                day = 1;
            } else {
                proof {
                    let rem = (n - i) as nat;
                    assert(rem > 0);
                    assert(succ_date(year as int, month as int, day as int) == (10000int, 1int, 1int));
                    assert(add_days_spec(year as int, month as int, day as int, rem)
                        == add_days_spec(10000, 1, 1, (rem - 1) as nat));
                    lemma_add_days_year_monotone(10000, 1, 1, (rem - 1) as nat);
                    assert(t.0 >= 10000);
                }
                return None;
            }
            i = i + 1;
        }
        proof {
            assert(t == (year as int, month as int, day as int));
        }
        Some(
            UtcDateTime {
                year,
                month,
                day,
                hour: self.hour,
                minute: self.minute,
                second: self.second,
            },
        )
    }
}

/// The calendar fields denoted by an instant: year, month, day, hour,
/// minute, second. The date comes out of the era computation that
/// `days_from_civil` inverts; the two subtractions are guarded so the
/// function is total, and a result that does not form a real date is
/// rejected by the final well-formedness test in `from_epoch_spec`.
pub open spec fn civil_of_day(days: int) -> (int, int, int) {
    let z = days + 865565;
    let era = z / 146097;
    let doe = z - era * 146097;
    let yoe = (doe - doe / 1460 + doe / 36524 - doe / 146096) / 365;
    let y = yoe + era * 400;
    let days_part = 365 * yoe + yoe / 4 - yoe / 100;
    let doy = if doe >= days_part {
        doe - days_part
    } else {
        0
    };
    let mp = (5 * doy + 2) / 153;
    let md = (153 * mp + 2) / 5;
    let d = if doy >= md {
        doy - md + 1
    } else {
        1
    };
    let m = if mp < 10 {
        mp + 3
    } else {
        mp - 9
    };
    ((if m <= 2 {
        y + 1
    } else {
        y
    }) - 400, m, d)
}

/// The date-time denoted by UTC epoch second `e`; `None` when the computed
/// fields do not form a well-formed date-time of the supported years.
pub open spec fn from_epoch_spec(e: int) -> Option<UtcDateTime> {
    let days = e / 86400;
    let tod = e % 86400;
    let ymd = civil_of_day(days);
    let hour = tod / 3600;
    let minute = (tod % 3600) / 60;
    let second = tod % 60;
    if wf_fields(ymd.0, ymd.1, ymd.2, hour, minute, second) {
        Some(
            UtcDateTime {
                year: ymd.0 as u16,
                month: ymd.1 as u8,
                day: ymd.2 as u8,
                hour: hour as u8,
                minute: minute as u8,
                second: second as u8,
            },
        )
    } else {
        None
    }
}

impl UtcDateTime {
    /// The date-time of a UTC epoch second within the supported years.
    pub fn from_epoch_seconds(e: i64) -> (r: Option<UtcDateTime>)
        requires
            valid_epoch(e as int),
        ensures
            r == from_epoch_spec(e as int),
            r is Some ==> r->0.wf(),
    {
        broadcast use vstd::arithmetic::div_mod::lemma_mod_division_less_than_divisor;

        let eu: u64 = (e + 62167219200) as u64;
        let days_sh: u64 = eu / 86400;
        let tod: u64 = eu % 86400;
        proof {
            assert(62167219200 == 719528 * 86400);
            lemma_div_add_multiple(e as int, 719528, 86400);
            vstd::arithmetic::div_mod::lemma_mod_multiples_vanish(719528, e as int, 86400);
            assert(days_sh as int == e as int / 86400 + 719528);
            assert(tod as int == e as int % 86400);
        }
        let z: u64 = days_sh + 146037;
        proof {
            vstd::arithmetic::div_mod::lemma_div_is_ordered(eu as int, 315569519999, 86400);
            assert(315569519999int / 86400 == 3652424);
            assert(days_sh <= 3652424);
            assert(z as int == e as int / 86400 + 865565);
        }
        let era: u64 = z / 146097;
        let doe: u64 = z - era * 146097;
        proof {
            vstd::arithmetic::div_mod::lemma_fundamental_div_mod(z as int, 146097);
            assert(doe as int == z as int % 146097);
            assert(doe < 146097);
            vstd::arithmetic::div_mod::lemma_div_nonincreasing(doe as int, 1460);
            vstd::arithmetic::div_mod::lemma_div_is_ordered_by_denominator(
                doe as int,
                36524,
                146096,
            );
            vstd::arithmetic::div_mod::lemma_div_is_ordered_by_denominator(
                doe as int,
                1460,
                36524,
            );
        }
        let yoe: u64 = (doe - doe / 1460 + doe / 36524 - doe / 146096) / 365;
        let y: u64 = yoe + era * 400;
        proof {
            vstd::arithmetic::div_mod::lemma_div_nonincreasing(
                (doe - doe / 1460 + doe / 36524 - doe / 146096) as int,
                365,
            );
        }
        let days_part: u64 = 365 * yoe + yoe / 4 - yoe / 100;
        proof {
            vstd::arithmetic::div_mod::lemma_div_is_ordered_by_denominator(yoe as int, 4, 100);
            assert(yoe / 100 <= yoe / 4);
            assert(yoe <= doe);
            assert(365 * yoe <= 365 * 146096) by (nonlinear_arith)
                requires
                    yoe <= 146096,
            ;
        }
        let doy: u64 = if doe >= days_part {
            doe - days_part
        } else {
            0
        };
        let mp: u64 = (5 * doy + 2) / 153;
        let md: u64 = (153 * mp + 2) / 5;
        proof {
            vstd::arithmetic::div_mod::lemma_div_nonincreasing((5 * doy + 2) as int, 153);
        }
        let d: u64 = if doy >= md {
            doy - md + 1
        } else {
            1
        };
        let m: u64 = if mp < 10 {
            mp + 3
        } else {
            mp - 9
        };
        let year_era: u64 = if m <= 2 {
            y + 1
        } else {
            y
        };
        let hour: u64 = tod / 3600;
        let minute: u64 = (tod % 3600) / 60;
        let second: u64 = tod % 60;
        proof {
            assert(tod < 86400);
            vstd::arithmetic::div_mod::lemma_div_is_ordered(tod as int, 86399, 3600);
            assert(86399int / 3600 == 23);
            assert(hour <= 23);
            vstd::arithmetic::div_mod::lemma_div_is_ordered(tod as int % 3600, 3599, 60);
            assert(3599int / 60 == 59);
            assert(minute <= 59);
            assert(second <= 59);
        }
        if year_era < 400 || year_era > 10399 || m < 1 || m > 12 || d < 1 || d > 31 {
            proof {
                assert(from_epoch_spec(e as int) is None);
            }
            return None;
        }
        let r = UtcDateTime::from_ymd_hms(
            (year_era - 400) as u16,
            m as u8,
            d as u8,
            hour as u8,
            minute as u8,
            second as u8,
        );
        proof {
            assert(r == from_epoch_spec(e as int));
        }
        r
    }
}

/// Bounds on `days_from_civil` over all well-formed dates: 0000-01-01 maps to
/// day -719528 and 9999-12-31 to day 2932896.
pub proof fn lemma_days_from_civil_bounds(year: int, month: int, day: int)
    requires
        0 <= year <= 9999,
        1 <= month <= 12,
        1 <= day <= days_in_month(year, month),
    ensures
        -719528 <= days_from_civil(year, month, day) <= 2932896,
{
    let y = if month <= 2 {
        year + 399
    } else {
        year + 400
    };
    let era = y / 400;
    let yoe = y - era * 400;
    let mp = if month > 2 {
        month - 3
    } else {
        month + 9
    };
    let doy = (153 * mp + 2) / 5 + day - 1;
    let doe = yoe * 365 + yoe / 4 - yoe / 100 + doy;
    vstd::arithmetic::div_mod::lemma_fundamental_div_mod(y, 400);
    broadcast use vstd::arithmetic::div_mod::lemma_mod_division_less_than_divisor;

    assert(y == 400 * era + y % 400);
    assert(yoe == y % 400);
    assert(0 <= yoe < 400);
    assert(0 <= era <= 25);
    assert(day <= 31);
    assert(0 <= mp <= 11);
    assert((153 * mp + 2) / 5 <= 337);
    assert(yoe * 365 <= 399 * 365) by (nonlinear_arith)
        requires
            0 <= yoe < 400,
    ;
    assert(yoe / 4 <= 99);
    assert(yoe / 100 >= 0);
    // upper bound
    if era == 25 {
        assert(y >= 10000);
        if yoe == 399 {
            // year 9999, a month past February: at most 305 days into the era year
            assert(y == 10399);
            assert(month > 2);
            assert(mp <= 9);
            assert((153 * mp + 2) / 5 <= 275);
            assert(doy <= 305);
            assert(doe <= 146036);
        } else {
            assert(yoe <= 398);
            assert(yoe * 365 <= 398 * 365) by (nonlinear_arith)
                requires
                    yoe <= 398,
                    yoe >= 0,
            ;
            assert(doy <= 367);
            assert(doe <= 398 * 365 + 99 + 367);
        }
        assert(era * 146097 + doe - 865565 <= 2932896);
    } else {
        assert(era <= 24);
        assert(doy <= 367);
        assert(doe <= 399 * 365 + 99 + 367);
        assert(era * 146097 <= 24 * 146097) by (nonlinear_arith)
            requires
                0 <= era <= 24,
        ;
        assert(era * 146097 + doe - 865565 <= 2932896);
    }
    // lower bound
    assert(doy >= 0);
    assert(yoe * 365 >= 0) by (nonlinear_arith)
        requires
            yoe >= 0,
    ;
    assert(yoe / 100 <= yoe / 4) by {
        vstd::arithmetic::div_mod::lemma_div_is_ordered_by_denominator(yoe, 4, 100);
    }
    assert(doe >= 0);
    if era == 0 {
        assert(y <= 399);
        assert(month <= 2);
        assert(year == 0);
        assert(y == 399);
        assert(yoe == 399);
        assert(mp == month + 9);
        assert((153 * mp + 2) / 5 >= 306);
        assert(doy >= 306);
        assert(doe >= 399 * 365 + 99 - 3 + 306);
        assert(era * 146097 + doe - 865565 >= -719528);
    } else {
        assert(era >= 1);
        assert(era * 146097 >= 146097) by (nonlinear_arith)
            requires
                era >= 1,
        ;
        assert(era * 146097 + doe - 865565 >= -719528);
    }
}

} // verus!
