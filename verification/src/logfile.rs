//! The log file: whether there is one, and what its first lines say.
//!
//! Times are written as calendar dates, so this file also holds the calendar.
use vstd::prelude::*;
use vstd::string::*;
use crate::text::{all_digits, decimal, decimal_text, digit, is_digit};

verus! {

// ---------------------------------------------------------------------------------------------
// The calendar
// ---------------------------------------------------------------------------------------------

pub open spec fn is_leap_year(y: int) -> bool {
    y % 4 == 0 && (y % 100 != 0 || y % 400 == 0)
}

pub open spec fn year_length(y: int) -> int {
    if is_leap_year(y) {
        366
    } else {
        365
    }
}

pub open spec fn month_length(y: int, m: int) -> int {
    if m == 2 {
        if is_leap_year(y) {
            29
        } else {
            28
        }
    } else if m == 4 || m == 6 || m == 9 || m == 11 {
        30
    } else {
        31
    }
}

/// Days from the start of 1970 to the start of a year.
pub open spec fn year_start(y: int) -> int
    decreases
            (if y >= 1970 {
                y - 1970
            } else {
                1970 - y
            }),
{
    if y == 1970 {
        0
    } else if y > 1970 {
        year_start(y - 1) + year_length(y - 1)
    } else {
        year_start(y + 1) - year_length(y)
    }
}

/// Days from the start of a year to the start of one of its months.
pub open spec fn month_start(y: int, m: int) -> int
    decreases m,
{
    if m <= 1 {
        0
    } else {
        month_start(y, m - 1) + month_length(y, m - 1)
    }
}

pub open spec fn is_date(y: int, m: int, d: int) -> bool {
    1 <= m <= 12 && 1 <= d <= month_length(y, m)
}

/// Days from the first day of 1970 to a date.
pub open spec fn day_number(y: int, m: int, d: int) -> int {
    year_start(y) + month_start(y, m) + d - 1
}

/// Days from the start of year zero to the start of a year, without recursion.
spec fn counted_days(y: int) -> int {
    365 * y + (y + 3) / 4 - (y + 99) / 100 + (y + 399) / 400
}

proof fn lemma_one_year(y: int)
    ensures
        counted_days(y + 1) == counted_days(y) + year_length(y),
{
}

proof fn lemma_year_start(y: int)
    ensures
        year_start(y) == counted_days(y) - 719528,
    decreases
            (if y >= 1970 {
                y - 1970
            } else {
                1970 - y
            }),
{
    if y > 1970 {
        lemma_year_start(y - 1);
        lemma_one_year(y - 1);
    } else if y < 1970 {
        lemma_year_start(y + 1);
        lemma_one_year(y);
    }
}

proof fn lemma_month_starts(y: int)
    ensures
        ({
            let leap: int = if is_leap_year(y) {
                1
            } else {
                0
            };
            &&& month_start(y, 1) == 0
            &&& month_start(y, 2) == 31
            &&& month_start(y, 3) == 59 + leap
            &&& month_start(y, 4) == 90 + leap
            &&& month_start(y, 5) == 120 + leap
            &&& month_start(y, 6) == 151 + leap
            &&& month_start(y, 7) == 181 + leap
            &&& month_start(y, 8) == 212 + leap
            &&& month_start(y, 9) == 243 + leap
            &&& month_start(y, 10) == 273 + leap
            &&& month_start(y, 11) == 304 + leap
            &&& month_start(y, 12) == 334 + leap
        }),
{
    reveal_with_fuel(month_start, 13);
}

/// Four hundred years have the same number of days wherever they start.
proof fn lemma_era(e: int, k: int)
    requires
        0 <= k <= 400,
    ensures
        counted_days(400 * e + k) == 146097 * e + counted_days(k),
{
    assert((400 * e + k + 3) / 4 == 100 * e + (k + 3) / 4);
    assert((400 * e + k + 99) / 100 == 4 * e + (k + 99) / 100);
    assert((400 * e + k + 399) / 400 == e + (k + 399) / 400);
}

/// A day of an era that begins with March, as the year of the era and the day of that year.
///
/// With the leap day last, a century is 36524 days and one more at the end of the era, four years
/// are 1461 days, and a year is 365 days and one more at the end of four.
fn year_of_era(doe: i64) -> (r: (i64, i64))
    requires
        0 <= doe < 146_097,
    ensures
        0 <= r.0 < 400,
        0 <= r.1 <= 365,
        doe == 365 * r.0 + r.0 / 4 - r.0 / 100 + r.1,
        r.1 == 365 ==> is_leap_year(r.0 + 1),
{
    let century: i64 = if doe >= 109_572 {
        3
    } else {
        doe / 36_524
    };
    let in_century: i64 = doe - century * 36_524;
    let four: i64 = in_century / 1_461;
    let in_four: i64 = in_century - four * 1_461;
    let year: i64 = if in_four >= 1_095 {
        3
    } else {
        in_four / 365
    };
    let yoe: i64 = century * 100 + four * 4 + year;
    let doy: i64 = in_four - year * 365;
    assert(0 <= four <= 24);
    assert(0 <= century <= 3);
    assert(yoe / 4 == century * 25 + four);
    assert(yoe / 100 == century);
    proof {
        if doy == 365 {
            assert(year == 3);
            assert((yoe + 1) % 4 == 0);
            if (yoe + 1) % 100 == 0 {
                assert(four == 24);
                assert(century == 3);
            }
        }
    }
    (yoe, doy)
}

/// Which month of a year that begins with March a day lies in, and which day of it.
proof fn lemma_march_month(doy: int)
    requires
        0 <= doy <= 365,
    ensures
        ({
            let mp = (5 * doy + 2) / 153;
            let d = doy - (153 * mp + 2) / 5 + 1;
            &&& 0 <= mp <= 11
            &&& 1 <= d <= 31
            &&& mp == 0 ==> doy == d - 1
            &&& mp == 1 ==> doy == 31 + d - 1 && d <= 30
            &&& mp == 2 ==> doy == 61 + d - 1
            &&& mp == 3 ==> doy == 92 + d - 1 && d <= 30
            &&& mp == 4 ==> doy == 122 + d - 1
            &&& mp == 5 ==> doy == 153 + d - 1
            &&& mp == 6 ==> doy == 184 + d - 1 && d <= 30
            &&& mp == 7 ==> doy == 214 + d - 1
            &&& mp == 8 ==> doy == 245 + d - 1 && d <= 30
            &&& mp == 9 ==> doy == 275 + d - 1
            &&& mp == 10 ==> doy == 306 + d - 1
            &&& mp == 11 ==> doy == 337 + d - 1 && d <= 29
        }),
{
}

/// The days before a year that begins with March, against the days before the calendar year.
proof fn lemma_march_year(k: int)
    requires
        0 <= k < 400,
    ensures
        counted_days(k + 1) == 365 * k + k / 4 - k / 100 + 366,
        counted_days(k) + (if is_leap_year(k) {
            1int
        } else {
            0int
        }) == 365 * k + k / 4 - k / 100 + 1,
{
}

proof fn lemma_leap_era(e: int, k: int)
    ensures
        is_leap_year(400 * e + k) == is_leap_year(k),
{
}

proof fn lemma_march_date(era: int, k: int, doy: int)
    requires
        0 <= k < 400,
        0 <= doy <= 365,
        doy == 365 ==> is_leap_year(k + 1),
    ensures
        ({
            let mp = (5 * doy + 2) / 153;
            let d = doy - (153 * mp + 2) / 5 + 1;
            let m = if mp < 10 {
                mp + 3
            } else {
                mp - 9
            };
            let y = 400 * era + k + (if mp < 10 {
                0int
            } else {
                1int
            });
            &&& 0 <= mp <= 11
            &&& is_date(y, m, d)
            &&& day_number(y, m, d) == 146097 * era + 365 * k + k / 4 - k / 100 + doy - 719468
        }),
{
    let mp = (5 * doy + 2) / 153;
    lemma_march_month(doy);
    lemma_march_year(k);
    if mp < 10 {
        let y = 400 * era + k;
        lemma_year_start(y);
        lemma_month_starts(y);
        lemma_era(era, k);
        lemma_leap_era(era, k);
    } else {
        let y = 400 * era + k + 1;
        lemma_year_start(y);
        lemma_month_starts(y);
        lemma_era(era, k + 1);
        lemma_leap_era(era, k + 1);
    }
}

/// The date of a day, counted from the first day of 1970.
pub fn civil_from_days(days: i64) -> (r: (i64, u8, u8))
    requires
        -200_000_000_000_000 <= days <= 200_000_000_000_000,
    ensures
        is_date(r.0 as int, r.1 as int, r.2 as int),
        day_number(r.0 as int, r.1 as int, r.2 as int) == days,
        -600_000_000_000 <= r.0 <= 600_000_000_000,
{
    let z: i64 = days + 719_468;
    let era: i64 = if z >= 0 {
        z / 146_097
    } else {
        -1 - (-(z + 1)) / 146_097
    };
    let doe: i64 = z - era * 146_097;
    assert(0 <= doe < 146_097);
    let (yoe, doy) = year_of_era(doe);
    let mp: i64 = (5 * doy + 2) / 153;
    let d: i64 = doy - (153 * mp + 2) / 5 + 1;
    let m: i64 = if mp < 10 {
        mp + 3
    } else {
        mp - 9
    };
    let march_year: i64 = yoe + era * 400;
    let y: i64 = if m <= 2 {
        march_year + 1
    } else {
        march_year
    };
    proof {
        lemma_march_date(era as int, yoe as int, doy as int);
    }
    (y, m as u8, d as u8)
}

/// A number with zeros in front of it, up to a width.
pub open spec fn zero_padded(n: nat, width: nat) -> Seq<char> {
    let digits = decimal(n);
    Seq::new(
        if digits.len() < width {
            (width - digits.len()) as nat
        } else {
            0
        },
        |i: int| '0',
    ) + digits
}

/// A year with at least four characters.
pub open spec fn year_text(y: int) -> Seq<char> {
    if y < 0 {
        "-"@ + zero_padded((-y) as nat, 3)
    } else {
        zero_padded(y as nat, 4)
    }
}

fn push_padded(out: &mut String, n: u64, width: usize)
    ensures
        final(out)@ == old(out)@ + zero_padded(n as nat, width as nat),
{
    let digits: String = decimal_text(n);
    let len: usize = digits.as_str().unicode_len();
    let ghost start = out@;
    let mut have: usize = len;
    while have < width
        invariant
            len <= have,
            have <= width || have == len,
            len == decimal(n as nat).len(),
            out@ == start + Seq::new((have - len) as nat, |i: int| '0'),
        decreases width - have,
    {
        out.push('0');
        assert(Seq::new((have + 1 - len) as nat, |i: int| '0') =~= Seq::new(
            (have - len) as nat,
            |i: int| '0',
        ).push('0'));
        have = have + 1;
    }
    out.append(digits.as_str());
    assert(out@ =~= start + zero_padded(n as nat, width as nat));
}

/// A date and a time of day, `YYYY-MM-DD hh:mm:ss UTC`.
pub open spec fn utc_text(y: int, m: int, d: int, second: int) -> Seq<char> {
    year_text(y) + "-"@ + zero_padded(m as nat, 2) + "-"@ + zero_padded(d as nat, 2) + " "@
        + zero_padded((second / 3600) as nat, 2) + ":"@ + zero_padded(
        (second / 60 % 60) as nat,
        2,
    ) + ":"@ + zero_padded((second % 60) as nat, 2) + " UTC"@
}

/// Whether a text is the date and the time of day of a point in time, in epoch seconds.
pub open spec fn is_stamp(text: Seq<char>, secs: int) -> bool {
    exists|y: int, m: int, d: int|
        {
            &&& is_date(y, m, d)
            &&& #[trigger] day_number(y, m, d) == secs / 86_400
            &&& text == utc_text(y, m, d, secs % 86_400)
        }
}

/// Epoch seconds as `YYYY-MM-DD hh:mm:ss UTC`.
pub fn format_utc(secs: i64) -> (r: String)
    ensures
        is_stamp(r@, secs as int),
{
    let days: i64 = if secs >= 0 {
        secs / 86_400
    } else {
        -1 - (-(secs + 1)) / 86_400
    };
    assert(days == secs as int / 86_400);
    let second: i64 = if secs >= 0 {
        secs % 86_400
    } else {
        86_399 - (-(secs + 1)) % 86_400
    };
    assert(second == secs as int % 86_400);
    let (y, m, d) = civil_from_days(days);
    let mut r = String::new();
    if y < 0 {
        r.append("-");
        push_padded(&mut r, (-y) as u64, 3);
    } else {
        push_padded(&mut r, y as u64, 4);
    }
    r.append("-");
    push_padded(&mut r, m as u64, 2);
    r.append("-");
    push_padded(&mut r, d as u64, 2);
    r.append(" ");
    push_padded(&mut r, second as u64 / 3_600, 2);
    r.append(":");
    push_padded(&mut r, second as u64 / 60 % 60, 2);
    r.append(":");
    push_padded(&mut r, second as u64 % 60, 2);
    r.append(" UTC");
    assert(r@ =~= utc_text(y as int, m as int, d as int, second as int));
    assert(day_number(y as int, m as int, d as int) == secs as int / 86_400);
    r
}

// ---------------------------------------------------------------------------------------------
// The file
// ---------------------------------------------------------------------------------------------

/// The log of one run: where it is, and whether anything can be written to it.
///
/// A line that has nowhere to go must not be written at all, so every writer asks first.
#[derive(Debug)]
pub struct LogFile {
    path: String,
    enabled: bool,
}

impl LogFile {
    pub closed spec fn spec_path(self) -> Seq<char> {
        self.path@
    }

    pub closed spec fn writes(self) -> bool {
        self.enabled
    }

    /// The log after the attempt to open it. Who wants to keep the console gets one only where there
    /// is one; everybody else gets the file, or the console where the file could not be had.
    pub fn opened(path: String, keep_console: bool, has_console: bool, redirected: bool) -> (r: Self)
        ensures
            r.spec_path() == path@,
            r.writes() == (if keep_console {
                has_console
            } else {
                redirected || has_console
            }),
    {
        LogFile {
            path,
            enabled: if keep_console {
                has_console
            } else {
                redirected || has_console
            },
        }
    }

    /// Whether diagnostics are being written at all.
    pub fn enabled(&self) -> (r: bool)
        ensures
            r == self.writes(),
    {
        self.enabled
    }

    /// Path of the log file. Set even when writing to it failed, so a message can name it.
    pub fn path(&self) -> (r: &str)
        ensures
            r@ == self.spec_path(),
    {
        self.path.as_str()
    }

    /// The first line of a run that started at `secs`.
    pub fn first_line(&self, version: &str, secs: i64) -> (r: String)
        ensures
            exists|y: int, m: int, d: int|
                {
                    &&& is_date(y, m, d)
                    &&& #[trigger] day_number(y, m, d) == secs as int / 86_400
                    &&& r@ == "Henrys Looper "@ + version@ + " gestartet, "@ + utc_text(
                        y,
                        m,
                        d,
                        secs as int % 86_400,
                    )
                },
    {
        let when: String = format_utc(secs);
        let mut r = String::new();
        r.append("Henrys Looper ");
        r.append(version);
        r.append(" gestartet, ");
        r.append(when.as_str());
        assert(r@ =~= "Henrys Looper "@ + version@ + " gestartet, "@ + when@);
        r
    }

    /// The second line, which names the file.
    pub fn second_line(&self) -> (r: String)
        ensures
            r@ == "Logdatei: "@ + self.spec_path(),
    {
        let mut r = String::new();
        r.append("Logdatei: ");
        r.append(self.path.as_str());
        assert(r@ =~= "Logdatei: "@ + self.spec_path());
        r
    }
}

// ---------------------------------------------------------------------------------------------
// Laws
// ---------------------------------------------------------------------------------------------

proof fn lemma_year_starts_grow(a: int, b: int)
    requires
        a < b,
    ensures
        year_start(a) + year_length(a) <= year_start(b),
    decreases b - a,
{
    lemma_year_start(a);
    lemma_year_start(b);
    lemma_one_year(a);
    if a + 1 < b {
        lemma_year_starts_grow(a + 1, b);
        lemma_year_start(a + 1);
    }
}

/// A date lies inside its year.
proof fn lemma_date_in_year(y: int, m: int, d: int)
    requires
        is_date(y, m, d),
    ensures
        0 <= month_start(y, m) + d - 1 < year_length(y),
{
    lemma_month_starts(y);
    assert(m == 1 || m == 2 || m == 3 || m == 4 || m == 5 || m == 6 || m == 7 || m == 8 || m == 9
        || m == 10 || m == 11 || m == 12);
}

proof fn lemma_months_grow(y: int, a: int, b: int)
    requires
        1 <= a < b <= 12,
    ensures
        month_start(y, a) + month_length(y, a) <= month_start(y, b),
    decreases b - a,
{
    if a + 1 < b {
        lemma_months_grow(y, a, b - 1);
    }
}

/// The last second of the year 9999, in epoch seconds.
pub const LAST_STAMP: i64 = 253_402_300_799;

/// Whether one text sorts before another of the same length.
pub open spec fn sorts_before(a: Seq<char>, b: Seq<char>) -> bool {
    exists|k: int| #[trigger] differs_first(a, b, k) && a[k] < b[k]
}

/// Whether two texts agree up to a place and not there.
pub open spec fn differs_first(a: Seq<char>, b: Seq<char>, k: int) -> bool {
    &&& 0 <= k < a.len()
    &&& a.len() == b.len()
    &&& a.subrange(0, k) == b.subrange(0, k)
    &&& a[k] != b[k]
}

/// One of the digits of a number, counted from the right.
#[verifier::opaque]
spec fn place(n: int, p: int) -> char {
    digit(((n / p) % 10) as nat)
}

/// The twenty-three characters of a stamp.
spec fn stamp(y: int, m: int, d: int, second: int) -> Seq<char> {
    let (hours, minutes, rest) = (second / 3600, second / 60 % 60, second % 60);
    seq![
        place(y, 1000),
        place(y, 100),
        place(y, 10),
        place(y, 1),
        '-',
        place(m, 10),
        place(m, 1),
        '-',
        place(d, 10),
        place(d, 1),
        ' ',
        place(hours, 10),
        place(hours, 1),
        ':',
        place(minutes, 10),
        place(minutes, 1),
        ':',
        place(rest, 10),
        place(rest, 1),
        ' ',
        'U',
        'T',
        'C',
    ]
}

proof fn lemma_two_digits(n: int)
    requires
        0 <= n < 100,
    ensures
        zero_padded(n as nat, 2) =~= seq![place(n, 10), place(n, 1)],
{
    reveal(place);
    reveal_with_fuel(decimal, 3);
}

proof fn lemma_four_digits(n: int)
    requires
        0 <= n < 10_000,
    ensures
        zero_padded(n as nat, 4) =~= seq![
            place(n, 1000),
            place(n, 100),
            place(n, 10),
            place(n, 1),
        ],
{
    reveal(place);
    reveal_with_fuel(decimal, 5);
}

proof fn lemma_a_place_is_a_digit(n: int, p: int)
    requires
        p > 0,
    ensures
        is_digit(place(n, p)),
{
    reveal(place);
}

/// The larger of two numbers of two digits has the larger digit where they first differ.
proof fn lemma_two_places(a: int, b: int)
    requires
        0 <= a < b < 100,
    ensures
        place(a, 10) < place(b, 10) || (place(a, 10) == place(b, 10) && place(a, 1) < place(b, 1)),
{
    reveal(place);
}

/// The digits of a number of four digits are those of its hundreds and of the rest.
proof fn lemma_halves(n: int)
    requires
        0 <= n < 10_000,
    ensures
        place(n, 1000) == place(n / 100, 10),
        place(n, 100) == place(n / 100, 1),
        place(n, 10) == place(n % 100, 10),
        place(n, 1) == place(n % 100, 1),
{
    let (hundreds, rest) = (n / 100, n % 100);
    assert(n / 1000 == hundreds / 10);
    assert(n / 10 == 10 * hundreds + rest / 10);
    assert((10 * hundreds + rest / 10) % 10 == (rest / 10) % 10);
    assert(n % 10 == rest % 10);
    assert(n / 1 == n && hundreds / 1 == hundreds && rest / 1 == rest);
    reveal(place);
}

/// The larger of two numbers of four digits has the larger digit where they first differ.
proof fn lemma_four_places(a: int, b: int)
    requires
        0 <= a < b < 10_000,
    ensures
        ({
            ||| place(a, 1000) < place(b, 1000)
            ||| place(a, 1000) == place(b, 1000) && place(a, 100) < place(b, 100)
            ||| place(a, 1000) == place(b, 1000) && place(a, 100) == place(b, 100) && place(a, 10)
                < place(b, 10)
            ||| place(a, 1000) == place(b, 1000) && place(a, 100) == place(b, 100) && place(a, 10)
                == place(b, 10) && place(a, 1) < place(b, 1)
        }),
{
    lemma_halves(a);
    lemma_halves(b);
    if a / 100 < b / 100 {
        lemma_two_places(a / 100, b / 100);
    } else {
        lemma_two_places(a % 100, b % 100);
    }
}

proof fn lemma_stamp(y: int, m: int, d: int, second: int)
    requires
        0 <= y < 10_000,
        is_date(y, m, d),
        0 <= second < 86_400,
    ensures
        utc_text(y, m, d, second) =~= stamp(y, m, d, second),
{
    lemma_four_digits(y);
    lemma_two_digits(m);
    lemma_two_digits(d);
    lemma_two_digits(second / 3600);
    lemma_two_digits(second / 60 % 60);
    lemma_two_digits(second % 60);
    reveal_strlit("-");
    reveal_strlit(" ");
    reveal_strlit(":");
    reveal_strlit(" UTC");
}

proof fn lemma_year_range(y: int, m: int, d: int)
    requires
        is_date(y, m, d),
        0 <= day_number(y, m, d) <= LAST_STAMP as int / 86_400,
    ensures
        1970 <= y < 10_000,
{
    lemma_date_in_year(y, m, d);
    lemma_year_start(1970);
    lemma_year_start(10_000);
    if y < 1970 {
        lemma_year_starts_grow(y, 1970);
    }
    if y > 10_000 {
        lemma_year_starts_grow(10_000, y);
        lemma_one_year(10_000);
    }
}

/// An earlier day has an earlier year, or an earlier month of it, or an earlier day of that.
proof fn lemma_dates_follow_days(y: int, m: int, d: int, y2: int, m2: int, d2: int)
    requires
        is_date(y, m, d),
        is_date(y2, m2, d2),
        day_number(y, m, d) < day_number(y2, m2, d2),
    ensures
        y < y2 || (y == y2 && m < m2) || (y == y2 && m == m2 && d < d2),
{
    lemma_date_in_year(y, m, d);
    lemma_date_in_year(y2, m2, d2);
    if y2 < y {
        lemma_year_starts_grow(y2, y);
    } else if y == y2 && m2 < m {
        lemma_months_grow(y, m2, m);
    }
}

proof fn lemma_first_difference(a: Seq<char>, b: Seq<char>, k: int)
    requires
        a.len() == b.len(),
        0 <= k < a.len(),
        forall|i: int| 0 <= i < k ==> a[i] == b[i],
        a[k] < b[k],
    ensures
        sorts_before(a, b),
{
    assert(a.subrange(0, k) =~= b.subrange(0, k));
    assert(differs_first(a, b, k));
}

proof fn lemma_stamps_are_ordered(
    y: int,
    m: int,
    d: int,
    second: int,
    y2: int,
    m2: int,
    d2: int,
    second2: int,
)
    requires
        0 <= y < 10_000,
        0 <= y2 < 10_000,
        is_date(y, m, d),
        is_date(y2, m2, d2),
        0 <= second < 86_400,
        0 <= second2 < 86_400,
        y < y2 || (y == y2 && m < m2) || (y == y2 && m == m2 && d < d2) || (y == y2 && m == m2 && d
            == d2 && second < second2),
    ensures
        sorts_before(stamp(y, m, d, second), stamp(y2, m2, d2, second2)),
{
    let a = stamp(y, m, d, second);
    let b = stamp(y2, m2, d2, second2);
    let (h, h2) = (second / 3600, second2 / 3600);
    let (n, n2) = (second / 60 % 60, second2 / 60 % 60);
    let (s, s2) = (second % 60, second2 % 60);
    if y != y2 {
        lemma_four_places(y, y2);
        if place(y, 1000) < place(y2, 1000) {
            lemma_first_difference(a, b, 0);
        } else if place(y, 100) < place(y2, 100) {
            lemma_first_difference(a, b, 1);
        } else if place(y, 10) < place(y2, 10) {
            lemma_first_difference(a, b, 2);
        } else {
            lemma_first_difference(a, b, 3);
        }
    } else if m != m2 {
        lemma_two_places(m, m2);
        lemma_first_difference(
            a,
            b,
            if place(m, 10) < place(m2, 10) {
                5
            } else {
                6
            },
        );
    } else if d != d2 {
        lemma_two_places(d, d2);
        lemma_first_difference(
            a,
            b,
            if place(d, 10) < place(d2, 10) {
                8
            } else {
                9
            },
        );
    } else if h != h2 {
        lemma_two_places(h, h2);
        lemma_first_difference(
            a,
            b,
            if place(h, 10) < place(h2, 10) {
                11
            } else {
                12
            },
        );
    } else if n != n2 {
        lemma_two_places(n, n2);
        lemma_first_difference(
            a,
            b,
            if place(n, 10) < place(n2, 10) {
                14
            } else {
                15
            },
        );
    } else {
        lemma_two_places(s, s2);
        lemma_first_difference(
            a,
            b,
            if place(s, 10) < place(s2, 10) {
                17
            } else {
                18
            },
        );
    }
}

/// Whether a text looks like `YYYY-MM-DD hh:mm:ss UTC`.
pub open spec fn has_stamp_shape(text: Seq<char>) -> bool {
    &&& text.len() == 23
    &&& all_digits(text.subrange(0, 4))
    &&& text[4] == '-'
    &&& all_digits(text.subrange(5, 7))
    &&& text[7] == '-'
    &&& all_digits(text.subrange(8, 10))
    &&& text[10] == ' '
    &&& all_digits(text.subrange(11, 13))
    &&& text[13] == ':'
    &&& all_digits(text.subrange(14, 16))
    &&& text[16] == ':'
    &&& all_digits(text.subrange(17, 19))
    &&& text.subrange(19, 23) == " UTC"@
}

proof fn lemma_two_digits_at(text: Seq<char>, at: int, n: int)
    requires
        0 <= at,
        at + 2 <= text.len(),
        text[at] == place(n, 10),
        text[at + 1] == place(n, 1),
    ensures
        all_digits(text.subrange(at, at + 2)),
{
    lemma_a_place_is_a_digit(n, 10);
    lemma_a_place_is_a_digit(n, 1);
}

proof fn lemma_stamp_shape(y: int, m: int, d: int, second: int)
    ensures
        has_stamp_shape(stamp(y, m, d, second)),
{
    let text = stamp(y, m, d, second);
    lemma_a_place_is_a_digit(y, 1000);
    lemma_a_place_is_a_digit(y, 100);
    lemma_a_place_is_a_digit(y, 10);
    lemma_a_place_is_a_digit(y, 1);
    assert(text.subrange(0, 4) =~= seq![
        place(y, 1000),
        place(y, 100),
        place(y, 10),
        place(y, 1),
    ]);
    lemma_two_digits_at(text, 5, m);
    lemma_two_digits_at(text, 8, d);
    lemma_two_digits_at(text, 11, second / 3600);
    lemma_two_digits_at(text, 14, second / 60 % 60);
    lemma_two_digits_at(text, 17, second % 60);
    reveal_strlit(" UTC");
    assert(text.subrange(19, 23) =~= " UTC"@);
}

/// From 1970 to the end of the year 9999 a stamp has twenty-three characters, digits with the marks
/// of `YYYY-MM-DD hh:mm:ss UTC` between them.
pub proof fn a_stamp_has_a_fixed_shape(text: Seq<char>, secs: int)
    requires
        0 <= secs <= LAST_STAMP,
        is_stamp(text, secs),
    ensures
        has_stamp_shape(text),
{
    let (y, m, d) = choose|y: int, m: int, d: int|
        {
            &&& is_date(y, m, d)
            &&& #[trigger] day_number(y, m, d) == secs / 86_400
            &&& text == utc_text(y, m, d, secs % 86_400)
        };
    lemma_year_range(y, m, d);
    lemma_stamp(y, m, d, secs % 86_400);
    lemma_stamp_shape(y, m, d, secs % 86_400);
}

/// A later point in time has a stamp that sorts later, so the lines of a log are in order as text.
pub proof fn a_later_stamp_sorts_later(a: Seq<char>, first: int, b: Seq<char>, second: int)
    requires
        0 <= first < second <= LAST_STAMP,
        is_stamp(a, first),
        is_stamp(b, second),
    ensures
        sorts_before(a, b),
{
    let (y, m, d) = choose|y: int, m: int, d: int|
        {
            &&& is_date(y, m, d)
            &&& #[trigger] day_number(y, m, d) == first / 86_400
            &&& a == utc_text(y, m, d, first % 86_400)
        };
    let (y2, m2, d2) = choose|y: int, m: int, d: int|
        {
            &&& is_date(y, m, d)
            &&& #[trigger] day_number(y, m, d) == second / 86_400
            &&& b == utc_text(y, m, d, second % 86_400)
        };
    lemma_year_range(y, m, d);
    lemma_year_range(y2, m2, d2);
    lemma_stamp(y, m, d, first % 86_400);
    lemma_stamp(y2, m2, d2, second % 86_400);
    if first / 86_400 < second / 86_400 {
        lemma_dates_follow_days(y, m, d, y2, m2, d2);
    } else {
        a_day_has_one_date(y, m, d, y2, m2, d2);
    }
    lemma_stamps_are_ordered(y, m, d, first % 86_400, y2, m2, d2, second % 86_400);
}

/// Every day has one date: two dates with the same day number are the same date.
pub proof fn a_day_has_one_date(y: int, m: int, d: int, y2: int, m2: int, d2: int)
    requires
        is_date(y, m, d),
        is_date(y2, m2, d2),
        day_number(y, m, d) == day_number(y2, m2, d2),
    ensures
        y == y2,
        m == m2,
        d == d2,
{
    lemma_date_in_year(y, m, d);
    lemma_date_in_year(y2, m2, d2);
    if y < y2 {
        lemma_year_starts_grow(y, y2);
    } else if y2 < y {
        lemma_year_starts_grow(y2, y);
    } else if m < m2 {
        lemma_months_grow(y, m, m2);
    } else if m2 < m {
        lemma_months_grow(y, m2, m);
    }
}

} // verus!
