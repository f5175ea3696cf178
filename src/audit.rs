//! Audit records: one per tool invocation, stamped with UTC time. Writing
//! them out is left to the host; the records never carry captured text.

use vstd::prelude::*;
use vstd::string::*;
use crate::text::{decimal, push_padded, zero_pad};

verus! {

/// Whether `year` is a Gregorian leap year.
pub open spec fn is_leap(year: int) -> bool {
    (year % 4 == 0 && year % 100 != 0) || year % 400 == 0
}

/// Days in `year`.
pub open spec fn days_in_year(year: int) -> int {
    if is_leap(year) {
        366
    } else {
        365
    }
}

/// Days in month `m` (1 to 12).
pub open spec fn days_in_month(leap: bool, m: int) -> int {
    if m == 2 {
        if leap {
            29
        } else {
            28
        }
    } else if m == 4 || m == 6 || m == 9 || m == 11 {
        30
    } else {
        31
    }
}

/// The year holding day `days` counted from the start of `year`, and the
/// day within it.
pub open spec fn year_and_day(days: int, year: int) -> (int, int)
    decreases days,
{
    if days < days_in_year(year) || days < 0 {
        (year, days)
    } else {
        year_and_day(days - days_in_year(year), year + 1)
    }
}

/// The month holding day `day` of a year counted from month `m`, and the
/// day within it.
pub open spec fn month_and_day(day: int, m: int, leap: bool) -> (int, int)
    decreases 13 - m,
{
    if m > 12 || day < days_in_month(leap, m) {
        (m, day)
    } else {
        month_and_day(day - days_in_month(leap, m), m + 1, leap)
    }
}

/// The UTC calendar parts (year, month, day, hour, minute, second) of a
/// count of seconds since 1970-01-01T00:00:00Z.
pub open spec fn calendar_parts(secs: nat) -> (int, int, int, int, int, int) {
    let days = secs / 86400;
    let day_secs = secs % 86400;
    let (year, yday) = year_and_day(days as int, 1970);
    let (month, mday) = month_and_day(yday, 1, is_leap(year));
    (year, month, mday + 1, (day_secs / 3600) as int, ((day_secs % 3600) / 60) as int, (day_secs % 60) as int)
}

/// The ISO 8601 text `YYYY-MM-DDTHH:MM:SSZ` of the calendar parts.
pub open spec fn timestamp_text(secs: nat) -> Seq<char> {
    let (y, mo, d, h, mi, s) = calendar_parts(secs);
    zero_pad(decimal(y as nat), 4) + "-"@ + zero_pad(decimal(mo as nat), 2) + "-"@ + zero_pad(decimal(d as nat), 2)
        + "T"@ + zero_pad(decimal(h as nat), 2) + ":"@ + zero_pad(decimal(mi as nat), 2) + ":"@ + zero_pad(
        decimal(s as nat),
        2,
    ) + "Z"@
}

/// The largest count of seconds whose day number fits in `i32`.
pub const MAX_TIMESTAMP_SECS: u64 = 185542587187199;

/// Relies on `SystemTime::now` and `duration_since(UNIX_EPOCH)`: whole
/// seconds since the epoch, zero for a clock set before it.
#[verifier::external_body]
fn unix_seconds_now() -> u64 {
    std::time::SystemTime::now().duration_since(std::time::UNIX_EPOCH).unwrap_or_default().as_secs()
}

/// Days from the start of month `m` to the end of the year.
pub open spec fn days_from_month(m: int, leap: bool) -> int
    decreases 13 - m,
{
    if m > 12 {
        0
    } else {
        days_in_month(leap, m) + days_from_month(m + 1, leap)
    }
}

proof fn lemma_days_from_january(leap: bool)
    ensures
        days_from_month(1, leap) == if leap { 366int } else { 365int },
{
    reveal_with_fuel(days_from_month, 13);
}

proof fn lemma_divides_negation(a: int, d: int)
    requires
        d > 0,
    ensures
        (a % d == 0) == ((-a) % d == 0),
{
    if a % d == 0 {
        let q = a / d;
        assert(a == d * q) by (nonlinear_arith)
            requires
                a % d == 0,
                q == a / d,
                d > 0,
        ;
        assert(-a == d * (-q)) by (nonlinear_arith)
            requires
                a == d * q,
        ;
        vstd::arithmetic::div_mod::lemma_mod_multiples_basic(-q, d);
        assert((d * (-q)) % d == ((-q) * d) % d) by (nonlinear_arith);
    } else if (-a) % d == 0 {
        let q = (-a) / d;
        assert(-a == d * q) by (nonlinear_arith)
            requires
                (-a) % d == 0,
                q == (-a) / d,
                d > 0,
        ;
        assert(a == d * (-q)) by (nonlinear_arith)
            requires
                -a == d * q,
        ;
        vstd::arithmetic::div_mod::lemma_mod_multiples_basic(-q, d);
        assert((d * (-q)) % d == ((-q) * d) % d) by (nonlinear_arith);
    }
}

proof fn lemma_leap_of_magnitude(year: int)
    ensures
        is_leap(year) == is_leap(if year < 0 { -year } else { year }),
{
    lemma_divides_negation(year, 4);
    lemma_divides_negation(year, 100);
    lemma_divides_negation(year, 400);
}

proof fn lemma_year_days_bounds(year: int)
    ensures
        365 <= days_in_year(year) <= 366,
{
}

/// The file name of the `counter`-th full capture, taken from pane
/// `pane_id`: `<pane>-capture-NNN.txt`, with at least three digits.
pub open spec fn capture_name(pane_id: Seq<char>, counter: nat) -> Seq<char> {
    pane_id + "-capture-"@ + zero_pad(decimal(counter), 3) + ".txt"@
}

/// The file name of the `counter`-th full capture of pane `pane_id`.
pub fn capture_file_name(pane_id: &str, counter: u64) -> (r: String)
    ensures
        r@ == capture_name(pane_id@, counter as nat),
{
    let mut name = pane_id.to_owned();
    name.append("-capture-");
    push_padded(&mut name, counter, 3);
    name.append(".txt");
    proof {
        assert(name@ =~= capture_name(pane_id@, counter as nat));
    }
    name
}

/// A single audit record.
#[derive(Debug, Clone)]
pub struct AuditEntry {
    /// ISO 8601 UTC timestamp.
    pub ts: String,
    /// Tool name, without the `tmux_` prefix.
    pub tool: String,
    pub pane_id: Option<String>,
    pub command: Option<String>,
    pub name: Option<String>,
    pub keys: Option<String>,
    pub lines: Option<i32>,
    /// Byte count of the captured output.
    pub output_bytes: Option<usize>,
}

/// The view of an optional string.
pub open spec fn opt_view(s: Option<String>) -> Option<Seq<char>> {
    match s {
        Some(x) => Some(x@),
        None => None,
    }
}

/// An optional owned copy of an optional string.
fn opt_owned(s: Option<&str>) -> (r: Option<String>)
    ensures
        opt_view(r) == match s {
            Some(x) => Some(x@),
            None => None::<Seq<char>>,
        },
{
    match s {
        Some(x) => Some(x.to_owned()),
        None => None,
    }
}

/// Whether `ts` is the timestamp of some instant.
pub open spec fn is_timestamp(ts: Seq<char>) -> bool {
    exists|secs: nat| secs <= MAX_TIMESTAMP_SECS && ts == timestamp_text(secs)
}

impl AuditEntry {
    fn stamped(tool: &str) -> (r: Self)
        ensures
            is_timestamp(r.ts@),
            r.tool@ == tool@,
            r.pane_id is None && r.command is None && r.name is None,
            r.keys is None && r.lines is None && r.output_bytes is None,
    {
        AuditEntry {
            ts: Self::timestamp(),
            tool: String::from_str(tool),
            pane_id: None,
            command: None,
            name: None,
            keys: None,
            lines: None,
            output_bytes: None,
        }
    }

    /// Record of a pane creation.
    pub fn create_pane(pane_id: &str, command: &str, name: Option<&str>) -> (r: Self)
        ensures
            is_timestamp(r.ts@),
            r.tool@ == "create_pane"@,
            opt_view(r.pane_id) == Some(pane_id@),
            opt_view(r.command) == Some(command@),
            opt_view(r.name) == match name {
                Some(n) => Some(n@),
                None => None::<Seq<char>>,
            },
            r.keys is None && r.lines is None && r.output_bytes is None,
    {
        let mut e = Self::stamped("create_pane");
        e.pane_id = Some(pane_id.to_owned());
        e.command = Some(command.to_owned());
        e.name = opt_owned(name);
        e
    }

    /// Record of keys sent to a pane.
    pub fn send_keys(pane_id: &str, keys: &str) -> (r: Self)
        ensures
            is_timestamp(r.ts@),
            r.tool@ == "send_keys"@,
            opt_view(r.pane_id) == Some(pane_id@),
            opt_view(r.keys) == Some(keys@),
            r.command is None && r.name is None && r.lines is None && r.output_bytes is None,
    {
        let mut e = Self::stamped("send_keys");
        e.pane_id = Some(pane_id.to_owned());
        e.keys = Some(keys.to_owned());
        e
    }

    /// Record of a capture: the line count asked for and the bytes returned.
    pub fn capture_pane(pane_id: &str, lines: i32, output_bytes: usize) -> (r: Self)
        ensures
            is_timestamp(r.ts@),
            r.tool@ == "capture_pane"@,
            opt_view(r.pane_id) == Some(pane_id@),
            r.lines == Some(lines),
            r.output_bytes == Some(output_bytes),
            r.command is None && r.name is None && r.keys is None,
    {
        let mut e = Self::stamped("capture_pane");
        e.pane_id = Some(pane_id.to_owned());
        e.lines = Some(lines);
        e.output_bytes = Some(output_bytes);
        e
    }

    /// Record of a pane being killed.
    pub fn kill_pane(pane_id: &str) -> (r: Self)
        ensures
            is_timestamp(r.ts@),
            r.tool@ == "kill_pane"@,
            opt_view(r.pane_id) == Some(pane_id@),
            r.command is None && r.name is None && r.keys is None,
            r.lines is None && r.output_bytes is None,
    {
        let mut e = Self::stamped("kill_pane");
        e.pane_id = Some(pane_id.to_owned());
        e
    }

    /// Record of a listing.
    pub fn list_panes() -> (r: Self)
        ensures
            is_timestamp(r.ts@),
            r.tool@ == "list_panes"@,
            r.pane_id is None && r.command is None && r.name is None,
            r.keys is None && r.lines is None && r.output_bytes is None,
    {
        Self::stamped("list_panes")
    }

    /// The current UTC time as `YYYY-MM-DDTHH:MM:SSZ`.
    fn timestamp() -> (r: String)
        ensures
            is_timestamp(r@),
    {
        let now = unix_seconds_now();
        let secs = if now > MAX_TIMESTAMP_SECS {
            MAX_TIMESTAMP_SECS
        } else {
            now
        };
        Self::format_timestamp(secs)
    }

    /// The timestamp text of `secs` seconds after the epoch.
    pub fn format_timestamp(secs: u64) -> (r: String)
        requires
            secs <= MAX_TIMESTAMP_SECS,
        ensures
            r@ == timestamp_text(secs as nat),
    {
        let (year, month, day, hour, min, sec) = Self::timestamp_parts(secs);
        proof {
            reveal_strlit("-");
            reveal_strlit("T");
            reveal_strlit(":");
            reveal_strlit("Z");
        }
        let mut s = String::new();
        push_padded(&mut s, year as u64, 4);
        s.append("-");
        push_padded(&mut s, month as u64, 2);
        s.append("-");
        push_padded(&mut s, day as u64, 2);
        s.append("T");
        push_padded(&mut s, hour as u64, 2);
        s.append(":");
        push_padded(&mut s, min as u64, 2);
        s.append(":");
        push_padded(&mut s, sec as u64, 2);
        s.append("Z");
        proof {
            assert(s@ =~= timestamp_text(secs as nat));
        }
        s
    }

    /// Splits seconds since the epoch into UTC (year, month, day, hour,
    /// minute, second).
    pub fn timestamp_parts(secs: u64) -> (r: (i32, u32, u32, u32, u32, u32))
        requires
            secs <= MAX_TIMESTAMP_SECS,
        ensures
            (r.0 as int, r.1 as int, r.2 as int, r.3 as int, r.4 as int, r.5 as int) == calendar_parts(
                secs as nat,
            ),
            r.0 >= 1970,
            1 <= r.1 <= 12,
            1 <= r.2 <= 31,
    {
        let days = (secs / 86400) as i32;
        let day_secs = (secs % 86400) as u32;
        let hour = day_secs / 3600;
        let min = (day_secs % 3600) / 60;
        let sec = day_secs % 60;

        let mut year: i32 = 1970;
        let mut remaining_days: i32 = days;
        loop
            invariant
                0 <= remaining_days <= days,
                days as int == secs as int / 86400,
                1970 <= year,
                365 * (year - 1970) <= days - remaining_days,
                year_and_day(days as int, 1970) == year_and_day(remaining_days as int, year as int),
            ensures
                1970 <= year,
                0 <= remaining_days < days_in_year(year as int),
                year_and_day(days as int, 1970) == (year as int, remaining_days as int),
            decreases remaining_days,
        {
            let days_in_year: i32 = if Self::is_leap_year(year) {
                366
            } else {
                365
            };
            if remaining_days < days_in_year {
                break;
            }
            remaining_days = remaining_days - days_in_year;
            year = year + 1;
        }
        let leap = Self::is_leap_year(year);
        proof {
            lemma_year_days_bounds(year as int);
            lemma_days_from_january(leap);
        }
        let mut month: u32 = 1;
        loop
            invariant
                1 <= month <= 12,
                leap == is_leap(year as int),
                0 <= remaining_days < days_from_month(month as int, leap),
                month_and_day(year_and_day(days as int, 1970).1, 1, leap) == month_and_day(
                    remaining_days as int,
                    month as int,
                    leap,
                ),
            ensures
                1 <= month <= 12,
                0 <= remaining_days < days_in_month(leap, month as int),
                month_and_day(year_and_day(days as int, 1970).1, 1, leap) == (month as int, remaining_days as int),
            decreases 12 - month,
        {
            let dim: i32 = if month == 2 {
                if leap {
                    29
                } else {
                    28
                }
            } else if month == 4 || month == 6 || month == 9 || month == 11 {
                30
            } else {
                31
            };
            proof {
                assert(dim == days_in_month(leap, month as int));
                assert(days_from_month(month as int, leap) == dim + days_from_month(month + 1, leap));
                if month == 12 {
                    assert(days_from_month(13, leap) == 0);
                }
            }
            if remaining_days < dim {
                break;
            }
            remaining_days = remaining_days - dim;
            month = month + 1;
        }
        let day = remaining_days + 1;
        (year, month, day as u32, hour, min, sec)
    }

    /// Whether `year` is a Gregorian leap year.
    pub fn is_leap_year(year: i32) -> (r: bool)
        ensures
            r == is_leap(year as int),
    {
        let y: u32 = if year < 0 {
            (0i64 - year as i64) as u32
        } else {
            year as u32
        };
        proof {
            lemma_leap_of_magnitude(year as int);
        }
        (y % 4 == 0 && y % 100 != 0) || (y % 400 == 0)
    }
}

} // verus!
