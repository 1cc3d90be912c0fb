//! Broken-down times and timestamps, and the calls into the `time` crate
//! that produce, format, parse and convert them.
use vstd::prelude::*;
use crate::text::{push_char, decimal, signed_decimal, is_digit, digits_value};

verus! {

/// A broken-down calendar time: the fields of `time::Tm`.
#[derive(Clone, Copy, Debug, PartialEq, Eq)]
pub struct Tm {
    pub tm_sec: i32,
    pub tm_min: i32,
    pub tm_hour: i32,
    pub tm_mday: i32,
    pub tm_mon: i32,
    pub tm_year: i32,
    pub tm_wday: i32,
    pub tm_yday: i32,
    pub tm_isdst: i32,
    pub tm_utcoff: i32,
    pub tm_nsec: i32,
}

/// Seconds and nanoseconds since the epoch: the fields of `time::Timespec`.
#[derive(Clone, Copy, Debug, PartialEq, Eq)]
pub struct Timespec {
    pub sec: i64,
    pub nsec: i32,
}

/// The order of timestamps: by seconds, then by nanoseconds.
pub open spec fn ts_lt(a: Timespec, b: Timespec) -> bool {
    a.sec < b.sec || (a.sec == b.sec && a.nsec < b.nsec)
}

/// `a < b` on timestamps.
pub fn timespec_lt(a: Timespec, b: Timespec) -> (r: bool)
    ensures
        r == ts_lt(a, b),
{
    a.sec < b.sec || (a.sec == b.sec && a.nsec < b.nsec)
}

impl Tm {
    /// Whether the fields that formatting checks are in range: a weekday
    /// in 0..=6 and a month in 0..=11.
    pub open spec fn formattable(self) -> bool {
        0 <= self.tm_wday <= 6 && 0 <= self.tm_mon <= 11
    }

    /// All fields zero (`time::empty_tm`).
    pub open spec fn empty_spec() -> Tm {
        Tm {
            tm_sec: 0,
            tm_min: 0,
            tm_hour: 0,
            tm_mday: 0,
            tm_mon: 0,
            tm_year: 0,
            tm_wday: 0,
            tm_yday: 0,
            tm_isdst: 0,
            tm_utcoff: 0,
            tm_nsec: 0,
        }
    }

    pub fn empty() -> (r: Tm)
        ensures
            r == Tm::empty_spec(),
    {
        Tm {
            tm_sec: 0,
            tm_min: 0,
            tm_hour: 0,
            tm_mday: 0,
            tm_mon: 0,
            tm_year: 0,
            tm_wday: 0,
            tm_yday: 0,
            tm_isdst: 0,
            tm_utcoff: 0,
            tm_nsec: 0,
        }
    }
}

/// `v` written as `{:02}` writes an integer: a `0` before a single digit,
/// else the signed decimal numeral.
pub open spec fn two_digits(v: int) -> Seq<char> {
    if 0 <= v < 10 {
        seq!['0'] + decimal(v as nat)
    } else {
        signed_decimal(v)
    }
}

/// The number of digits at the start of `s`, at most `max`.
pub open spec fn digit_run(s: Seq<char>, max: nat) -> nat
    decreases max,
{
    if max == 0 || s.len() == 0 || !is_digit(s[0]) {
        0
    } else {
        1 + digit_run(s.drop_first(), (max - 1) as nat)
    }
}

/// A number of `min` to `max` digits between `lo` and `hi` at the start of
/// `s` (as many digits as there are, up to `max`): its value and the text
/// after it.
pub open spec fn read_number(s: Seq<char>, min: nat, max: nat, lo: int, hi: int) -> Option<(int, Seq<char>)> {
    let n = digit_run(s, max);
    let v = digits_value(s.take(n as int)) as int;
    if n >= min && lo <= v <= hi {
        Some((v, s.skip(n as int)))
    } else {
        None
    }
}

/// The text after the character `c` at the start of `s`.
pub open spec fn read_char(s: Seq<char>, c: char) -> Option<Seq<char>> {
    if s.len() > 0 && s[0] == c {
        Some(s.drop_first())
    } else {
        None
    }
}

/// The text after the characters `cs` at the start of `s`, one by one.
pub open spec fn read_chars(s: Seq<char>, cs: Seq<char>) -> Option<Seq<char>>
    decreases cs.len(),
{
    if cs.len() == 0 {
        Some(s)
    } else {
        match read_char(s, cs[0]) {
            Some(rest) => read_chars(rest, cs.drop_first()),
            None => None,
        }
    }
}

/// What parsing `s` in the time format gives, as the time crate's
/// `strptime` parses `"%F %Y at %T"`: a year of four digits, `-`, a month
/// (1 to 12) and `-`, a day (1 to 31) of one or two digits, ` `, the year
/// again (it is the one kept), ` at `, and hours (0 to 23), minutes (0 to
/// 59) and seconds (0 to 60) of one or two digits between `:`. Text after
/// the seconds is ignored; every field that the format does not name is 0.
#[verifier::opaque]
pub open spec fn parse_time_text(s: Seq<char>) -> Option<Tm> {
    match read_number(s, 4, 4, 0, 9999) {
        None => None,
        Some((_, s1)) => match read_char(s1, '-') {
            None => None,
            Some(s2) => match read_number(s2, 1, 2, 1, 12) {
                None => None,
                Some((mon, s3)) => match read_char(s3, '-') {
                    None => None,
                    Some(s4) => match read_number(s4, 1, 2, 1, 31) {
                        None => None,
                        Some((mday, s5)) => match read_char(s5, ' ') {
                            None => None,
                            Some(s6) => match read_number(s6, 4, 4, 0, 9999) {
                                None => None,
                                Some((year, s7)) => match read_chars(s7, seq![' ', 'a', 't', ' ']) {
                                    None => None,
                                    Some(s8) => match read_number(s8, 1, 2, 0, 23) {
                                        None => None,
                                        Some((hour, s9)) => match read_char(s9, ':') {
                                            None => None,
                                            Some(s10) => match read_number(s10, 1, 2, 0, 59) {
                                                None => None,
                                                Some((min, s11)) => match read_char(s11, ':') {
                                                    None => None,
                                                    Some(s12) => match read_number(s12, 1, 2, 0, 60) {
                                                        None => None,
                                                        Some((sec, _)) => Some(Tm {
                                                            tm_sec: sec as i32,
                                                            tm_min: min as i32,
                                                            tm_hour: hour as i32,
                                                            tm_mday: mday as i32,
                                                            tm_mon: (mon - 1) as i32,
                                                            tm_year: (year - 1900) as i32,
                                                            tm_wday: 0,
                                                            tm_yday: 0,
                                                            tm_isdst: 0,
                                                            tm_utcoff: 0,
                                                            tm_nsec: 0,
                                                        }),
                                                    },
                                                },
                                            },
                                        },
                                    },
                                },
                            },
                        },
                    },
                },
            },
        },
    }
}

/// The format in which times are written: `"%F %Y at %T"`.
pub open spec fn time_format_spec() -> Seq<char> {
    seq!['%', 'F', ' ', '%', 'Y', ' ', 'a', 't', ' ', '%', 'T']
}

/// The format in which times are written and read back.
pub fn time_format() -> (r: String)
    ensures
        r@ == time_format_spec(),
{
    let mut r = String::new();
    push_char(&mut r, '%');
    push_char(&mut r, 'F');
    push_char(&mut r, ' ');
    push_char(&mut r, '%');
    push_char(&mut r, 'Y');
    push_char(&mut r, ' ');
    push_char(&mut r, 'a');
    push_char(&mut r, 't');
    push_char(&mut r, ' ');
    push_char(&mut r, '%');
    push_char(&mut r, 'T');
    r
}

/// Calls `time::strftime(format, tm)`. Claims: it fails exactly when the
/// weekday or the month is out of range, and otherwise its text is
/// `time_text(tm)`: for this format the time crate writes the year with
/// `{}`, the month, day, hours, minutes and seconds with `{:02}`, and
/// consults nothing else.
#[verifier::external_body]
pub fn strftime(format: &str, tm: &Tm) -> (r: Option<String>)
    requires
        format@ == time_format_spec(),
        tm.tm_year <= i32::MAX - 1900,
    ensures
        r is Some <==> tm.formattable(),
        r matches Some(s) ==> s@ == time_text(*tm),
{
    let t = time::Tm {
        tm_sec: tm.tm_sec, tm_min: tm.tm_min, tm_hour: tm.tm_hour, tm_mday: tm.tm_mday,
        tm_mon: tm.tm_mon, tm_year: tm.tm_year, tm_wday: tm.tm_wday, tm_yday: tm.tm_yday,
        tm_isdst: tm.tm_isdst, tm_utcoff: tm.tm_utcoff, tm_nsec: tm.tm_nsec,
    };
    time::strftime(format, &t).ok()
}

/// Whether `tm` can be written in the time format: its weekday and month
/// are in range and its year fits the year field.
pub open spec fn printable(tm: Tm) -> bool {
    tm.formattable() && tm.tm_year <= i32::MAX - 1900
}

/// The text of `tm` in the time format `"%F %Y at %T"`: year, month and
/// day joined by `-`, the year again, ` at `, and hours, minutes and
/// seconds joined by `:`.
#[verifier::opaque]
pub open spec fn time_text(tm: Tm) -> Seq<char> {
    let year = signed_decimal(tm.tm_year + 1900);
    year + seq!['-'] + two_digits(tm.tm_mon + 1) + seq!['-'] + two_digits(tm.tm_mday as int) + seq![' '] + year
        + seq![' ', 'a', 't', ' '] + two_digits(tm.tm_hour as int) + seq![':'] + two_digits(tm.tm_min as int) + seq![':']
        + two_digits(tm.tm_sec as int)
}

/// `tm` written in the time format.
pub fn format_time(tm: &Tm) -> (r: String)
    requires
        printable(*tm),
    ensures
        r@ == time_text(*tm),
{
    let f = time_format();
    strftime(f.as_str(), tm).unwrap()
}

/// Calls `time::strptime(s, format)`. Claims: for the time format the
/// outcome is `parse_time_text(s)`, as the time crate's parser reads that
/// format.
#[verifier::external_body]
pub fn strptime(s: &str, format: &str) -> (r: Option<Tm>)
    requires
        format@ == time_format_spec(),
    ensures
        r == parse_time_text(s@),
{
    time::strptime(s, format).ok().map(|t| Tm {
        tm_sec: t.tm_sec, tm_min: t.tm_min, tm_hour: t.tm_hour, tm_mday: t.tm_mday,
        tm_mon: t.tm_mon, tm_year: t.tm_year, tm_wday: t.tm_wday, tm_yday: t.tm_yday,
        tm_isdst: t.tm_isdst, tm_utcoff: t.tm_utcoff, tm_nsec: t.tm_nsec,
    })
}

/// Calls `time::now()`: the current local time. Claims only that each
/// field other than the year, the daylight flag and the offset is in the
/// range that the time crate documents for `Tm` (the C library's
/// `localtime_r` fills them); which time comes back depends on the clock
/// and the time zone.
#[verifier::external_body]
pub fn now() -> (r: Tm)
    ensures
        fields_in_range(r),
{
    let t = time::now();
    Tm {
        tm_sec: t.tm_sec, tm_min: t.tm_min, tm_hour: t.tm_hour, tm_mday: t.tm_mday,
        tm_mon: t.tm_mon, tm_year: t.tm_year, tm_wday: t.tm_wday, tm_yday: t.tm_yday,
        tm_isdst: t.tm_isdst, tm_utcoff: t.tm_utcoff, tm_nsec: t.tm_nsec,
    }
}

/// Calls `time::get_time()`: the current timestamp. Claims only that the
/// nanoseconds are below one second (`Timespec::new` asserts it).
#[verifier::external_body]
pub fn get_time() -> (r: Timespec)
    ensures
        0 <= r.nsec < 1_000_000_000,
{
    let t = time::get_time();
    Timespec { sec: t.sec, nsec: t.nsec }
}

/// The seconds since the epoch of `tm` read as a time in UTC: what the C
/// library's `timegm` gives for its fields.
pub uninterp spec fn utc_seconds(tm: Tm) -> i64;

/// `ts` is the time crate's stamp of `tm`: the same nanoseconds, and for a
/// time in UTC (offset 0) the seconds `utc_seconds(tm)`.
pub open spec fn stamp_of(tm: Tm, ts: Timespec) -> bool {
    &&& ts.nsec == tm.tm_nsec
    &&& tm.tm_utcoff == 0 ==> ts.sec == utc_seconds(tm)
}

/// Calls `time::Tm::to_timespec`. Claims: the nanoseconds are carried
/// over; for a time in UTC (offset 0) the seconds are those of the C
/// library's `timegm` on its fields (`utc_seconds`). For any other offset
/// the seconds come from `mktime` and depend on the machine's time zone;
/// nothing is claimed of them.
#[verifier::external_body]
pub fn to_timespec(tm: &Tm) -> (r: Timespec)
    requires
        0 <= tm.tm_nsec < 1_000_000_000,
    ensures
        r.nsec == tm.tm_nsec,
        tm.tm_utcoff == 0 ==> r.sec == utc_seconds(*tm),
{
    let t = time::Tm {
        tm_sec: tm.tm_sec, tm_min: tm.tm_min, tm_hour: tm.tm_hour, tm_mday: tm.tm_mday,
        tm_mon: tm.tm_mon, tm_year: tm.tm_year, tm_wday: tm.tm_wday, tm_yday: tm.tm_yday,
        tm_isdst: tm.tm_isdst, tm_utcoff: tm.tm_utcoff, tm_nsec: tm.tm_nsec,
    };
    let ts = t.to_timespec();
    Timespec { sec: ts.sec, nsec: ts.nsec }
}


/// The fields of `tm` other than the year, the daylight flag and the
/// offset are in the ranges that the time crate documents for `Tm`.
pub open spec fn fields_in_range(tm: Tm) -> bool {
    &&& tm.formattable()
    &&& 0 <= tm.tm_nsec < 1_000_000_000
    &&& 0 <= tm.tm_sec <= 60
    &&& 0 <= tm.tm_min <= 59
    &&& 0 <= tm.tm_hour <= 23
    &&& 1 <= tm.tm_mday <= 31
    &&& 0 <= tm.tm_yday <= 365
}

/// The date and clock fields of `tm` are in their calendar ranges, with a
/// year of four digits.
pub open spec fn in_calendar(tm: Tm) -> bool {
    &&& 1000 <= tm.tm_year + 1900 <= 9999
    &&& 0 <= tm.tm_mon <= 11
    &&& 1 <= tm.tm_mday <= 31
    &&& 0 <= tm.tm_hour <= 23
    &&& 0 <= tm.tm_min <= 59
    &&& 0 <= tm.tm_sec <= 60
}

/// The date and clock fields of `tm`, every other field 0.
pub open spec fn calendar_part(tm: Tm) -> Tm {
    Tm {
        tm_sec: tm.tm_sec,
        tm_min: tm.tm_min,
        tm_hour: tm.tm_hour,
        tm_mday: tm.tm_mday,
        tm_mon: tm.tm_mon,
        tm_year: tm.tm_year,
        tm_wday: 0,
        tm_yday: 0,
        tm_isdst: 0,
        tm_utcoff: 0,
        tm_nsec: 0,
    }
}

/// Whether every character of `d` is a digit.
pub open spec fn all_digit_chars(d: Seq<char>) -> bool {
    forall|i: int| 0 <= i < d.len() ==> is_digit(#[trigger] d[i])
}

proof fn lemma_digit_run(d: Seq<char>, rest: Seq<char>)
    requires
        all_digit_chars(d),
    ensures
        digit_run(d + rest, d.len()) == d.len(),
    decreases d.len(),
{
    if d.len() > 0 {
        assert((d + rest)[0] == d[0]);
        assert((d + rest).drop_first() =~= d.drop_first() + rest);
        assert(all_digit_chars(d.drop_first())) by {
            assert forall|i: int| 0 <= i < d.drop_first().len() implies is_digit(#[trigger] d.drop_first()[i]) by {
                assert(d.drop_first()[i] == d[i + 1]);
            }
        }
        lemma_digit_run(d.drop_first(), rest);
    }
}

proof fn lemma_read_number(d: Seq<char>, rest: Seq<char>, min: nat, lo: int, hi: int)
    requires
        all_digit_chars(d),
        min <= d.len(),
    ensures
        read_number(d + rest, min, d.len(), lo, hi) == (if lo <= digits_value(d) <= hi {
            Some((digits_value(d) as int, rest))
        } else {
            None
        }),
{
    lemma_digit_run(d, rest);
    assert((d + rest).take(d.len() as int) =~= d);
    assert((d + rest).skip(d.len() as int) =~= rest);
}

proof fn lemma_two_digits(v: int)
    requires
        0 <= v <= 99,
    ensures
        two_digits(v).len() == 2,
        all_digit_chars(two_digits(v)),
        digits_value(two_digits(v)) == v,
{
    crate::text::lemma_decimal_len(v as nat);
    crate::text::lemma_decimal_value(v as nat);
    crate::text::lemma_decimal_digits(v as nat);
    let t = two_digits(v);
    if v < 10 {
        let d = decimal(v as nat);
        assert(t =~= seq!['0'] + d);
        assert(t.drop_last() =~= seq!['0']);
        assert(seq!['0'].drop_last() =~= Seq::<char>::empty());
        assert(digits_value(seq!['0']) == digits_value(Seq::<char>::empty()) * 10 + (('0' as nat) - 48) as nat);
        assert(t.last() == d[0]);
        assert(digits_value(d) == digits_value(d.drop_last()) * 10 + ((d.last() as nat) - 48) as nat);
        assert(d.drop_last() =~= Seq::<char>::empty());
        assert(is_digit(t[0]));
        assert(is_digit(t[1]));
    }
}

proof fn lemma_year_digits(y: int)
    requires
        1000 <= y <= 9999,
    ensures
        signed_decimal(y).len() == 4,
        all_digit_chars(signed_decimal(y)),
        digits_value(signed_decimal(y)) == y,
{
    crate::text::lemma_decimal_len(y as nat);
    crate::text::lemma_decimal_value(y as nat);
    crate::text::lemma_decimal_digits(y as nat);
}

/// A time in its calendar ranges is read back from its text: its date and
/// clock fields, with every other field 0. Reading back loses nothing that
/// the text shows.
pub proof fn lemma_time_text_parses(tm: Tm)
    requires
        in_calendar(tm),
    ensures
        parse_time_text(time_text(tm)) == Some(calendar_part(tm)),
        time_text(calendar_part(tm)) == time_text(tm),
{
    reveal(parse_time_text);
    reveal(time_text);
    reveal_with_fuel(read_chars, 5);
    let y = tm.tm_year + 1900;
    let yy = signed_decimal(y);
    let mm = two_digits(tm.tm_mon + 1);
    let dd = two_digits(tm.tm_mday as int);
    let hh = two_digits(tm.tm_hour as int);
    let mi = two_digits(tm.tm_min as int);
    let ss = two_digits(tm.tm_sec as int);
    lemma_year_digits(y);
    lemma_two_digits(tm.tm_mon + 1);
    lemma_two_digits(tm.tm_mday as int);
    lemma_two_digits(tm.tm_hour as int);
    lemma_two_digits(tm.tm_min as int);
    lemma_two_digits(tm.tm_sec as int);
    let at = seq![' ', 'a', 't', ' '];
    let t11 = seq![':'] + ss;
    let t10 = mi + t11;
    let t9 = seq![':'] + t10;
    let t8 = hh + t9;
    let t7 = at + t8;
    let t6 = yy + t7;
    let t5 = seq![' '] + t6;
    let t4 = dd + t5;
    let t3 = seq!['-'] + t4;
    let t2 = mm + t3;
    let t1 = seq!['-'] + t2;
    let t = time_text(tm);
    assert(t =~= yy + t1);
    lemma_read_number(yy, t1, 4, 0, 9999);
    assert(read_char(t1, '-') == Some(t2)) by {
        assert(t1.drop_first() =~= t2);
    }
    lemma_read_number(mm, t3, 1, 1, 12);
    assert(read_char(t3, '-') == Some(t4)) by {
        assert(t3.drop_first() =~= t4);
    }
    lemma_read_number(dd, t5, 1, 1, 31);
    assert(read_char(t5, ' ') == Some(t6)) by {
        assert(t5.drop_first() =~= t6);
    }
    lemma_read_number(yy, t7, 4, 0, 9999);
    assert(read_chars(t7, at) == Some(t8)) by {
        assert(t7[0] == ' ');
        assert(t7.drop_first()[0] == 'a');
        assert(t7.drop_first().drop_first()[0] == 't');
        assert(t7.drop_first().drop_first().drop_first()[0] == ' ');
        assert(t7.drop_first().drop_first().drop_first().drop_first() =~= t8);
        assert(at.drop_first() =~= seq!['a', 't', ' ']);
        assert(at.drop_first().drop_first() =~= seq!['t', ' ']);
        assert(at.drop_first().drop_first().drop_first() =~= seq![' ']);
        assert(at.drop_first().drop_first().drop_first().drop_first() =~= Seq::<char>::empty());
    }
    lemma_read_number(hh, t9, 1, 0, 23);
    assert(read_char(t9, ':') == Some(t10)) by {
        assert(t9.drop_first() =~= t10);
    }
    lemma_read_number(mi, t11, 1, 0, 59);
    assert(read_char(t11, ':') == Some(ss)) by {
        assert(t11.drop_first() =~= ss);
    }
    lemma_read_number(ss, Seq::<char>::empty(), 1, 0, 60);
    assert(ss + Seq::<char>::empty() =~= ss);
}

/// The text of the empty time does not read back: its day of the month is
/// 0.
pub proof fn lemma_empty_time_unreadable()
    ensures
        parse_time_text(time_text(Tm::empty_spec())) is None,
{
    reveal(parse_time_text);
    reveal(time_text);
    let tm = Tm::empty_spec();
    let yy = signed_decimal(1900);
    let mm = two_digits(1);
    let dd = two_digits(0);
    lemma_year_digits(1900);
    lemma_two_digits(1);
    lemma_two_digits(0);
    let rest = seq![' '] + yy + seq![' ', 'a', 't', ' '] + two_digits(0) + seq![':'] + two_digits(0) + seq![':'] + two_digits(0);
    let t3 = seq!['-'] + dd + rest;
    let t2 = mm + t3;
    let t1 = seq!['-'] + t2;
    assert(time_text(tm) =~= yy + t1);
    lemma_read_number(yy, t1, 4, 0, 9999);
    assert(t1.drop_first() =~= t2);
    lemma_read_number(mm, t3, 1, 1, 12);
    assert(t3.drop_first() =~= dd + rest);
    lemma_read_number(dd, rest, 1, 1, 31);
}
} // verus!
