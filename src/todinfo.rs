//! The clock value types, the conversion work area and the four conversions.

use vstd::prelude::*;
use crate::calendar::{
    datetime_text, day_of, format_datetime, CENTURY_SECS, in_calendar, parse_datetime, parsed_datetime,
    CalTime, DATE_CSV, DATE_TEXT, ISO_INPUT, MAX_MICROS, MICROS_PER_SEC, MIN_MICROS, NOW_TEXT,
    ORDINAL_INPUT, ORDINAL_TEXT, PMC_EPOCH_MICROS, TOD_EPOCH_MICROS, WEEKDAY_TEXT,
};
use crate::text::{
    dec_text, digit_char, hex_text, pad_left, push_char, push_dec, push_hex, push_padded, signed_string,
    signed_text,
};
use crate::leapsectab::{count_for_day, count_for_tod, leap_seconds, table_wf, LeapSecTable};
use crate::text::{debug_text, magnitude, plus_text, push_plus, quoted};

verus! {

/// What the input values are: TOD clock values (hex), dates and times,
/// Perpetual Minute Clock values (hex), Unix seconds, or seconds since
/// 1900-01-01.
#[derive(Clone, Copy, Debug, PartialEq, Eq, Structural)]
pub enum TodCalc {
    FromTod,
    FromDateTime,
    FromPMC,
    FromUnix,
    FromCsec,
}

/// How a short hex TOD clock value is filled out to sixteen digits:
/// zeros on the left, zeros on the right, or, by default, two zeros on the
/// left (three when the first digit is c to f) and zeros on the right.
#[derive(Clone, Copy, Debug, PartialEq, Eq, Structural)]
pub enum Padding {
    Left,
    Right,
    Intelligent,
}

/// Where the input values come from besides the command line.
#[derive(Clone, Copy, Debug, PartialEq, Eq, Structural)]
pub enum Source {
    Clip,
    File,
    Args,
}

/// Time zone offset for a calculation: an optional, signed number of
/// seconds east of UTC. An absent offset suppresses its output line.
#[derive(Clone, Copy, Debug, PartialEq, Eq, Structural)]
pub struct Toffset(pub Option<i64>);

/// Perpetual Minute Clock value: minutes since 1966-01-03T00:00:00, absent
/// when out of range.
#[derive(Clone, Copy, Debug, PartialEq, Eq, Structural)]
pub struct PerpMinuteClock(pub Option<u32>);

/// Unix Seconds Clock value: seconds since 1970-01-01T00:00:00, absent when
/// the input could not be read.
#[derive(Clone, Copy, Debug, PartialEq, Eq, Structural)]
pub struct UnixSecondsClock(pub Option<i64>);

/// TOD clock value: microseconds since 1900-01-01T00:00:00 (the extended
/// clock's bits 0-59, or the traditional clock's bits 0-51, padded on the left).
#[derive(Clone, Copy, Debug, PartialEq, Eq, Structural)]
pub struct Tod(pub u64);

/// Work area of a run: the configuration, and the values of the latest
/// conversion.
#[derive(Debug)]
pub struct TodInfo {
    pub runtype: TodCalc,
    pub tod: Tod,
    pub date: CalTime,
    pub pmc: PerpMinuteClock,
    pub usc: UnixSecondsClock,
    pub goff: Toffset,
    pub loff: Toffset,
    pub aoff: Toffset,
    pub pad: Padding,
    pub src: Source,
    pub cname: String,
    pub csv: bool,
    pub utc: bool,
    pub tai: i64,
    pub lsec: i64,
    pub lstab: LeapSecTable,
}

impl TodInfo {
    /// The date lies in the calendar's range, the leap-second table is well
    /// formed, and a discipline bias applies only where leap seconds do not.
    pub open spec fn wf(&self) -> bool {
        &&& self.date.valid()
        &&& table_wf(self.lstab@)
        &&& self.utc ==> self.tai == 0
    }

    /// A work area for conversions from TOD clock values to UTC, with
    /// leap seconds, for offset zero and a local offset of zero, at TOD
    /// clock zero (1900-01-01T00:00:00).
    pub fn new() -> (r: TodInfo)
        ensures
            r.wf(),
            r.date == (CalTime { micros: TOD_EPOCH_MICROS }),
            r.lstab@ == leap_seconds(),
            r.runtype == TodCalc::FromTod,
            r.tod == Tod(0),
            r.pmc.0 is None,
            r.usc.0 is None,
            r.goff == Toffset(Some(0)),
            r.loff == Toffset(Some(0)),
            r.aoff.0 is None,
            r.pad == Padding::Intelligent,
            r.src == Source::Args,
            r.cname@ == "UTC"@,
            !r.csv,
            r.utc,
            r.tai == 0,
            r.lsec == 0,
    {
        let lstab = LeapSecTable::new();
        TodInfo {
            runtype: TodCalc::FromTod,
            tod: Tod(0),
            date: CalTime { micros: TOD_EPOCH_MICROS },
            pmc: PerpMinuteClock(None),
            usc: UnixSecondsClock(None),
            goff: Toffset(Some(0)),
            loff: Toffset(Some(0)),
            aoff: Toffset(None),
            pad: Padding::Intelligent,
            src: Source::Args,
            cname: String::from_str("UTC"),
            csv: false,
            utc: true,
            tai: 0,
            lsec: 0,
            lstab,
        }
    }

    /// The work area's values as one line of text, or as one CSV row, for
    /// the given offset.
    pub fn text(&self, offset: Toffset) -> (r: String)
        requires
            self.date.valid(),
        ensures
            r@ == line_text(*self, offset),
    {
        let m = self.date.micros;
        let ojd = format_datetime(m, ORDINAL_TEXT);
        let oday = format_datetime(m, WEEKDAY_TEXT);
        let sep: char = if self.csv { ',' } else { ' ' };
        let mut s = self.tod.text();
        if self.csv {
            push_char(&mut s, ',');
            s.append(format_datetime(m, DATE_CSV).as_str());
        } else {
            s.append(" : ");
            s.append(format_datetime(m, DATE_TEXT).as_str());
        }
        push_char(&mut s, sep);
        s.append(self.cname.as_str());
        s.append(offset.text().as_str());
        push_char(&mut s, sep);
        s.append(ojd.as_str());
        push_char(&mut s, sep);
        s.append(oday.as_str());
        push_char(&mut s, sep);
        s.append(self.pmc.text().as_str());
        push_char(&mut s, sep);
        if self.csv {
            s.append(self.usc_csv().as_str());
            if self.utc {
                s.append(",*");
                push_plus(&mut s, self.lsec);
            } else {
                s.append(",NA");
            }
        } else {
            s.append(self.usc.text().as_str());
            if self.utc {
                s.append(" *");
                push_plus(&mut s, self.lsec);
            }
        }
        proof {
            reveal(line_text);
            assert(s@ =~= line_text(*self, offset));
        }
        s
    }

    /// The Unix seconds as plain decimal, or `--` when absent.
    pub fn usc_csv(&self) -> (r: String)
        ensures
            r@ == usc_csv_text(self.usc),
    {
        match self.usc.0 {
            Some(x) => signed_string(x),
            None => String::from_str("--"),
        }
    }
}

/// The text line (or CSV row) of a work area for an offset.
#[verifier::opaque]
pub open spec fn line_text(w: TodInfo, offset: Toffset) -> Seq<char> {
    let m = w.date.micros as int;
    let ojd = datetime_text(m, ORDINAL_TEXT@);
    let oday = datetime_text(m, WEEKDAY_TEXT@);
    if w.csv {
        tod_text(w.tod) + seq![','] + datetime_text(m, DATE_CSV@) + seq![','] + w.cname@
            + offset_text(offset) + seq![','] + ojd + seq![','] + oday + seq![','] + pmc_text(w.pmc)
            + seq![','] + usc_csv_text(w.usc) + if w.utc {
            ",*"@ + plus_text(w.lsec as int)
        } else {
            ",NA"@
        }
    } else {
        tod_text(w.tod) + " : "@ + datetime_text(m, DATE_TEXT@) + seq![' '] + w.cname@
            + offset_text(offset) + seq![' '] + ojd + seq![' '] + oday + seq![' '] + pmc_text(w.pmc)
            + seq![' '] + usc_text(w.usc) + if w.utc {
            " *"@ + plus_text(w.lsec as int)
        } else {
            Seq::empty()
        }
    }
}

/// The Perpetual Minute Clock value of an instant: whole minutes since
/// 1966-01-03T00:00:00; absent before that instant or beyond 32 bits.
pub open spec fn pmc_of(m: int) -> Option<u32> {
    if m < PMC_EPOCH_MICROS {
        None
    } else {
        let q = (m - PMC_EPOCH_MICROS) / 60_000_000;
        if q <= u32::MAX {
            Some(q as u32)
        } else {
            None
        }
    }
}

/// The Unix seconds of an instant: whole seconds since 1970-01-01T00:00:00,
/// rounded toward zero.
pub open spec fn usc_of(m: int) -> i64 {
    trunc_div(m, MICROS_PER_SEC as int) as i64
}

/// Whole seconds since 1900-01-01T00:00:00, rounded down.
pub open spec fn tod_secs(m: int) -> int {
    (m - TOD_EPOCH_MICROS) / (MICROS_PER_SEC as int)
}

/// The microseconds beyond `tod_secs`.
pub open spec fn tod_subsec(m: int) -> int {
    (m - TOD_EPOCH_MICROS) % (MICROS_PER_SEC as int)
}

/// Calculates the Perpetual Minute Clock value of the work area's date, or
/// an absent one when out of range.
pub fn findpmc(todwork: &TodInfo) -> (r: PerpMinuteClock)
    ensures
        r.0 == pmc_of(todwork.date.micros as int),
        todwork.date.micros < PMC_EPOCH_MICROS ==> r.0 is None,
        todwork.date.micros == PMC_EPOCH_MICROS ==> r.0 == Some(0u32),
{
    let m = todwork.date.micros;
    if m < PMC_EPOCH_MICROS {
        return PerpMinuteClock(None);
    }
    let q: u128 = ((m as i128 - PMC_EPOCH_MICROS as i128) as u128) / 60_000_000;
    if q <= u32::MAX as u128 {
        PerpMinuteClock(Some(q as u32))
    } else {
        PerpMinuteClock(None)
    }
}

/// Calculates the Unix seconds of the work area's date.
pub fn findusc(todwork: &TodInfo) -> (r: UnixSecondsClock)
    ensures
        r.0 == Some(usc_of(todwork.date.micros as int)),
{
    UnixSecondsClock(Some(tdiv(todwork.date.micros, MICROS_PER_SEC)))
}

/// Splits the work area's date into whole seconds since 1900-01-01 and the
/// microseconds beyond them.
pub fn get_sec_mic(todwork: &TodInfo) -> (r: (i64, u64))
    ensures
        r.0 == tod_secs(todwork.date.micros as int),
        r.1 == tod_subsec(todwork.date.micros as int),
        r.1 < 1_000_000,
{
    let d: i128 = todwork.date.micros as i128 - TOD_EPOCH_MICROS as i128;
    let mm: u128 = MICROS_PER_SEC as u128;
    if d >= 0 {
        ((d as u128 / mm) as i64, (d as u128 % mm) as u64)
    } else {
        let a: u128 = (-d) as u128;
        let q: u128 = (a + (mm - 1)) / mm;
        proof {
            vstd::arithmetic::div_mod::lemma_fundamental_div_mod(a + (mm - 1), mm as int);
            assert(q * mm <= a + (mm - 1));
            assert(q * mm > a - 1);
        }
        let r: u128 = q * mm - a;
        proof {
            vstd::arithmetic::div_mod::lemma_fundamental_div_mod_converse(
                d as int,
                mm as int,
                -(q as int),
                r as int,
            );
        }
        ((-(q as i128)) as i64, r as u64)
    }
}

/// A hexadecimal digit, in either case.
pub open spec fn is_hex_char(c: char) -> bool {
    (48 <= c as u32 <= 57) || (97 <= c as u32 <= 102) || (65 <= c as u32 <= 70)
}

/// Every character is a hexadecimal digit.
pub open spec fn all_hex(s: Seq<char>) -> bool {
    forall|i: int| 0 <= i < s.len() ==> #[trigger] is_hex_char(s[i])
}

/// The value of a hexadecimal digit (zero for any other character).
pub open spec fn hex_digit_value(c: char) -> nat {
    if 48 <= c as u32 <= 57 {
        (c as u32 - 48) as nat
    } else if 97 <= c as u32 <= 102 {
        (c as u32 - 87) as nat
    } else if 65 <= c as u32 <= 70 {
        (c as u32 - 55) as nat
    } else {
        0
    }
}

/// The value of a string of hexadecimal digits, most significant first.
pub open spec fn hex_value(s: Seq<char>) -> nat
    decreases s.len(),
{
    if s.len() == 0 {
        0
    } else {
        hex_value(s.drop_last()) * 16 + hex_digit_value(s.last())
    }
}

/// `s` placed from position `k` (which may be negative) in a field of
/// `width` characters, the rest filled with zeros.
pub open spec fn shifted(s: Seq<char>, k: int, width: nat) -> Seq<char> {
    Seq::new(width, |j: int| if k <= j < k + s.len() { s[j - k] } else { '0' })
}

/// Where a hex TOD input starts in its sixteen digits under a padding rule.
pub open spec fn tod_shift(s: Seq<char>, pad: Padding) -> int {
    match pad {
        Padding::Left => 16 - s.len(),
        Padding::Right => 0,
        Padding::Intelligent => if s.len() > 0 && hex_digit_value(s[0]) >= 12 {
            3
        } else {
            2
        },
    }
}

/// The sixteen digits that a hex TOD input stands for under a padding rule.
pub open spec fn tod_padded(s: Seq<char>, pad: Padding) -> Seq<char> {
    shifted(s, tod_shift(s, pad), 16)
}

/// The TOD clock value that a hex input stands for, if it is all hex digits.
pub open spec fn tod_from_hex(s: Seq<char>, pad: Padding) -> Option<Tod> {
    if all_hex(s) {
        Some(Tod(hex_value(tod_padded(s, pad)) as u64))
    } else {
        None
    }
}

/// The Perpetual Minute Clock value that a hex input stands for: a short
/// input is filled with zeros on the right to eight digits, a longer one is
/// read whole and stands for nothing beyond 32 bits.
pub open spec fn pmc_from_hex(s: Seq<char>) -> Option<u32> {
    if !all_hex(s) {
        None
    } else if s.len() <= 8 {
        Some(hex_value(shifted(s, 0, 8)) as u32)
    } else if hex_value(s) <= u32::MAX {
        Some(hex_value(s) as u32)
    } else {
        None
    }
}

/// A decimal digit.
pub open spec fn is_dec_char(c: char) -> bool {
    48 <= c as u32 <= 57
}

/// Every character is a decimal digit.
pub open spec fn all_dec(s: Seq<char>) -> bool {
    forall|i: int| 0 <= i < s.len() ==> #[trigger] is_dec_char(s[i])
}

/// The value of a string of decimal digits, most significant first.
pub open spec fn dec_value(s: Seq<char>) -> nat
    decreases s.len(),
{
    if s.len() == 0 {
        0
    } else {
        dec_value(s.drop_last()) * 10 + (s.last() as u32 - 48) as nat
    }
}

/// The signed 64-bit integer that a text spells: an optional sign, then one
/// or more decimal digits.
pub open spec fn decimal_value(s: Seq<char>) -> Option<i64> {
    let signed = s.len() > 0 && (s[0] == '-' || s[0] == '+');
    let digits = if signed { s.skip(1) } else { s };
    let v: int = if signed && s[0] == '-' { -dec_value(digits) } else { dec_value(digits) as int };
    if digits.len() > 0 && all_dec(digits) && i64::MIN <= v <= i64::MAX {
        Some(v as i64)
    } else {
        None
    }
}

/// The Unix seconds that a decimal input stands for, less `bias`.
pub open spec fn usc_from_decimal(s: Seq<char>, bias: int) -> Option<i64> {
    match decimal_value(s) {
        Some(v) => if i64::MIN <= v - bias <= i64::MAX {
            Some((v - bias) as i64)
        } else {
            None
        },
        None => None,
    }
}

proof fn lemma_digit_round_trip(d: nat)
    requires
        d < 16,
    ensures
        is_hex_char(digit_char(d)),
        hex_digit_value(digit_char(d)) == d,
{
}

/// The hexadecimal text of a value that fits in its width is all hex
/// digits and reads back as that value.
pub proof fn lemma_hex_text_value(n: nat, width: nat)
    requires
        n < pow16(width),
    ensures
        all_hex(hex_text(n, width)),
        hex_value(hex_text(n, width)) == n,
    decreases width,
{
    if width > 0 {
        let q = n / 16;
        assert(q < pow16((width - 1) as nat)) by (nonlinear_arith)
            requires n < 16 * pow16((width - 1) as nat), q == n / 16;
        lemma_hex_text_value(q, (width - 1) as nat);
        lemma_digit_round_trip(n % 16);
        let t = hex_text(q, (width - 1) as nat);
        let h = hex_text(n, width);
        assert(h == t.push(digit_char(n % 16)));
        assert(h.drop_last() =~= t);
        assert forall|i: int| 0 <= i < h.len() implies #[trigger] is_hex_char(h[i]) by {
            if i < t.len() {
                assert(h[i] == t[i]);
            }
        }
    }
}

/// Sixteen hex digits of a TOD clock value, read back with left or right
/// padding, give that value.
pub proof fn lemma_tod_hex_round_trip(v: u64, pad: Padding)
    requires
        pad != Padding::Intelligent,
    ensures
        tod_from_hex(hex_text(v as nat, 16), pad) == Some(Tod(v)),
{
    lemma_pow16_values();
    lemma_hex_text_value(v as nat, 16);
    crate::text::lemma_hex_text_len(v as nat, 16);
    let h = hex_text(v as nat, 16);
    assert(tod_shift(h, pad) == 0);
    assert(tod_padded(h, pad) =~= h);
}

/// `n` zero digits.
pub open spec fn zeros(n: nat) -> Seq<char> {
    Seq::new(n, |_i: int| '0')
}

/// The value of two strings of digits side by side.
pub proof fn lemma_hex_value_concat(a: Seq<char>, b: Seq<char>)
    ensures
        hex_value(a + b) == hex_value(a) * pow16(b.len()) + hex_value(b),
    decreases b.len(),
{
    if b.len() == 0 {
        assert(a + b =~= a);
        assert(pow16(0) == 1);
        assert(hex_value(b) == 0);
    } else {
        let b1 = b.drop_last();
        assert((a + b).drop_last() =~= a + b1);
        assert((a + b).last() == b.last());
        lemma_hex_value_concat(a, b1);
        let x = hex_value(a);
        let p = pow16(b1.len());
        let y = hex_value(b1);
        assert((x * p + y) * 16 == x * (16 * p) + y * 16) by (nonlinear_arith);
        assert(pow16(b.len()) == 16 * p);
        assert(hex_value(b) == y * 16 + hex_digit_value(b.last()));
        assert(hex_value(a + b) == hex_value(a + b1) * 16 + hex_digit_value(b.last()));
    }
}

/// Zero digits have the value zero.
proof fn lemma_hex_value_zeros(n: nat)
    ensures
        hex_value(zeros(n)) == 0,
    decreases n,
{
    if n > 0 {
        assert(zeros(n).drop_last() =~= zeros((n - 1) as nat));
        lemma_hex_value_zeros((n - 1) as nat);
    }
}

/// Filling out a hex TOD input of at most sixteen digits keeps its digits:
/// with left padding the value is that of the input, with right padding it
/// is multiplied by sixteen for each digit added on the right, and with
/// intelligent padding likewise once two zeros (three when the first digit
/// is c to f) stand on the left.
pub proof fn lemma_padding(s: Seq<char>, pad: Padding)
    requires
        all_hex(s),
        0 <= tod_shift(s, pad),
        tod_shift(s, pad) + s.len() <= 16,
    ensures
        tod_from_hex(s, pad) == Some(
            Tod((hex_value(s) * pow16((16 - tod_shift(s, pad) - s.len()) as nat)) as u64),
        ),
        pad == Padding::Left ==> tod_from_hex(s, pad) == Some(Tod(hex_value(s) as u64)),
{
    let k = tod_shift(s, pad) as nat;
    let m = (16 - k - s.len()) as nat;
    assert(tod_padded(s, pad) =~= zeros(k) + s + zeros(m));
    lemma_hex_value_concat(zeros(k) + s, zeros(m));
    lemma_hex_value_concat(zeros(k), s);
    lemma_hex_value_zeros(k);
    lemma_hex_value_zeros(m);
    assert(hex_value(zeros(k) + s) == hex_value(s)) by (nonlinear_arith)
        requires
            hex_value(zeros(k) + s) == hex_value(zeros(k)) * pow16(s.len()) + hex_value(s),
            hex_value(zeros(k)) == 0,
    ;
    if pad == Padding::Left {
        assert(m == 0);
        assert(pow16(0) == 1);
    }
}

/// Powers of sixteen.
pub open spec fn pow16(n: nat) -> nat
    decreases n,
{
    if n == 0 {
        1
    } else {
        16 * pow16((n - 1) as nat)
    }
}

proof fn lemma_pow16_grows(a: nat, b: nat)
    requires
        a <= b,
    ensures
        pow16(a) <= pow16(b),
    decreases b,
{
    if a < b {
        lemma_pow16_grows(a, (b - 1) as nat);
    }
}

proof fn lemma_pow16_values()
    ensures
        pow16(8) == 0x1_0000_0000,
        pow16(16) == 0x1_0000_0000_0000_0000,
{
    reveal_with_fuel(pow16, 17);
}

proof fn lemma_hex_value_bound(s: Seq<char>)
    ensures
        hex_value(s) < pow16(s.len()),
    decreases s.len(),
{
    if s.len() > 0 {
        lemma_hex_value_bound(s.drop_last());
        assert(hex_digit_value(s.last()) < 16);
    }
}

proof fn lemma_hex_value_prefix(s: Seq<char>, k: int)
    requires
        0 <= k <= s.len(),
    ensures
        hex_value(s.take(k)) <= hex_value(s),
    decreases s.len() - k,
{
    if k < s.len() {
        lemma_hex_value_prefix(s, k + 1);
        assert(s.take(k + 1).drop_last() =~= s.take(k));
    } else {
        assert(s.take(k) =~= s);
    }
}

/// The value of the digits `d` (those of `s`) read whole, if it fits in 32
/// bits.
fn whole_value_u32(d: &Vec<u64>, Ghost(s): Ghost<Seq<char>>) -> (r: Option<u32>)
    requires
        d@.len() == s.len(),
        forall|i: int| 0 <= i < s.len() ==> #[trigger] d@[i] == hex_digit_value(s[i]),
    ensures
        r == if hex_value(s) <= u32::MAX {
            Some(hex_value(s) as u32)
        } else {
            None
        },
{
    let n = d.len();
    let mut v: u64 = 0;
    let mut i: usize = 0;
    while i < n
        invariant
            i <= n,
            n == s.len(),
            d@.len() == s.len(),
            forall|j: int| 0 <= j < s.len() ==> #[trigger] d@[j] == hex_digit_value(s[j]),
            v == hex_value(s.take(i as int)),
            v <= u32::MAX,
        decreases n - i,
    {
        proof {
            assert(s.take(i as int + 1).drop_last() =~= s.take(i as int));
            assert(d@[i as int] < 16);
        }
        v = v * 16 + d[i];
        i = i + 1;
        if v > u32::MAX as u64 {
            proof {
                lemma_hex_value_prefix(s, i as int);
            }
            return None;
        }
    }
    proof {
        assert(s.take(n as int) =~= s);
    }
    Some(v as u32)
}

proof fn lemma_dec_value_prefix(s: Seq<char>, k: int)
    requires
        0 <= k <= s.len(),
    ensures
        dec_value(s.take(k)) <= dec_value(s),
    decreases s.len() - k,
{
    if k < s.len() {
        lemma_dec_value_prefix(s, k + 1);
        assert(s.take(k + 1).drop_last() =~= s.take(k));
    } else {
        assert(s.take(k) =~= s);
    }
}

/// The digit values of a text, if every character is a hex digit.
fn hex_digits(s: &str) -> (r: Option<Vec<u64>>)
    ensures
        r is Some <==> all_hex(s@),
        r matches Some(d) ==> d@.len() == s@.len() && forall|i: int|
            0 <= i < s@.len() ==> #[trigger] d@[i] == hex_digit_value(s@[i]),
{
    let n = s.unicode_len();
    let mut d: Vec<u64> = Vec::new();
    let mut i: usize = 0;
    while i < n
        invariant
            n == s@.len(),
            i <= n,
            d@.len() == i,
            forall|j: int| 0 <= j < i ==> is_hex_char(s@[j]),
            forall|j: int| 0 <= j < i ==> #[trigger] d@[j] == hex_digit_value(s@[j]),
        decreases n - i,
    {
        let c = s.get_char(i);
        let u = c as u32;
        if 48 <= u && u <= 57 {
            d.push((u - 48) as u64);
        } else if 97 <= u && u <= 102 {
            d.push((u - 87) as u64);
        } else if 65 <= u && u <= 70 {
            d.push((u - 55) as u64);
        } else {
            assert(!is_hex_char(s@[i as int]));
            return None;
        }
        i = i + 1;
    }
    Some(d)
}

/// The value of the digits `d` (those of `s`) placed from position `k` in a
/// field of `width` digits filled with zeros.
fn shifted_value(d: &Vec<u64>, Ghost(s): Ghost<Seq<char>>, k: i128, width: usize) -> (r: u64)
    requires
        width <= 16,
        d@.len() == s.len(),
        forall|i: int| 0 <= i < s.len() ==> #[trigger] d@[i] == hex_digit_value(s[i]),
    ensures
        r == hex_value(shifted(s, k as int, width as nat)),
{
    let ghost p = shifted(s, k as int, width as nat);
    let n = d.len();
    let mut v: u64 = 0;
    let mut j: usize = 0;
    while j < width
        invariant
            j <= width <= 16,
            n == s.len(),
            d@.len() == s.len(),
            forall|i: int| 0 <= i < s.len() ==> #[trigger] d@[i] == hex_digit_value(s[i]),
            p == shifted(s, k as int, width as nat),
            v == hex_value(p.take(j as int)),
        decreases width - j,
    {
        let jj = j as i128;
        let digit: u64 = if k <= jj && jj < k + n as i128 {
            d[(jj - k) as usize]
        } else {
            0
        };
        proof {
            assert(p.take(j as int + 1).drop_last() =~= p.take(j as int));
            assert(digit == hex_digit_value(p[j as int]));
            lemma_hex_value_bound(p.take(j as int + 1));
            lemma_pow16_grows(j as nat + 1, 16);
            lemma_pow16_values();
        }
        v = v * 16 + digit;
        j = j + 1;
    }
    proof {
        assert(p.take(width as int) =~= p);
    }
    v
}

impl Toffset {
    /// The offset as `+hh:mm`, or `No offset` when absent.
    pub fn text(&self) -> (r: String)
        ensures
            r@ == offset_text(*self),
    {
        match self.0 {
            None => String::from_str("No offset"),
            Some(x) => {
                let size = magnitude(x);
                let mut s = String::new();
                if x < 0 {
                    push_char(&mut s, '-');
                } else {
                    push_char(&mut s, '+');
                }
                let mut h = String::new();
                push_dec(&mut h, size / 3600);
                push_padded(&mut s, &h, 2, '0');
                push_char(&mut s, ':');
                let mut m = String::new();
                push_dec(&mut m, (size / 60) % 60);
                push_padded(&mut s, &m, 2, '0');
                proof {
                    assert(s@ =~= offset_text(*self));
                }
                s
            },
        }
    }
}

/// Division rounded toward zero.
pub open spec fn trunc_div(a: int, b: int) -> int {
    if a >= 0 {
        a / b
    } else {
        -((-a) / b)
    }
}

/// Absolute value.
pub open spec fn abs(a: int) -> int {
    if a < 0 {
        -a
    } else {
        a
    }
}

/// Division of a signed value by a positive one, rounded toward zero.
fn tdiv(a: i64, b: i64) -> (r: i64)
    requires
        b > 1,
    ensures
        r == trunc_div(a as int, b as int),
{
    let q: u64 = magnitude(a) / (b as u64);
    proof {
        let m = abs(a as int);
        assert(m / (b as int) <= m / 2) by (nonlinear_arith)
            requires m >= 0, b > 1;
    }
    if a >= 0 {
        q as i64
    } else {
        -(q as i64)
    }
}

/// Text of an offset: its sign, whole hours (at least two digits), a colon
/// and two digits of the remaining whole minutes; `No offset` when absent.
pub open spec fn offset_text(o: Toffset) -> Seq<char> {
    match o.0 {
        None => "No offset"@,
        Some(x) => {
            let size = abs(x as int);
            seq![if x < 0 { '-' } else { '+' }] + pad_left(dec_text((size / 3600) as nat), 2, '0')
                + seq![':'] + pad_left(dec_text(((size / 60) % 60) as nat), 2, '0')
        },
    }
}

impl PerpMinuteClock {
    /// An absent value.
    pub fn new() -> (r: PerpMinuteClock)
        ensures
            r.0 is None,
    {
        PerpMinuteClock(None)
    }

    /// The value `tval`.
    pub fn new_from_int(tval: u32) -> (r: PerpMinuteClock)
        ensures
            r.0 == Some(tval),
    {
        PerpMinuteClock(Some(tval))
    }

    /// The value of a hex text, filled with zeros on the right to eight
    /// digits; a longer text is read whole and is absent beyond 32 bits. Absent
    /// unless every character is a hex digit.
    pub fn new_from_hex(hex: &str) -> (r: PerpMinuteClock)
        ensures
            r.0 == pmc_from_hex(hex@),
    {
        match hex_digits(hex) {
            None => PerpMinuteClock(None),
            Some(d) => {
                if d.len() > 8 {
                    return PerpMinuteClock(whole_value_u32(&d, Ghost(hex@)));
                }
                let v = shifted_value(&d, Ghost(hex@), 0, 8);
                proof {
                    lemma_hex_value_bound(shifted(hex@, 0, 8));
                    lemma_pow16_values();
                }
                PerpMinuteClock(Some(v as u32))
            },
        }
    }

    /// Eight lower-case hex digits, or dashes when absent.
    pub fn text(&self) -> (r: String)
        ensures
            r@ == pmc_text(*self),
    {
        match self.0 {
            Some(x) => {
                let mut s = String::new();
                push_hex(&mut s, x as u64, 8);
                proof {
                    assert(s@ =~= pmc_text(*self));
                }
                s
            },
            None => String::from_str("--------"),
        }
    }
}

/// Text of a Perpetual Minute Clock value.
pub open spec fn pmc_text(p: PerpMinuteClock) -> Seq<char> {
    match p.0 {
        Some(x) => hex_text(x as nat, 8),
        None => "--------"@,
    }
}

impl UnixSecondsClock {
    /// An absent value.
    pub fn new() -> (r: UnixSecondsClock)
        ensures
            r.0 is None,
    {
        UnixSecondsClock(None)
    }

    /// The value `tval`.
    pub fn new_from_int(tval: i64) -> (r: UnixSecondsClock)
        ensures
            r.0 == Some(tval),
    {
        UnixSecondsClock(Some(tval))
    }

    /// The value of a signed decimal text less `offset`; absent when the text
    /// is no such number or the difference does not fit.
    pub fn new_from_decimal(dec: &str, offset: &i64) -> (r: UnixSecondsClock)
        ensures
            r.0 == usc_from_decimal(dec@, *offset as int),
    {
        match read_decimal(dec) {
            Some(n) => UnixSecondsClock(n.checked_sub(*offset)),
            None => UnixSecondsClock(None),
        }
    }

    /// Right-justified decimal in fourteen columns, or `--` when absent.
    pub fn text(&self) -> (r: String)
        ensures
            r@ == usc_text(*self),
    {
        match self.0 {
            Some(x) => {
                let t = signed_string(x);
                let mut s = String::new();
                push_padded(&mut s, &t, 14, ' ');
                proof {
                    assert(s@ =~= usc_text(*self));
                }
                s
            },
            None => String::from_str("--"),
        }
    }
}

/// Text of a Unix Seconds Clock value in a text line.
pub open spec fn usc_text(u: UnixSecondsClock) -> Seq<char> {
    match u.0 {
        Some(x) => pad_left(signed_text(x as int), 14, ' '),
        None => "--"@,
    }
}

/// Text of a Unix Seconds Clock value in a CSV row.
pub open spec fn usc_csv_text(u: UnixSecondsClock) -> Seq<char> {
    match u.0 {
        Some(x) => signed_text(x as int),
        None => "--"@,
    }
}

/// Reads a signed 64-bit decimal integer: an optional sign, then one or more
/// digits.
fn read_decimal(s: &str) -> (r: Option<i64>)
    ensures
        r == decimal_value(s@),
{
    let n = s.unicode_len();
    let ghost sv = s@;
    let mut start: usize = 0;
    let mut neg = false;
    if n > 0 {
        let c0 = s.get_char(0);
        if c0 == '-' {
            start = 1;
            neg = true;
        } else if c0 == '+' {
            start = 1;
        }
    }
    let ghost digits = sv.skip(start as int);
    proof {
        assert(start == 0 ==> digits =~= sv);
    }
    if start >= n {
        return None;
    }
    let limit: u128 = 0x8000_0000_0000_0000;
    let mut acc: u128 = 0;
    let mut i: usize = start;
    while i < n
        invariant
            start <= i <= n,
            n == sv.len(),
            sv == s@,
            digits == sv.skip(start as int),
            limit == 0x8000_0000_0000_0000,
            start <= 1,
            (start == 1) == (sv.len() > 0 && (sv[0] == '-' || sv[0] == '+')),
            neg == (start == 1 && sv[0] == '-'),
            acc <= limit,
            forall|j: int| 0 <= j < i - start ==> #[trigger] is_dec_char(digits[j]),
            acc == dec_value(digits.take(i - start)),
        decreases n - i,
    {
        let c = s.get_char(i);
        let u = c as u32;
        if u < 48 || u > 57 {
            assert(!is_dec_char(digits[i - start]));
            return None;
        }
        proof {
            assert(digits.take(i - start + 1).drop_last() =~= digits.take(i - start));
        }
        acc = acc * 10 + (u - 48) as u128;
        i = i + 1;
        assert(acc == dec_value(digits.take(i - start)));
        if acc > limit {
            proof {
                lemma_dec_value_prefix(digits, i - start);
                assert(dec_value(digits) > 0x8000_0000_0000_0000);
                assert(start == 0 ==> digits =~= sv);
            }
            return None;
        }
    }
    proof {
        assert(digits.take(n - start) =~= digits);
    }
    if neg {
        Some((-(acc as i128)) as i64)
    } else if acc < limit {
        Some(acc as i64)
    } else {
        None
    }
}

impl Tod {
    /// The clock value `tval`.
    pub fn new(tval: u64) -> (r: Tod)
        ensures
            r.0 == tval,
    {
        Tod(tval)
    }

    /// The clock value of a hex text, filled out to sixteen digits by the
    /// padding rule; nothing unless every character is a hex digit.
    pub fn new_from_hex(hex: &str, pad: &Padding) -> (r: Option<Tod>)
        ensures
            r == tod_from_hex(hex@, *pad),
    {
        match hex_digits(hex) {
            None => None,
            Some(d) => {
                let n = d.len();
                let k: i128 = match *pad {
                    Padding::Left => 16 - n as i128,
                    Padding::Right => 0,
                    Padding::Intelligent => if n > 0 && d[0] >= 12 {
                        3
                    } else {
                        2
                    },
                };
                let v = shifted_value(&d, Ghost(hex@), k, 16);
                Some(Tod(v))
            },
        }
    }

    /// The sixteen hex digits grouped as `xxx xxxxxxxx xxxxx---`: the epoch
    /// index extended on the left, then the traditional 64-bit clock.
    pub fn text(&self) -> (r: String)
        ensures
            r@ == tod_text(*self),
    {
        let mut h = String::new();
        push_hex(&mut h, self.0, 16);
        proof {
            assert(h@ =~= hex_text(self.0 as nat, 16));
        }
        let hs = h.as_str();
        proof {
            crate::text::lemma_hex_text_len(self.0 as nat, 16);
        }
        let mut s = String::new();
        s.append(hs.substring_char(0, 3));
        push_char(&mut s, ' ');
        s.append(hs.substring_char(3, 11));
        push_char(&mut s, ' ');
        s.append(hs.substring_char(11, 16));
        s.append("---");
        proof {
            assert(s@ =~= tod_text(*self));
        }
        s
    }
}

/// Text of a TOD clock value.
pub open spec fn tod_text(t: Tod) -> Seq<char> {
    let h = hex_text(t.0 as nat, 16);
    h.subrange(0, 3) + seq![' '] + h.subrange(3, 11) + seq![' '] + h.subrange(11, 16) + "---"@
}

/// Fills out a partial calendar date and time (`YYYY-MM-DD@HH:MM:SS.ffffff`).
pub const ISO_PAD: &'static str = "1900-01-01@00:00:00.000000";

/// Fills out a partial ordinal date and time (`YYYY.DDD@HH:MM:SS.ffffff`).
pub const ORDINAL_PAD: &'static str = "1900.001@00:00:00.000000";

/// The word `NOW`, in any case.
pub open spec fn is_now(s: Seq<char>) -> bool {
    &&& s.len() == 3
    &&& s[0] == 'N' || s[0] == 'n'
    &&& s[1] == 'O' || s[1] == 'o'
    &&& s[2] == 'W' || s[2] == 'w'
}

/// An input in the ordinal form: its fifth character is a dot.
pub open spec fn is_ordinal_input(s: Seq<char>) -> bool {
    s.len() > 4 && s[4] == '.'
}

/// A partial date and time filled out on the right from its form's template.
pub open spec fn padded_date(s: Seq<char>) -> Seq<char> {
    let pad = if is_ordinal_input(s) { ORDINAL_PAD@ } else { ISO_PAD@ };
    s + pad.skip(if s.len() < pad.len() { s.len() as int } else { pad.len() as int })
}

/// The input layout of a date and time's form.
pub open spec fn date_layout(s: Seq<char>) -> Seq<char> {
    if is_ordinal_input(s) { ORDINAL_INPUT@ } else { ISO_INPUT@ }
}

/// The instant that a date and time input other than `NOW` spells, once
/// filled out, if chrono reads one in the calendar's range.
pub open spec fn date_input(s: Seq<char>) -> Option<CalTime> {
    match parsed_datetime(padded_date(s), date_layout(s)) {
        Some(m) => if in_calendar(m as int) {
            Some(CalTime { micros: m })
        } else {
            None
        },
        None => None,
    }
}

/// The instant of a date and time input: `now` for `NOW` (in any case),
/// when it lies in the calendar's range; otherwise the instant it spells.
pub open spec fn date_of_input(s: Seq<char>, now: CalTime) -> Option<CalTime> {
    if is_now(s) {
        if now.valid() {
            Some(now)
        } else {
            None
        }
    } else {
        date_input(s)
    }
}

/// Reads a date and time after filling it out on the right. `NOW`, in any
/// case, is the current time `now`; `YYYY.DDD[@HH:MM:SS[.ffffff]]` is an ordinal
/// date, anything else is read as `YYYY-MM-DD[@HH:MM:SS[.ffffff]]`.
pub fn finddate(ds: String, now: CalTime) -> (r: Option<CalTime>)
    ensures
        r == date_of_input(ds@, now),
{
    let n = ds.as_str().unicode_len();
    if n == 3 {
        let c0 = ds.as_str().get_char(0);
        let c1 = ds.as_str().get_char(1);
        let c2 = ds.as_str().get_char(2);
        if (c0 == 'N' || c0 == 'n') && (c1 == 'O' || c1 == 'o') && (c2 == 'W' || c2 == 'w') {
            if MIN_MICROS <= now.micros && now.micros <= MAX_MICROS {
                return Some(now);
            } else {
                return None;
            }
        }
    }
    let ordinal = n > 4 && ds.as_str().get_char(4) == '.';
    let (pad, fmt) = if ordinal {
        (ORDINAL_PAD, ORDINAL_INPUT)
    } else {
        (ISO_PAD, ISO_INPUT)
    };
    let plen = pad.unicode_len();
    let xlen = if n < plen {
        n
    } else {
        plen
    };
    let full = ds.concat(pad.substring_char(xlen, plen));
    let ghost sv = full@;
    proof {
        assert(sv =~= padded_date(ds@));
    }
    match parse_datetime(full.as_str(), fmt) {
        Some(m) => if MIN_MICROS <= m && m <= MAX_MICROS {
            Some(CalTime { micros: m })
        } else {
            None
        },
        None => None,
    }
}

/// The current date and time `now`, written as a date and time input.
pub fn defaultdate(now: CalTime) -> (r: String)
    requires
        now.valid(),
    ensures
        r@ == datetime_text(now.micros as int, NOW_TEXT@),
{
    format_datetime(now.micros, NOW_TEXT)
}

/// The lines that a conversion produces, as texts.
pub open spec fn lines(v: Seq<String>) -> Seq<Seq<char>> {
    v.map_values(|s: String| s@)
}

/// The three offsets of a work area, in output order.
pub open spec fn offsets(w: TodInfo) -> Seq<Toffset> {
    seq![w.goff, w.loff, w.aoff]
}

/// The leap-second count for a date under the work area's discipline.
pub open spec fn day_count(w: TodInfo, t: CalTime) -> i64 {
    if w.utc {
        count_for_day(w.lstab@, day_of(t.micros as int))
    } else {
        0
    }
}

/// The leap-second count for a TOD clock value under the work area's
/// discipline.
pub open spec fn tod_count(w: TodInfo, t: Tod) -> i64 {
    if w.utc {
        count_for_tod(w.lstab@, t.0 as int)
    } else {
        0
    }
}

/// The TOD clock value for whole seconds `zsec` and microseconds `zmic`
/// since 1900-01-01, seen at offset `x`, with `lsec` leap seconds and the
/// discipline's bias `tai`; nothing when it falls before 1900 or beyond 64
/// bits.
pub open spec fn clock_for(zsec: int, zmic: int, x: int, lsec: int, tai: int) -> Option<u64> {
    let c = zsec + x + lsec + tai;
    if 0 <= c && c * 1_000_000 + zmic <= u64::MAX {
        Some((c * 1_000_000 + zmic) as u64)
    } else {
        None
    }
}

/// The instant at offset `x` of the instant `zdate` of a TOD clock value,
/// less `lsec` leap seconds and the discipline's bias `tai`; nothing beyond
/// the calendar's range.
pub open spec fn date_for(zdate: int, x: int, lsec: int, tai: int) -> Option<i64> {
    let d = zdate + (x - lsec - tai) * 1_000_000;
    if in_calendar(d) {
        Some(d as i64)
    } else {
        None
    }
}

/// The message for a result that falls out of range at an offset.
pub open spec fn range_error(a: Seq<char>, off: Toffset) -> Seq<char> {
    "Date is out of range: "@ + a + seq![' '] + offset_text(off)
}

/// What each line of a conversion starts from: the instant of a TOD clock
/// value (each line sets the date), or whole seconds and microseconds since
/// 1900-01-01 of a date (each line sets the TOD clock value).
#[derive(Clone, Copy, Debug)]
pub enum RowBase {
    Clock(i64),
    Date(i64, u64),
}

/// The work area of the line for offset `x`, or nothing when it falls out
/// of range.
pub open spec fn row_step(w: TodInfo, base: RowBase, x: i64) -> Option<TodInfo> {
    match base {
        RowBase::Clock(zdate) => match date_for(zdate as int, x as int, w.lsec as int, w.tai as int) {
            Some(d) => Some(
                TodInfo {
                    date: CalTime { micros: d },
                    pmc: PerpMinuteClock(pmc_of(d as int)),
                    usc: UnixSecondsClock(Some(usc_of(d as int))),
                    ..w
                },
            ),
            None => None,
        },
        RowBase::Date(zsec, zmic) => match clock_for(
            zsec as int,
            zmic as int,
            x as int,
            w.lsec as int,
            w.tai as int,
        ) {
            Some(t) => Some(TodInfo { tod: Tod(t), ..w }),
            None => None,
        },
    }
}

/// The lines, and the work area after them, of a conversion that takes each
/// present offset of `offs` in turn, stopping at the first whose result falls
/// out of range.
pub open spec fn offset_lines(w: TodInfo, offs: Seq<Toffset>, base: RowBase, a: Seq<char>) -> (
    TodInfo,
    Seq<Seq<char>>,
)
    decreases offs.len(),
{
    if offs.len() == 0 {
        (w, Seq::empty())
    } else {
        match offs[0].0 {
            None => offset_lines(w, offs.drop_first(), base, a),
            Some(x) => match row_step(w, base, x) {
                Some(w1) => {
                    let rest = offset_lines(w1, offs.drop_first(), base, a);
                    (rest.0, seq![line_text(w1, offs[0])] + rest.1)
                },
                None => (w, seq![range_error(a, offs[0])]),
            },
        }
    }
}

/// The message for a result out of range at an offset.
fn range_message(a: &str, off: Toffset) -> (r: String)
    ensures
        r@ == range_error(a@, off),
{
    let mut m = String::from_str("Date is out of range: ");
    m.append(a);
    push_char(&mut m, ' ');
    m.append(off.text().as_str());
    proof {
        assert(m@ =~= range_error(a@, off));
    }
    m
}

/// Takes offset `x`: sets the date or the TOD clock value and writes the
/// line of offset `off`; the message and no change when it falls out of
/// range.
fn row(a: &str, todwork: &mut TodInfo, base: RowBase, off: Toffset, x: i64) -> (r: Result<String, String>)
    requires
        old(todwork).wf(),
    ensures
        final(todwork).wf(),
        match row_step(*old(todwork), base, x) {
            Some(w1) => *final(todwork) == w1 && (r matches Ok(line) && line@ == line_text(w1, off)),
            None => *final(todwork) == *old(todwork) && (r matches Err(m) && m@ == range_error(a@, off)),
        },
{
    match base {
        RowBase::Clock(zdate) => {
            let d: i128 = zdate as i128 + (x as i128 - todwork.lsec as i128 - todwork.tai as i128)
                * 1_000_000;
            if d < MIN_MICROS as i128 || d > MAX_MICROS as i128 {
                return Err(range_message(a, off));
            }
            todwork.date = CalTime { micros: d as i64 };
            todwork.pmc = findpmc(todwork);
            todwork.usc = findusc(todwork);
        },
        RowBase::Date(zsec, zmic) => {
            let c: i128 = zsec as i128 + x as i128 + todwork.lsec as i128 + todwork.tai as i128;
            if c < 0 || c * 1_000_000 + zmic as i128 > u64::MAX as i128 {
                return Err(range_message(a, off));
            }
            todwork.tod = Tod((c * 1_000_000 + zmic as i128) as u64);
        },
    }
    Ok(todwork.text(off))
}

/// One line per present offset, in output order.
fn rows(a: &str, todwork: &mut TodInfo, base: RowBase) -> (r: Vec<String>)
    requires
        old(todwork).wf(),
    ensures
        final(todwork).wf(),
        (*final(todwork), lines(r@)) == offset_lines(*old(todwork), offsets(*old(todwork)), base, a@),
{
    let offs: [Toffset; 3] = [todwork.goff, todwork.loff, todwork.aoff];
    let ghost w0 = *todwork;
    let ghost total = offset_lines(w0, offsets(w0), base, a@);
    let mut result: Vec<String> = Vec::new();
    proof {
        assert(offs@ =~= offsets(w0));
        assert(offs@.skip(0) =~= offs@);
        assert(lines(result@) =~= Seq::<Seq<char>>::empty());
        assert(total.1 =~= lines(result@) + total.1);
    }
    let mut i: usize = 0;
    while i < 3
        invariant
            i <= 3,
            offs@ == offsets(w0),
            w0 == *old(todwork),
            todwork.wf(),
            total == offset_lines(w0, offsets(w0), base, a@),
            total.0 == offset_lines(*todwork, offs@.skip(i as int), base, a@).0,
            total.1 == lines(result@) + offset_lines(*todwork, offs@.skip(i as int), base, a@).1,
        decreases 3 - i,
    {
        let off = offs[i];
        let ghost rest = offs@.skip(i as int);
        let ghost before = result@;
        let ghost wb = *todwork;
        proof {
            assert(rest[0] == off);
            assert(rest.drop_first() =~= offs@.skip(i as int + 1));
        }
        match off.0 {
            None => {},
            Some(x) => {
                match row(a, todwork, base, off, x) {
                    Ok(line) => {
                        result.push(line);
                        proof {
                            assert(lines(result@) =~= lines(before) + seq![line@]);
                        }
                    },
                    Err(m) => {
                        result.push(m);
                        proof {
                            assert(lines(result@) =~= lines(before) + seq![m@]);
                            assert(offset_lines(wb, rest, base, a@) == (wb, seq![m@]));
                        }
                        return result;
                    },
                }
            },
        }
        i = i + 1;
    }
    proof {
        assert(offs@.skip(3) =~= Seq::<Toffset>::empty());
        assert(lines(result@) =~= total.1);
    }
    result
}

/// A message naming the raw input, quoted as `{:?}` writes it.
fn message(head: &str, a: &str) -> (r: String)
    ensures
        r@ == head@ + debug_text(a@),
{
    let mut m = String::from_str(head);
    m.append(quoted(a).as_str());
    m
}

/// What a TOD clock input gives: the work area after it and its lines.
pub open spec fn tod_outcome(w: TodInfo, a: Seq<char>) -> (TodInfo, Seq<Seq<char>>) {
    match tod_from_hex(a, w.pad) {
        None => (w, seq!["TOD value is invalid: "@ + debug_text(a)]),
        Some(t) => {
            let w1 = TodInfo { tod: t, lsec: tod_count(w, t), ..w };
            let zdate = TOD_EPOCH_MICROS + t.0;
            if !in_calendar(zdate) {
                (w1, seq!["Can't handle this TOD value: "@ + debug_text(a)])
            } else {
                offset_lines(w1, offsets(w1), RowBase::Clock(zdate as i64), a)
            }
        },
    }
}

/// What the instant `t` of a date and time input gives.
pub open spec fn date_outcome(w: TodInfo, t: CalTime, a: Seq<char>) -> (TodInfo, Seq<Seq<char>>) {
    let m = t.micros as int;
    let w1 = TodInfo {
        date: t,
        lsec: day_count(w, t),
        pmc: PerpMinuteClock(pmc_of(m)),
        usc: UnixSecondsClock(Some(usc_of(m))),
        ..w
    };
    offset_lines(w1, offsets(w1), RowBase::Date(tod_secs(m) as i64, tod_subsec(m) as u64), a)
}

/// What a date and time input gives, `now` being the current time.
pub open spec fn datetime_outcome(w: TodInfo, a: Seq<char>, now: CalTime) -> (
    TodInfo,
    Seq<Seq<char>>,
) {
    match date_of_input(a, now) {
        None => (w, seq!["Date "@ + debug_text(a) + " is invalid"@]),
        Some(t) => date_outcome(w, t, a),
    }
}

/// What a Perpetual Minute Clock input gives.
pub open spec fn perpetual_outcome(w: TodInfo, a: Seq<char>) -> (TodInfo, Seq<Seq<char>>) {
    let p = pmc_from_hex(a);
    let w1 = TodInfo { pmc: PerpMinuteClock(p), ..w };
    match p {
        None => (w1, seq!["Minute value is invalid: "@ + debug_text(a)]),
        Some(v) => {
            let d = PMC_EPOCH_MICROS + v * 60_000_000;
            if !in_calendar(d) {
                (w1, seq!["Can't handle this pmc value: "@ + debug_text(a)])
            } else {
                let t = CalTime { micros: d as i64 };
                let w2 = TodInfo {
                    date: t,
                    usc: UnixSecondsClock(Some(usc_of(d))),
                    lsec: day_count(w1, t),
                    ..w1
                };
                offset_lines(w2, offsets(w2), RowBase::Date(tod_secs(d) as i64, tod_subsec(d) as u64), a)
            }
        },
    }
}

/// What a Unix seconds input gives; with `csec`, the input counts from
/// 1900-01-01 instead.
pub open spec fn unix_outcome(w: TodInfo, a: Seq<char>, csec: bool) -> (TodInfo, Seq<Seq<char>>) {
    let u = usc_from_decimal(a, if csec { CENTURY_SECS as int } else { 0 });
    let w1 = TodInfo { usc: UnixSecondsClock(u), ..w };
    match u {
        None => (w1, seq!["Seconds value is invalid: "@ + debug_text(a)]),
        Some(v) => {
            let d = v * 1_000_000;
            if !in_calendar(d) {
                (w1, seq!["Can't handle this seconds value: "@ + debug_text(a)])
            } else {
                let t = CalTime { micros: d as i64 };
                let w2 = TodInfo { date: t, pmc: PerpMinuteClock(pmc_of(d)), lsec: day_count(w1, t), ..w1 };
                offset_lines(w2, offsets(w2), RowBase::Date(tod_secs(d) as i64, tod_subsec(d) as u64), a)
            }
        },
    }
}

/// Uses a TOD clock value (hex) to calculate the others, for up to three
/// time zone offsets.
pub fn from_tod(a: &str, todwork: &mut TodInfo) -> (r: Vec<String>)
    requires
        old(todwork).wf(),
    ensures
        final(todwork).wf(),
        (*final(todwork), lines(r@)) == tod_outcome(*old(todwork), a@),
{
    match Tod::new_from_hex(a, &todwork.pad) {
        None => {
            let v = vec![message("TOD value is invalid: ", a)];
            proof {
                assert(lines(v@) =~= tod_outcome(*old(todwork), a@).1);
            }
            return v;
        },
        Some(x) => {
            todwork.tod = x;
        },
    }
    todwork.lsec = todwork.lstab.ls_search_tod(todwork);
    if todwork.tod.0 > (MAX_MICROS - TOD_EPOCH_MICROS) as u64 {
        let v = vec![message("Can't handle this TOD value: ", a)];
        proof {
            assert(lines(v@) =~= tod_outcome(*old(todwork), a@).1);
        }
        return v;
    }
    let zdate: i64 = TOD_EPOCH_MICROS + todwork.tod.0 as i64;
    rows(a, todwork, RowBase::Clock(zdate))
}

/// Uses the instant of a date and time input to calculate the others, for
/// up to three time zone offsets.
pub fn from_caltime(t: CalTime, a: &str, todwork: &mut TodInfo) -> (r: Vec<String>)
    requires
        old(todwork).wf(),
        t.valid(),
    ensures
        final(todwork).wf(),
        (*final(todwork), lines(r@)) == date_outcome(*old(todwork), t, a@),
{
    todwork.date = t;
    todwork.lsec = todwork.lstab.ls_search_day(todwork);
    let (zsec, zmic) = get_sec_mic(todwork);
    todwork.pmc = findpmc(todwork);
    todwork.usc = findusc(todwork);
    rows(a, todwork, RowBase::Date(zsec, zmic))
}

/// Uses a date and time value to calculate the others, for up to three
/// time zone offsets; `now` is the current time, which `NOW` stands for.
pub fn from_datetime(a: &str, todwork: &mut TodInfo, now: CalTime) -> (r: Vec<String>)
    requires
        old(todwork).wf(),
    ensures
        final(todwork).wf(),
        (*final(todwork), lines(r@)) == datetime_outcome(*old(todwork), a@, now),
{
    match finddate(String::from_str(a), now) {
        None => {
            let mut m = message("Date ", a);
            m.append(" is invalid");
            let v = vec![m];
            proof {
                assert(lines(v@) =~= datetime_outcome(*old(todwork), a@, now).1);
            }
            v
        },
        Some(t) => from_caltime(t, a, todwork),
    }
}

/// Uses a Perpetual Minute Clock value (hex) to calculate the others, for
/// up to three time zone offsets.
pub fn from_perpetual(a: &str, todwork: &mut TodInfo) -> (r: Vec<String>)
    requires
        old(todwork).wf(),
    ensures
        final(todwork).wf(),
        (*final(todwork), lines(r@)) == perpetual_outcome(*old(todwork), a@),
{
    todwork.pmc = PerpMinuteClock::new_from_hex(a);
    let pmc = match todwork.pmc.0 {
        None => {
            let v = vec![message("Minute value is invalid: ", a)];
            proof {
                assert(lines(v@) =~= perpetual_outcome(*old(todwork), a@).1);
            }
            return v;
        },
        Some(x) => x,
    };
    let d: i128 = PMC_EPOCH_MICROS as i128 + pmc as i128 * 60_000_000;
    if d < MIN_MICROS as i128 || d > MAX_MICROS as i128 {
        let v = vec![message("Can't handle this pmc value: ", a)];
        proof {
            assert(lines(v@) =~= perpetual_outcome(*old(todwork), a@).1);
        }
        return v;
    }
    todwork.date = CalTime { micros: d as i64 };
    todwork.usc = findusc(todwork);
    todwork.lsec = todwork.lstab.ls_search_day(todwork);
    let (zsec, zmic) = get_sec_mic(todwork);
    rows(a, todwork, RowBase::Date(zsec, zmic))
}

/// Uses a Unix seconds value (decimal) to calculate the others, for up to
/// three time zone offsets; with `csec`, the value counts seconds from
/// 1900-01-01 instead of 1970-01-01.
pub fn from_unix(a: &str, todwork: &mut TodInfo, csec: &bool) -> (r: Vec<String>)
    requires
        old(todwork).wf(),
    ensures
        final(todwork).wf(),
        (*final(todwork), lines(r@)) == unix_outcome(*old(todwork), a@, *csec),
{
    let csecoff: i64 = if *csec {
        CENTURY_SECS
    } else {
        0
    };
    todwork.usc = UnixSecondsClock::new_from_decimal(a, &csecoff);
    let tusc = match todwork.usc.0 {
        None => {
            let v = vec![message("Seconds value is invalid: ", a)];
            proof {
                assert(lines(v@) =~= unix_outcome(*old(todwork), a@, *csec).1);
            }
            return v;
        },
        Some(x) => x,
    };
    let d: i128 = tusc as i128 * 1_000_000;
    if d < MIN_MICROS as i128 || d > MAX_MICROS as i128 {
        let v = vec![message("Can't handle this seconds value: ", a)];
        proof {
            assert(lines(v@) =~= unix_outcome(*old(todwork), a@, *csec).1);
        }
        return v;
    }
    todwork.date = CalTime { micros: d as i64 };
    todwork.pmc = findpmc(todwork);
    todwork.lsec = todwork.lstab.ls_search_day(todwork);
    let (zsec, zmic) = get_sec_mic(todwork);
    rows(a, todwork, RowBase::Date(zsec, zmic))
}


/// The options of a run, as the command line gives them: the input kind
/// (`reverse` for dates, `unix`, `csec` for seconds since 1900, `pmc`), the
/// source, the padding (`pl`, `pr`), the local and alternate offsets, `ng`
/// to drop the zero offset, the discipline (`lor`, `tai`) and `csv` output.
#[derive(Clone, Copy, Debug)]
pub struct RunOptions {
    pub reverse: bool,
    pub unix: bool,
    pub csec: bool,
    pub pmc: bool,
    pub clipboard: bool,
    pub infile: bool,
    pub pl: bool,
    pub pr: bool,
    pub loff: Toffset,
    pub aoff: Toffset,
    pub ng: bool,
    pub lor: bool,
    pub tai: bool,
    pub csv: bool,
}

/// The input kind that the options select; a later option in the order
/// dates, Unix, 1900 seconds, PMC overrides an earlier one.
pub open spec fn runtype_of(o: RunOptions) -> TodCalc {
    if o.pmc {
        TodCalc::FromPMC
    } else if o.csec {
        TodCalc::FromCsec
    } else if o.unix {
        TodCalc::FromUnix
    } else if o.reverse {
        TodCalc::FromDateTime
    } else {
        TodCalc::FromTod
    }
}

/// The zero offset, dropped when asked and another offset is given.
pub open spec fn global_offset(o: RunOptions) -> Toffset {
    if o.ng && !(o.loff.0 is None && o.aoff.0 is None) {
        Toffset(None)
    } else {
        Toffset(Some(0))
    }
}

impl TodInfo {
    /// Builds the work area of a run from its options. An alternate offset
    /// equal to the global or the local one is dropped, and so is a local
    /// offset equal to the global one, so that no two lines repeat.
    pub fn new_from_options(opts: &RunOptions) -> (r: TodInfo)
        ensures
            r.wf(),
            r.lstab@ == leap_seconds(),
            r.runtype == runtype_of(*opts),
            r.src == if opts.infile {
                Source::File
            } else if opts.clipboard {
                Source::Clip
            } else {
                Source::Args
            },
            r.pad == if opts.pr {
                Padding::Right
            } else if opts.pl {
                Padding::Left
            } else {
                Padding::Intelligent
            },
            r.goff == global_offset(*opts),
            r.loff == if opts.loff == r.goff {
                Toffset(None)
            } else {
                opts.loff
            },
            r.aoff == if opts.aoff == r.goff || opts.aoff == opts.loff {
                Toffset(None)
            } else {
                opts.aoff
            },
            opts.loff == r.goff ==> r.loff.0 is None,
            opts.aoff == r.goff || opts.aoff == opts.loff ==> r.aoff.0 is None,
            r.loff.0 is Some ==> r.loff != r.goff,
            r.aoff.0 is Some ==> r.aoff != r.goff && r.aoff != r.loff,
            r.utc == !(opts.lor || opts.tai),
            r.tai == if opts.tai {
                -10i64
            } else {
                0
            },
            r.cname@ == if opts.tai {
                "TAI"@
            } else if opts.lor {
                "LOR"@
            } else {
                "UTC"@
            },
            r.csv == opts.csv,
            r.tod == Tod(0),
            r.lsec == 0,
            r.pmc.0 is None,
            r.usc.0 is None,
    {
        let mut todwork = TodInfo::new();
        if opts.reverse {
            todwork.runtype = TodCalc::FromDateTime;
        }
        if opts.unix {
            todwork.runtype = TodCalc::FromUnix;
        }
        if opts.csec {
            todwork.runtype = TodCalc::FromCsec;
        }
        if opts.pmc {
            todwork.runtype = TodCalc::FromPMC;
        }
        if opts.clipboard {
            todwork.src = Source::Clip;
        }
        if opts.infile {
            todwork.src = Source::File;
        }
        if opts.pl {
            todwork.pad = Padding::Left;
        }
        if opts.pr {
            todwork.pad = Padding::Right;
        }
        todwork.loff = opts.loff;
        todwork.aoff = opts.aoff;
        if opts.ng && !(todwork.loff.0.is_none() && todwork.aoff.0.is_none()) {
            todwork.goff = Toffset(None);
        }
        if opts.lor {
            todwork.utc = false;
            todwork.cname = String::from_str("LOR");
        }
        if opts.tai {
            todwork.utc = false;
            todwork.cname = String::from_str("TAI");
            todwork.tai = -10;
        }
        if todwork.aoff == todwork.goff || todwork.aoff == todwork.loff {
            todwork.aoff = Toffset(None);
        }
        if todwork.loff == todwork.goff {
            todwork.loff = Toffset(None);
        }
        todwork.csv = opts.csv;
        todwork
    }
}

} // verus!
