//! Laws that relate the conversions to one another.

use vstd::prelude::*;
use crate::calendar::{
    day_of, in_calendar, CalTime, DAY_1900, MICROS_PER_DAY, MICROS_PER_SEC, TOD_EPOCH_MICROS,
};
use crate::leapsectab::{lemma_counts_agree, lemma_no_count_before_1900};
use crate::text::hex_text;
use crate::todinfo::{
    clock_for, date_for, date_outcome, offset_lines, RowBase, datetime_outcome, day_count, is_now, lemma_tod_hex_round_trip,
    offsets, pmc_of, tod_count, tod_outcome, tod_secs, tod_subsec, usc_of, Padding,
    PerpMinuteClock, Tod, TodInfo, Toffset, UnixSecondsClock,
};

verus! {

/// The conversion of a date and time with only the zero offset present
/// sets the TOD clock value once, to the given value.
proof fn lemma_date_sets_clock(w: TodInfo, t: CalTime, a: Seq<char>, c: u64)
    requires
        w.goff == Toffset(Some(0)),
        w.loff.0 is None,
        w.aoff.0 is None,
        clock_for(
            tod_secs(t.micros as int),
            tod_subsec(t.micros as int),
            0,
            day_count(w, t) as int,
            w.tai as int,
        ) == Some(c),
    ensures
        date_outcome(w, t, a).0 == (TodInfo {
            date: t,
            lsec: day_count(w, t),
            pmc: PerpMinuteClock(pmc_of(t.micros as int)),
            usc: UnixSecondsClock(Some(usc_of(t.micros as int))),
            tod: Tod(c),
            ..w
        }),
{
    let m = t.micros as int;
    let zsec = tod_secs(m);
    let zmic = tod_subsec(m);
    let w0 = TodInfo {
        date: t,
        lsec: day_count(w, t),
        pmc: PerpMinuteClock(pmc_of(m)),
        usc: UnixSecondsClock(Some(usc_of(m))),
        ..w
    };
    let w1 = TodInfo { tod: Tod(c), ..w0 };
    let offs = offsets(w0);
    let base = RowBase::Date(zsec as i64, zmic as u64);
    assert(zsec == zsec as i64 && zmic == zmic as u64) by {
        vstd::arithmetic::div_mod::lemma_fundamental_div_mod(m - TOD_EPOCH_MICROS, 1_000_000);
    }
    assert(offs.drop_first() =~= seq![w.loff, w.aoff]);
    assert(offs.drop_first().drop_first() =~= seq![w.aoff]);
    assert(offs.drop_first().drop_first().drop_first() =~= Seq::<Toffset>::empty());
    assert(offset_lines(w1, offs.drop_first().drop_first().drop_first(), base, a).0 == w1);
    assert(offset_lines(w1, offs.drop_first().drop_first(), base, a).0 == w1);
    assert(offset_lines(w1, offs.drop_first(), base, a).0 == w1);
}

/// The conversion of a TOD clock value with only the zero offset present
/// sets the date once, to the given instant.
proof fn lemma_clock_sets_date(w: TodInfo, c: u64, h: Seq<char>, d: i64)
    requires
        w.goff == Toffset(Some(0)),
        w.loff.0 is None,
        w.aoff.0 is None,
        crate::todinfo::tod_from_hex(h, w.pad) == Some(Tod(c)),
        in_calendar(TOD_EPOCH_MICROS + c),
        date_for(TOD_EPOCH_MICROS + c, 0, tod_count(w, Tod(c)) as int, w.tai as int) == Some(d),
    ensures
        tod_outcome(w, h).0.date == (CalTime { micros: d }),
        tod_outcome(w, h).0.tod == Tod(c),
{
    let zdate = TOD_EPOCH_MICROS + c;
    let w3 = TodInfo { tod: Tod(c), lsec: tod_count(w, Tod(c)), ..w };
    let w4 = TodInfo {
        date: CalTime { micros: d },
        pmc: PerpMinuteClock(pmc_of(d as int)),
        usc: UnixSecondsClock(Some(usc_of(d as int))),
        ..w3
    };
    let offs = offsets(w3);
    let base = RowBase::Clock(zdate as i64);
    assert(offs.drop_first() =~= seq![w.loff, w.aoff]);
    assert(offs.drop_first().drop_first() =~= seq![w.aoff]);
    assert(offs.drop_first().drop_first().drop_first() =~= Seq::<Toffset>::empty());
    assert(offset_lines(w4, offs.drop_first().drop_first().drop_first(), base, h).0 == w4);
    assert(offset_lines(w4, offs.drop_first().drop_first(), base, h).0 == w4);
    assert(offset_lines(w4, offs.drop_first(), base, h).0 == w4);
    assert(offset_lines(w3, offs, base, h).0 == w4);
}

/// A date and time seen at offset zero is converted to a TOD clock value;
/// that value, written as sixteen hex digits and converted back with left or
/// right padding under the same discipline, gives the same instant again.
/// This holds whenever the first conversion yields a clock value and the
/// clock value's own date stays within the calendar's range.
pub proof fn lemma_round_trip(w: TodInfo, t: CalTime, a: Seq<char>)
    requires
        w.wf(),
        t.valid(),
        w.goff == Toffset(Some(0)),
        w.loff.0 is None,
        w.aoff.0 is None,
        w.pad != Padding::Intelligent,
        clock_for(
            tod_secs(t.micros as int),
            tod_subsec(t.micros as int),
            0,
            day_count(w, t) as int,
            w.tai as int,
        ) is Some,
        in_calendar(t.micros + (day_count(w, t) + w.tai) * MICROS_PER_SEC),
    ensures
        ({
            let w1 = date_outcome(w, t, a).0;
            tod_outcome(w1, hex_text(w1.tod.0 as nat, 16)).0.date == t
        }),
{
    let m = t.micros as int;
    let l = day_count(w, t) as int;
    let tai = w.tai as int;
    let zsec = tod_secs(m);
    let zmic = tod_subsec(m);
    vstd::arithmetic::div_mod::lemma_fundamental_div_mod(m - TOD_EPOCH_MICROS, 1_000_000);
    let c = (zsec + l + tai) * 1_000_000 + zmic;
    assert(c == m - TOD_EPOCH_MICROS + (l + tai) * 1_000_000);
    assert(clock_for(zsec, zmic, 0, l, tai) == Some(c as u64));
    lemma_date_sets_clock(w, t, a, c as u64);
    let w1 = date_outcome(w, t, a).0;
    if w.utc {
        let dm = MICROS_PER_DAY as int;
        if m < TOD_EPOCH_MICROS {
            assert(day_of(m) < DAY_1900) by (nonlinear_arith)
                requires m < DAY_1900 * dm, dm > 0, day_of(m) == m / dm;
            lemma_no_count_before_1900(w.lstab@, day_of(m), 0);
        }
        lemma_counts_agree(w.lstab@, m);
    }
    assert(tod_count(w1, Tod(c as u64)) == l);
    lemma_tod_hex_round_trip(c as u64, w.pad);
    assert(date_for(TOD_EPOCH_MICROS + c, 0, l, tai) == Some(t.micros));
    lemma_clock_sets_date(w1, c as u64, hex_text(c as nat, 16), t.micros);
}

/// `NOW` is converted, at offset zero, to a TOD clock value; that value,
/// written as sixteen hex digits and converted back with left or right
/// padding under the same discipline, gives the same clock value and the
/// same current instant again. This holds whenever the current instant lies
/// after 1900 (with the discipline's bias) and its clock value's own date
/// stays within the calendar's range.
pub proof fn lemma_now_round_trip(w: TodInfo, now: CalTime, a: Seq<char>)
    requires
        is_now(a),
        w.wf(),
        now.valid(),
        w.goff == Toffset(Some(0)),
        w.loff.0 is None,
        w.aoff.0 is None,
        w.pad != Padding::Intelligent,
        clock_for(
            tod_secs(now.micros as int),
            tod_subsec(now.micros as int),
            0,
            day_count(w, now) as int,
            w.tai as int,
        ) is Some,
        in_calendar(now.micros + (day_count(w, now) + w.tai) * MICROS_PER_SEC),
    ensures
        ({
            let w1 = datetime_outcome(w, a, now).0;
            let w2 = tod_outcome(w1, hex_text(w1.tod.0 as nat, 16)).0;
            w2.date == now && w2.tod == w1.tod
        }),
{
    let m = now.micros as int;
    let l = day_count(w, now) as int;
    let tai = w.tai as int;
    let c = (tod_secs(m) + l + tai) * 1_000_000 + tod_subsec(m);
    vstd::arithmetic::div_mod::lemma_fundamental_div_mod(m - TOD_EPOCH_MICROS, 1_000_000);
    assert(clock_for(tod_secs(m), tod_subsec(m), 0, l, tai) == Some(c as u64));
    lemma_date_sets_clock(w, now, a, c as u64);
    let w1 = date_outcome(w, now, a).0;
    assert(datetime_outcome(w, a, now).0 == w1);
    if w.utc {
        let dm = MICROS_PER_DAY as int;
        if m < TOD_EPOCH_MICROS {
            assert(day_of(m) < DAY_1900) by (nonlinear_arith)
                requires m < DAY_1900 * dm, dm > 0, day_of(m) == m / dm;
            lemma_no_count_before_1900(w.lstab@, day_of(m), 0);
        }
        lemma_counts_agree(w.lstab@, m);
    }
    lemma_tod_hex_round_trip(c as u64, w.pad);
    lemma_clock_sets_date(w1, c as u64, hex_text(c as nat, 16), now.micros);
}

} // verus!
