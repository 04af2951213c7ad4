use untod::calendar::{CalTime, TOD_EPOCH_MICROS};
use untod::leapsectab::LeapSecTable;
use untod::todinfo::{
    defaultdate, findpmc, findusc, finddate, from_caltime, from_datetime, from_perpetual,
    from_tod, from_unix, get_sec_mic, Padding, PerpMinuteClock, RunOptions, Source, Tod, TodCalc,
    TodInfo, Toffset, UnixSecondsClock,
};

fn options() -> RunOptions {
    RunOptions {
        reverse: false,
        unix: false,
        csec: false,
        pmc: false,
        clipboard: false,
        infile: false,
        pl: false,
        pr: false,
        loff: Toffset(Some(0)),
        aoff: Toffset(None),
        ng: false,
        lor: false,
        tai: false,
        csv: false,
    }
}

fn left_padded_utc() -> TodInfo {
    let mut o = options();
    o.pl = true;
    TodInfo::new_from_options(&o)
}

fn now() -> CalTime {
    CalTime { micros: chrono::Utc::now().timestamp_micros() }
}

fn at(s: &str) -> CalTime {
    finddate(s.to_string(), now()).expect("a valid date")
}

fn day_count(s: &str) -> i64 {
    let mut w = left_padded_utc();
    w.date = at(s);
    let table = LeapSecTable::new();
    table.ls_search_day(&w)
}

#[test]
fn tod_hex_padding_left() {
    assert_eq!(Tod::new_from_hex("1", &Padding::Left), Some(Tod(0x0000000000000001)));
}

#[test]
fn tod_hex_padding_right() {
    assert_eq!(Tod::new_from_hex("1", &Padding::Right), Some(Tod(0x1000000000000000)));
}

#[test]
fn tod_hex_padding_intelligent() {
    assert_eq!(Tod::new_from_hex("c1", &Padding::Intelligent), Some(Tod(0x000c100000000000)));
    assert_eq!(Tod::new_from_hex("C1", &Padding::Intelligent), Some(Tod(0x000c100000000000)));
    assert_eq!(Tod::new_from_hex("a1", &Padding::Intelligent), Some(Tod(0x00a1000000000000)));
    assert_eq!(Tod::new_from_hex("b1", &Padding::Intelligent), Some(Tod(0x00b1000000000000)));
}

#[test]
fn tod_hex_sixteen_digits_and_more() {
    let h = "0123456789abcdef";
    assert_eq!(Tod::new_from_hex(h, &Padding::Left), Some(Tod(0x0123456789abcdef)));
    assert_eq!(Tod::new_from_hex(h, &Padding::Right), Some(Tod(0x0123456789abcdef)));
    assert_eq!(Tod::new_from_hex("f123456789abcdef0", &Padding::Left), Some(Tod(0x123456789abcdef0)));
    assert_eq!(Tod::new_from_hex("f123456789abcdef0", &Padding::Right), Some(Tod(0xf123456789abcdef)));
    assert_eq!(Tod::new_from_hex("", &Padding::Intelligent), Some(Tod(0)));
}

#[test]
fn tod_hex_rejects_non_hex() {
    assert_eq!(Tod::new_from_hex("12g4", &Padding::Left), None);
    assert_eq!(Tod::new_from_hex(" 1", &Padding::Right), None);
}

#[test]
fn tod_text_groups() {
    assert_eq!(Tod::new(0x0123456789abcdef).text(), "012 3456789a bcdef---");
    assert_eq!(Tod(0).text(), "000 00000000 00000---");
}

#[test]
fn pmc_from_hex() {
    assert_eq!(PerpMinuteClock::new_from_hex("1"), PerpMinuteClock(Some(0x10000000)));
    assert_eq!(PerpMinuteClock::new_from_hex("123456789"), PerpMinuteClock(None));
    assert_eq!(PerpMinuteClock::new_from_hex("100000000"), PerpMinuteClock(None));
    assert_eq!(PerpMinuteClock::new_from_hex("00000000ff"), PerpMinuteClock(Some(0xff)));
    assert_eq!(PerpMinuteClock::new_from_hex("FFFFFFFF"), PerpMinuteClock(Some(u32::MAX)));
    assert_eq!(PerpMinuteClock::new_from_hex("x1"), PerpMinuteClock(None));
    assert_eq!(PerpMinuteClock::new().0, None);
    assert_eq!(PerpMinuteClock::new_from_int(7).0, Some(7));
}

#[test]
fn pmc_text() {
    assert_eq!(PerpMinuteClock(Some(255)).text(), "000000ff");
    assert_eq!(PerpMinuteClock(None).text(), "--------");
}

#[test]
fn usc_from_decimal() {
    assert_eq!(UnixSecondsClock::new_from_decimal("5", &0).0, Some(5));
    assert_eq!(UnixSecondsClock::new_from_decimal("+5", &0).0, Some(5));
    assert_eq!(UnixSecondsClock::new_from_decimal("-5", &0).0, Some(-5));
    assert_eq!(UnixSecondsClock::new_from_decimal("5", &2).0, Some(3));
    assert_eq!(UnixSecondsClock::new_from_decimal("", &0).0, None);
    assert_eq!(UnixSecondsClock::new_from_decimal("-", &0).0, None);
    assert_eq!(UnixSecondsClock::new_from_decimal("1x", &0).0, None);
    assert_eq!(UnixSecondsClock::new_from_decimal("9223372036854775807", &0).0, Some(i64::MAX));
    assert_eq!(UnixSecondsClock::new_from_decimal("9223372036854775808", &0).0, None);
    assert_eq!(UnixSecondsClock::new_from_decimal("-9223372036854775808", &0).0, Some(i64::MIN));
    assert_eq!(UnixSecondsClock::new_from_decimal("-9223372036854775808", &1).0, None);
    assert_eq!(UnixSecondsClock::new_from_decimal("000000000000000000000042", &0).0, Some(42));
    assert_eq!(UnixSecondsClock::new().0, None);
    assert_eq!(UnixSecondsClock::new_from_int(-3).0, Some(-3));
}

#[test]
fn usc_text() {
    assert_eq!(UnixSecondsClock(Some(0)).text(), "             0");
    assert_eq!(UnixSecondsClock(Some(-2208988800)).text(), "   -2208988800");
    assert_eq!(UnixSecondsClock(Some(123456789012345)).text(), "123456789012345");
    assert_eq!(UnixSecondsClock(None).text(), "--");
}

#[test]
fn offset_text() {
    assert_eq!(Toffset(Some(0)).text(), "+00:00");
    assert_eq!(Toffset(Some(3600)).text(), "+01:00");
    assert_eq!(Toffset(Some(-19800)).text(), "-05:30");
    assert_eq!(Toffset(Some(-1800)).text(), "-00:30");
    assert_eq!(Toffset(Some(-59)).text(), "-00:00");
    assert_eq!(Toffset(Some(45900)).text(), "+12:45");
    assert_eq!(Toffset(None).text(), "No offset");
}

#[test]
fn leap_count_for_dates() {
    assert_eq!(day_count("1972-06-30"), 0);
    assert_eq!(day_count("1972-07-01"), 1);
    assert_eq!(day_count("2016-12-31"), 26);
    assert_eq!(day_count("2017-01-01"), 27);
    assert_eq!(day_count("2018-01-01"), 27);
    assert_eq!(day_count("1900-01-01"), 0);
    assert_eq!(day_count("0000-01-01"), 0);
    assert_eq!(day_count("-0001-12-31@00:00:00.000000"), 0);
}

#[test]
fn leap_count_never_decreases() {
    let mut previous = 0;
    for year in 1960..2030 {
        for month in [1, 4, 7, 10] {
            let c = day_count(&format!("{:04}-{:02}-01", year, month));
            assert!(c >= previous);
            previous = c;
        }
    }
    assert_eq!(previous, 27);
}

#[test]
fn leap_count_for_tod_values() {
    let table = LeapSecTable::new();
    let mut w = left_padded_utc();
    w.tod = Tod(0x000D_1E0D_6817_3CC0);
    assert_eq!(table.ls_search_tod(&w), 27);
    w.tod = Tod(0x000D_1E0D_6817_3CC0 - 1);
    assert_eq!(table.ls_search_tod(&w), 26);
    w.tod = Tod(0);
    assert_eq!(table.ls_search_tod(&w), 0);
    w.tod = Tod(u64::MAX);
    assert_eq!(table.ls_search_tod(&w), 27);
    w.utc = false;
    assert_eq!(table.ls_search_tod(&w), 0);
    w.date = at("2018-01-01");
    assert_eq!(table.ls_search_day(&w), 0);
}

#[test]
fn pmc_range_boundary() {
    let mut w = left_padded_utc();
    w.date = at("1966-01-03");
    assert_eq!(findpmc(&w), PerpMinuteClock(Some(0)));
    w.date = at("1966-01-02@23:59:59.999999");
    assert_eq!(findpmc(&w), PerpMinuteClock(None));
    w.date = at("1966-01-02@23:59:30");
    assert_eq!(findpmc(&w), PerpMinuteClock(None));
    w.date = at("1966-01-03@00:01:59");
    assert_eq!(findpmc(&w), PerpMinuteClock(Some(1)));
    w.date = at("+12000-01-01@00:00:00.000000");
    assert_eq!(findpmc(&w), PerpMinuteClock(None));
}

#[test]
fn unix_seconds_of_dates() {
    let mut w = left_padded_utc();
    w.date = at("1970-01-01");
    assert_eq!(findusc(&w), UnixSecondsClock(Some(0)));
    w.date = at("2001-09-09@01:46:40");
    assert_eq!(findusc(&w), UnixSecondsClock(Some(1_000_000_000)));
    w.date = at("1969-12-31@23:59:59.5");
    assert_eq!(findusc(&w), UnixSecondsClock(Some(0)));
    w.date = at("1969-12-31@23:59:58.5");
    assert_eq!(findusc(&w), UnixSecondsClock(Some(-1)));
}

#[test]
fn seconds_and_micros_since_1900() {
    let mut w = left_padded_utc();
    w.date = at("1900-01-01@00:00:01.25");
    assert_eq!(get_sec_mic(&w), (1, 250_000));
    w.date = at("1899-12-31@23:59:59.75");
    assert_eq!(get_sec_mic(&w), (-1, 750_000));
    w.date = at("1970-01-01");
    assert_eq!(get_sec_mic(&w), (2_208_988_800, 0));
}

#[test]
fn date_input_forms() {
    assert_eq!(at("2000-01-01").micros, 946_684_800_000_000);
    assert_eq!(at("2000.001").micros, 946_684_800_000_000);
    assert_eq!(at("2000.032@12").micros, at("2000-02-01@12:00:00").micros);
    assert_eq!(at("2000-0").micros, at("2000-01-01").micros);
    assert_eq!(at("1970-01-01@00:00:00.000001").micros, 1);
    assert_eq!(finddate("2000-13-01".to_string(), now()), None);
    assert_eq!(finddate("hello".to_string(), now()), None);
    assert_eq!(finddate("2000-01-01@00:00:00.000000x".to_string(), now()), None);
}

#[test]
fn now_is_current() {
    let n = now();
    assert_eq!(finddate("now".to_string(), n), Some(n));
    assert_eq!(finddate("NoW".to_string(), n), Some(n));
    assert!(n.micros > at("2020-01-01").micros);
    assert_eq!(finddate("NOW".to_string(), CalTime { micros: i64::MAX }), None);
    let d = defaultdate(n);
    assert_eq!(finddate(d, n), Some(n));
    assert_eq!(defaultdate(at("2000-02-29@12:34:56.5")), "2000-02-29@12:34:56.500000");
}

#[test]
fn options_drop_repeated_offsets() {
    let w = TodInfo::new_from_options(&options());
    assert_eq!(w.goff, Toffset(Some(0)));
    assert_eq!(w.loff, Toffset(None));
    assert_eq!(w.aoff, Toffset(None));

    let mut o = options();
    o.loff = Toffset(Some(3600));
    o.aoff = Toffset(Some(3600));
    let w = TodInfo::new_from_options(&o);
    assert_eq!(w.loff, Toffset(Some(3600)));
    assert_eq!(w.aoff, Toffset(None));

    o.aoff = Toffset(Some(0));
    let w = TodInfo::new_from_options(&o);
    assert_eq!(w.aoff, Toffset(None));

    o.aoff = Toffset(Some(-7200));
    let w = TodInfo::new_from_options(&o);
    assert_eq!((w.goff, w.loff, w.aoff), (Toffset(Some(0)), Toffset(Some(3600)), Toffset(Some(-7200))));
}

#[test]
fn options_drop_global_offset() {
    let mut o = options();
    o.ng = true;
    o.loff = Toffset(None);
    let w = TodInfo::new_from_options(&o);
    assert_eq!(w.goff, Toffset(Some(0)));
    o.loff = Toffset(Some(3600));
    let w = TodInfo::new_from_options(&o);
    assert_eq!(w.goff, Toffset(None));
    assert_eq!(w.loff, Toffset(Some(3600)));
}

#[test]
fn options_select_modes() {
    let mut o = options();
    let w = TodInfo::new_from_options(&o);
    assert_eq!(w.runtype, TodCalc::FromTod);
    assert_eq!(w.pad, Padding::Intelligent);
    assert_eq!(w.src, Source::Args);
    assert!(w.utc);
    assert_eq!(w.cname, "UTC");
    assert_eq!(w.date.micros, TOD_EPOCH_MICROS);
    assert_eq!(w.tod, Tod(0));
    o.reverse = true;
    o.pr = true;
    o.infile = true;
    o.lor = true;
    let w = TodInfo::new_from_options(&o);
    assert_eq!(w.runtype, TodCalc::FromDateTime);
    assert_eq!(w.pad, Padding::Right);
    assert_eq!(w.src, Source::File);
    assert!(!w.utc);
    assert_eq!(w.cname, "LOR");
    assert_eq!(w.tai, 0);
    o.pmc = true;
    o.tai = true;
    let w = TodInfo::new_from_options(&o);
    assert_eq!(w.runtype, TodCalc::FromPMC);
    assert_eq!(w.cname, "TAI");
    assert_eq!(w.tai, -10);
}

#[test]
fn tod_zero_at_utc() {
    let mut w = left_padded_utc();
    let lines = from_tod("0000000000000000", &mut w);
    assert_eq!(
        lines,
        vec!["000 00000000 00000--- : 1900-01-01 00:00:00.000000 UTC+00:00 1900.001 Mon --------    -2208988800 *+0"]
    );
    assert_eq!(w.date.micros, TOD_EPOCH_MICROS);
    assert_eq!(w.pmc, PerpMinuteClock(None));
    assert_eq!(w.lsec, 0);
}

#[test]
fn tod_zero_as_csv() {
    let mut o = options();
    o.pl = true;
    o.csv = true;
    let mut w = TodInfo::new_from_options(&o);
    let lines = from_tod("0", &mut w);
    assert_eq!(
        lines,
        vec!["000 00000000 00000---,1900-01-01,00:00:00.000000,UTC+00:00,1900.001,Mon,--------,-2208988800,*+0"]
    );
}

#[test]
fn tod_zero_at_tai() {
    let mut o = options();
    o.pl = true;
    o.tai = true;
    let mut w = TodInfo::new_from_options(&o);
    let lines = from_tod("0", &mut w);
    assert_eq!(
        lines,
        vec!["000 00000000 00000--- : 1900-01-01 00:00:10.000000 TAI+00:00 1900.001 Mon --------    -2208988790"]
    );
}

#[test]
fn tod_with_three_offsets() {
    let mut o = options();
    o.loff = Toffset(Some(3600));
    o.aoff = Toffset(Some(-3600));
    let mut w = TodInfo::new_from_options(&o);
    let lines = from_tod("d1e0d68173cc", &mut w);
    assert_eq!(lines.len(), 3);
    assert!(lines[0].contains("2017-01-01 00:00:00.000000 UTC+00:00 2017.001 Sun"));
    assert!(lines[0].ends_with("*+27"));
    assert!(lines[1].contains("2017-01-01 01:00:00.000000 UTC+01:00"));
    assert!(lines[2].contains("2016-12-31 23:00:00.000000 UTC-01:00 2016.366 Sat"));
}

#[test]
fn tod_errors() {
    let mut w = left_padded_utc();
    assert_eq!(from_tod("xyz", &mut w), vec!["TOD value is invalid: \"xyz\""]);
    assert_eq!(
        from_tod("FFFFFFFFFFFFFFFF", &mut w),
        vec!["Can't handle this TOD value: \"FFFFFFFFFFFFFFFF\""]
    );
}

#[test]
fn datetime_to_tod() {
    let mut w = left_padded_utc();
    let lines = from_datetime("2017-01-01", &mut w, now());
    assert_eq!(w.tod, Tod(0x000D_1E0D_6817_3CC0));
    assert_eq!(w.lsec, 27);
    assert_eq!(lines.len(), 1);
    assert!(lines[0].starts_with("000 d1e0d681 73cc0--- : 2017-01-01 00:00:00.000000 UTC+00:00 2017.001 Sun 01994340"));
}

#[test]
fn datetime_errors() {
    let mut w = left_padded_utc();
    assert_eq!(from_datetime("garbage", &mut w, now()), vec!["Date \"garbage\" is invalid"]);
    assert_eq!(
        from_datetime("1899-12-31", &mut w, now()),
        vec!["Date is out of range: 1899-12-31 +00:00"]
    );
}

#[test]
fn datetime_round_trip() {
    let mut w = left_padded_utc();
    for s in ["2016-12-31@23:59:59.5", "1972-06-30@23:59:59.999999", "1900-01-01", "2024.060@12:34:56.789012"] {
        let t = at(s);
        from_datetime(s, &mut w, now());
        let hex = format!("{:016x}", w.tod.0);
        from_tod(&hex, &mut w);
        assert_eq!(w.date, t);
    }
}

#[test]
fn now_round_trip() {
    let mut w = left_padded_utc();
    from_datetime("NOW", &mut w, now());
    let clock = w.tod;
    let t = w.date;
    let hex = format!("{:016x}", clock.0);
    from_tod(&hex, &mut w);
    assert_eq!(w.date, t);
    from_caltime(w.date, "NOW", &mut w);
    assert_eq!(w.tod, clock);
}

#[test]
fn perpetual_to_others() {
    let mut w = left_padded_utc();
    let lines = from_perpetual("0", &mut w);
    assert_eq!(w.date, at("1966-01-03"));
    assert_eq!(w.usc, UnixSecondsClock(Some(-126_057_600)));
    assert_eq!(lines.len(), 1);
    assert!(lines[0].contains("1966-01-03 00:00:00.000000 UTC+00:00 1966.003 Mon 00000000"));
    assert_eq!(from_perpetual("zz", &mut w), vec!["Minute value is invalid: \"zz\""]);
    assert_eq!(w.pmc, PerpMinuteClock(None));
}

#[test]
fn unix_zero() {
    let mut w = left_padded_utc();
    let lines = from_unix("0", &mut w, &false);
    assert_eq!(w.date, at("1970-01-01"));
    assert!(lines[0].contains("1970-01-01 00:00:00.000000"));
    let lines = from_unix("0", &mut w, &true);
    assert_eq!(w.date, at("1900-01-01"));
    assert_eq!(w.usc, UnixSecondsClock(Some(-2_208_988_800)));
    assert!(lines[0].contains("1900-01-01 00:00:00.000000"));
    assert_eq!(w.tod, Tod(0));
}

#[test]
fn unix_errors() {
    let mut w = left_padded_utc();
    assert_eq!(from_unix("abc", &mut w, &false), vec!["Seconds value is invalid: \"abc\""]);
    assert_eq!(
        from_unix("9223372036854775807", &mut w, &false),
        vec!["Can't handle this seconds value: \"9223372036854775807\""]
    );
}

#[test]
fn usc_csv_text() {
    let mut w = left_padded_utc();
    w.usc = UnixSecondsClock(Some(-42));
    assert_eq!(w.usc_csv(), "-42");
    w.usc = UnixSecondsClock(None);
    assert_eq!(w.usc_csv(), "--");
}

#[test]
fn leap_second_of_1972_from_tod() {
    let mut o = options();
    o.pr = true;
    let mut w = TodInfo::new_from_options(&o);
    let lines = from_tod("000820BA9811E240", &mut w);
    assert_eq!(lines.len(), 1);
    assert_eq!(w.lsec, 1);
    assert_eq!(w.date, at("1972-07-01"));
    assert_eq!(w.usc, UnixSecondsClock(Some(78796800)));
    assert_eq!(w.pmc, PerpMinuteClock(Some(0x3418E0)));
    from_tod("000820BA9811E23F", &mut w);
    assert_eq!(w.lsec, 0);
    assert_eq!(w.date, at("1972-07-01@00:00:00.999999"));
}

#[test]
fn leap_second_of_1972_from_date() {
    let mut w = left_padded_utc();
    let lines = from_datetime("1972-07-01", &mut w, now());
    assert_eq!(lines.len(), 1);
    assert_eq!(w.lsec, 1);
    assert_eq!(w.tod, Tod(0x000820BA9811E240));
    assert_eq!(w.usc, UnixSecondsClock(Some(78796800)));
    assert_eq!(w.pmc, PerpMinuteClock(Some(0x3418E0)));
}

#[test]
fn perpetual_zero_clock() {
    let mut w = left_padded_utc();
    from_perpetual("0", &mut w);
    assert_eq!(w.pmc, PerpMinuteClock(Some(0)));
    assert_eq!(w.lsec, 0);
    assert_eq!(w.tod, Tod(2_082_931_200_000_000));
}

#[test]
fn unix_zero_clock() {
    let mut w = left_padded_utc();
    let lines = from_unix("0", &mut w, &false);
    assert_eq!(lines.len(), 1);
    assert_eq!(w.usc, UnixSecondsClock(Some(0)));
    assert_eq!(w.lsec, 0);
    assert_eq!(w.tod, Tod(0x0007D91048BCA000));
}

#[test]
fn invalid_input_is_quoted_and_escaped() {
    let mut w = left_padded_utc();
    let raw = "a\"b\\c";
    assert_eq!(from_tod(raw, &mut w), vec![format!("TOD value is invalid: {:?}", raw)]);
    assert_eq!(from_tod(raw, &mut w), vec!["TOD value is invalid: \"a\\\"b\\\\c\""]);
    assert_eq!(from_datetime(raw, &mut w, now()), vec![format!("Date {:?} is invalid", raw)]);
}
