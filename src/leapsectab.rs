//! The historical table of UTC leap seconds, and its two lookups.

use vstd::prelude::*;
use crate::calendar::{
    day_of, DAY_0000, DAY_1900, MICROS_PER_DAY, MICROS_PER_SEC, SECS_PER_DAY, TOD_EPOCH_MICROS,
};
use crate::todinfo::TodInfo;

verus! {

/// One insertion of a leap second: from day `day` (days since 1970-01-01),
/// or from TOD clock value `tod`, the cumulative count is `count`.
#[derive(Clone, Copy, Debug)]
pub struct LeapSec {
    pub day: i64,
    pub tod: u64,
    pub count: i64,
}

/// The TOD clock value at the start of day `day` once `count` leap seconds
/// have been inserted.
pub open spec fn entry_tod(day: int, count: int) -> int {
    ((day - DAY_1900) * SECS_PER_DAY + count) * MICROS_PER_SEC
}

/// Every entry but the last is a real insertion, after 1900, whose TOD value
/// agrees with its day and count.
pub open spec fn real_entries(s: Seq<LeapSec>) -> bool {
    forall|i: int|
        0 <= i < s.len() - 1 ==> #[trigger] s[i].tod == entry_tod(s[i].day as int, s[i].count as int)
            && s[i].count >= 1 && s[i].day > DAY_1900
}

/// Days, TOD values and counts all strictly decrease along the table.
pub open spec fn descending(s: Seq<LeapSec>) -> bool {
    forall|i: int, j: int|
        0 <= i < j < s.len() ==> #[trigger] s[j].day < #[trigger] s[i].day && s[j].tod < s[i].tod
            && s[j].count < s[i].count
}

/// The closing entry: the earliest day, TOD value zero and no leap second.
pub open spec fn is_sentinel(e: LeapSec) -> bool {
    e.day == DAY_0000 && e.tod == 0 && e.count == 0
}

/// A table newest first, that ends in the sentinel entry.
pub open spec fn table_wf(s: Seq<LeapSec>) -> bool {
    &&& s.len() >= 1
    &&& real_entries(s)
    &&& descending(s)
    &&& is_sentinel(s.last())
}

/// The count of the first entry from `i` on whose day is not after `day`;
/// the last entry's count where none is.
pub open spec fn count_for_day_from(s: Seq<LeapSec>, day: int, i: int) -> i64
    decreases s.len() - i,
{
    if i < 0 || i >= s.len() {
        s.last().count
    } else if s[i].day <= day {
        s[i].count
    } else {
        count_for_day_from(s, day, i + 1)
    }
}

/// The cumulative leap-second count in force on a day.
pub open spec fn count_for_day(s: Seq<LeapSec>, day: int) -> i64 {
    count_for_day_from(s, day, 0)
}

/// The count of the first entry from `i` on whose TOD value is not above
/// `tod`; the first entry's count where none is.
pub open spec fn count_for_tod_from(s: Seq<LeapSec>, tod: int, i: int) -> i64
    decreases s.len() - i,
{
    if i < 0 || i >= s.len() {
        s[0].count
    } else if s[i].tod <= tod {
        s[i].count
    } else {
        count_for_tod_from(s, tod, i + 1)
    }
}

/// The cumulative leap-second count in force at a TOD clock value.
pub open spec fn count_for_tod(s: Seq<LeapSec>, tod: int) -> i64 {
    count_for_tod_from(s, tod, 0)
}

/// The count found from entry `k` on is at most that entry's count.
proof fn lemma_count_from_bound(s: Seq<LeapSec>, day: int, k: int)
    requires
        table_wf(s),
        0 <= k < s.len(),
    ensures
        count_for_day_from(s, day, k) <= s[k].count,
    decreases s.len() - k,
{
    if s[k].day > day {
        if k + 1 < s.len() {
            lemma_count_from_bound(s, day, k + 1);
            assert(s[k + 1].day < s[k].day);
        } else {
            assert(count_for_day_from(s, day, k + 1) == s.last().count);
        }
    }
}

/// The count found from `i` on grows with the day.
proof fn lemma_count_from_monotone(s: Seq<LeapSec>, d1: int, d2: int, i: int)
    requires
        table_wf(s),
        0 <= i <= s.len(),
        d1 <= d2,
    ensures
        count_for_day_from(s, d1, i) <= count_for_day_from(s, d2, i),
    decreases s.len() - i,
{
    if i < s.len() {
        if s[i].day <= d1 {
        } else if s[i].day <= d2 {
            if i + 1 < s.len() {
                lemma_count_from_bound(s, d1, i + 1);
                assert(s[i + 1].day < s[i].day);
            } else {
                assert(count_for_day_from(s, d1, i + 1) == s.last().count);
            }
        } else {
            lemma_count_from_monotone(s, d1, d2, i + 1);
        }
    }
}

/// The leap-second count of a well-formed table never decreases as the day
/// advances.
pub proof fn lemma_count_for_day_monotone(s: Seq<LeapSec>, d1: int, d2: int)
    requires
        table_wf(s),
        d1 <= d2,
    ensures
        count_for_day(s, d1) <= count_for_day(s, d2),
{
    lemma_count_from_monotone(s, d1, d2, 0);
}

/// No leap second applies before 1900.
pub proof fn lemma_no_count_before_1900(s: Seq<LeapSec>, day: int, i: int)
    requires
        table_wf(s),
        day < DAY_1900,
        0 <= i <= s.len(),
    ensures
        count_for_day_from(s, day, i) == 0,
    decreases s.len() - i,
{
    if i < s.len() {
        lemma_no_count_before_1900(s, day, i + 1);
        if i < s.len() - 1 {
            assert(s[i].day > DAY_1900);
        }
    }
}

/// From entry `i` on, the TOD lookup of the clock value of an instant at or
/// after 1900 (which counts the leap seconds of its day) finds the count
/// that the day lookup finds.
proof fn lemma_counts_agree_from(s: Seq<LeapSec>, m: int, i: int)
    requires
        table_wf(s),
        m >= TOD_EPOCH_MICROS,
        0 <= i < s.len(),
    ensures
        count_for_tod_from(
            s,
            m - TOD_EPOCH_MICROS + count_for_day_from(s, day_of(m), i) * MICROS_PER_SEC,
            i,
        ) == count_for_day_from(s, day_of(m), i),
    decreases s.len() - i,
{
    let dd = day_of(m);
    let dm = MICROS_PER_DAY as int;
    vstd::arithmetic::div_mod::lemma_fundamental_div_mod(m, dm);
    assert(dd * dm <= m < (dd + 1) * dm) by (nonlinear_arith)
        requires dm > 0, m == dm * dd + m % dm, 0 <= m % dm < dm;
    assert(TOD_EPOCH_MICROS == DAY_1900 * dm);
    assert(dd >= DAY_1900) by (nonlinear_arith)
        requires (dd + 1) * dm > DAY_1900 * dm, dm > 0;
    let l = count_for_day_from(s, dd, i);
    let c = m - TOD_EPOCH_MICROS + l * MICROS_PER_SEC;
    if s[i].day <= dd {
        if i < s.len() - 1 {
            let di = s[i].day as int;
            assert(di * dm <= dd * dm) by (nonlinear_arith)
                requires di <= dd, dm > 0;
            assert(s[i].tod <= c);
        }
    } else {
        assert(i < s.len() - 1);
        let di = s[i].day as int;
        assert((dd + 1) * dm <= di * dm) by (nonlinear_arith)
            requires dd + 1 <= di, dm > 0;
        lemma_count_from_bound(s, dd, i + 1);
        assert(s[i + 1].count < s[i].count);
        assert(s[i].tod > c);
        lemma_counts_agree_from(s, m, i + 1);
    }
}

/// The TOD clock value of an instant at or after 1900, counting the leap
/// seconds in force on its day, finds that same count in the table.
pub proof fn lemma_counts_agree(s: Seq<LeapSec>, m: int)
    requires
        table_wf(s),
        m >= TOD_EPOCH_MICROS,
    ensures
        count_for_tod(s, m - TOD_EPOCH_MICROS + count_for_day(s, day_of(m)) * MICROS_PER_SEC)
            == count_for_day(s, day_of(m)),
{
    lemma_counts_agree_from(s, m, 0);
}

/// The leap seconds inserted from 1972 to 2017, newest first, closed by the
/// sentinel entry: each entry's day number (date in the comment), TOD clock
/// value and cumulative count.
pub open spec fn leap_seconds() -> Seq<LeapSec> {
    seq![
        LeapSec { day: 17167, tod: 0x000D_1E0D_6817_3CC0, count: 27 }, // 2017-01-01
        LeapSec { day: 16617, tod: 0x000C_F2D5_4B4F_BA80, count: 26 }, // 2015-07-01
        LeapSec { day: 15522, tod: 0x000C_9CC9_A704_D840, count: 25 }, // 2012-07-01
        LeapSec { day: 14245, tod: 0x000C_3870_CB9B_B600, count: 24 }, // 2009-01-01
        LeapSec { day: 13149, tod: 0x000B_E251_0979_73C0, count: 23 }, // 2006-01-01
        LeapSec { day: 10592, tod: 0x000B_1962_F930_5180, count: 22 }, // 1999-01-01
        LeapSec { day: 10043, tod: 0x000A_EE3E_FA40_2F40, count: 21 }, // 1997-07-01
        LeapSec { day: 9496, tod: 0x000A_C343_36FE_CD00, count: 20 }, // 1996-01-01
        LeapSec { day: 8947, tod: 0x000A_981F_380E_AAC0, count: 19 }, // 1994-07-01
        LeapSec { day: 8582, tod: 0x000A_7B70_ABEB_8880, count: 18 }, // 1993-07-01
        LeapSec { day: 8217, tod: 0x000A_5EC2_1FC8_6640, count: 17 }, // 1992-07-01
        LeapSec { day: 7670, tod: 0x000A_33C6_5C87_0400, count: 16 }, // 1991-01-01
        LeapSec { day: 7305, tod: 0x000A_1717_D063_E1C0, count: 15 }, // 1990-01-01
        LeapSec { day: 6574, tod: 0x0009_DDA6_9A55_7F80, count: 14 }, // 1988-01-01
        LeapSec { day: 5660, tod: 0x0009_95D4_0F51_7D40, count: 13 }, // 1985-07-01
        LeapSec { day: 4929, tod: 0x0009_5C62_D943_1B00, count: 12 }, // 1983-07-01
        LeapSec { day: 4564, tod: 0x0009_3FB4_4D1F_F8C0, count: 11 }, // 1982-07-01
        LeapSec { day: 4199, tod: 0x0009_2305_C0FC_D680, count: 10 }, // 1981-07-01
        LeapSec { day: 3652, tod: 0x0008_F809_FDBB_7440, count: 9 }, // 1980-01-01
        LeapSec { day: 3287, tod: 0x0008_DB5B_7198_5200, count: 8 }, // 1979-01-01
        LeapSec { day: 2922, tod: 0x0008_BEAC_E575_2FC0, count: 7 }, // 1978-01-01
        LeapSec { day: 2557, tod: 0x0008_A1FE_5952_0D80, count: 6 }, // 1977-01-01
        LeapSec { day: 2191, tod: 0x0008_853B_AF57_8B40, count: 5 }, // 1976-01-01
        LeapSec { day: 1826, tod: 0x0008_688D_2334_6900, count: 4 }, // 1975-01-01
        LeapSec { day: 1461, tod: 0x0008_4BDE_9711_46C0, count: 3 }, // 1974-01-01
        LeapSec { day: 1096, tod: 0x0008_2F30_0AEE_2480, count: 2 }, // 1973-01-01
        LeapSec { day: 912, tod: 0x0008_20BA_9811_E240, count: 1 }, // 1972-07-01
        LeapSec { day: DAY_0000, tod: 0, count: 0 }, // 0000-01-01
    ]
}

/// The leap-second table, newest entry first.
#[derive(Debug)]
pub struct LeapSecTable(Vec<LeapSec>);

impl LeapSecTable {
    /// The table is newest first and ends in the sentinel entry.
    #[verifier::type_invariant]
    spec fn inv(self) -> bool {
        table_wf(self.0@)
    }
}

impl View for LeapSecTable {
    type V = Seq<LeapSec>;

    closed spec fn view(&self) -> Seq<LeapSec> {
        self.0@
    }
}

/// Appends a real insertion, older than every entry already there.
fn push_leap(v: &mut Vec<LeapSec>, day: i64, tod: u64, count: i64)
    requires
        real_entries(old(v)@.push(LeapSec { day: 0, tod: 0, count: 0 })),
        descending(old(v)@),
        tod == entry_tod(day as int, count as int),
        count >= 1,
        day > DAY_1900,
        old(v)@.len() > 0 ==> day < old(v)@.last().day && tod < old(v)@.last().tod && count
            < old(v)@.last().count,
    ensures
        final(v)@ == old(v)@.push(LeapSec { day, tod, count }),
        real_entries(final(v)@.push(LeapSec { day: 0, tod: 0, count: 0 })),
        descending(final(v)@),
{
    let ghost s0 = v@;
    v.push(LeapSec { day, tod, count });
    proof {
        let e = LeapSec { day: 0, tod: 0, count: 0 };
        let s1 = v@;
        assert forall|i: int| 0 <= i < s1.push(e).len() - 1 implies #[trigger] s1.push(e)[i].tod
            == entry_tod(s1.push(e)[i].day as int, s1.push(e)[i].count as int) && s1.push(e)[i].count
            >= 1 && s1.push(e)[i].day > DAY_1900 by {
            if i < s0.len() {
                assert(s0.push(e)[i] == s1.push(e)[i]);
            }
        }
        assert(real_entries(s1.push(e)));
        assert forall|i: int, j: int| 0 <= i < j < s1.len() implies #[trigger] s1[j].day
            < #[trigger] s1[i].day && s1[j].tod < s1[i].tod && s1[j].count < s1[i].count by {
            if j == s0.len() && i < s0.len() - 1 {
                assert(s0[s0.len() - 1].day < s0[i].day);
            }
        }
    }
}

impl LeapSecTable {
    /// The table of the leap seconds inserted from 1972 to 2017.
    pub fn new() -> (r: LeapSecTable)
        ensures
            r@ == leap_seconds(),
            table_wf(r@),
    {
        let mut v: Vec<LeapSec> = Vec::new();
        push_leap(&mut v, 17167, 0x000D_1E0D_6817_3CC0, 27); // 2017-01-01
        push_leap(&mut v, 16617, 0x000C_F2D5_4B4F_BA80, 26); // 2015-07-01
        push_leap(&mut v, 15522, 0x000C_9CC9_A704_D840, 25); // 2012-07-01
        push_leap(&mut v, 14245, 0x000C_3870_CB9B_B600, 24); // 2009-01-01
        push_leap(&mut v, 13149, 0x000B_E251_0979_73C0, 23); // 2006-01-01
        push_leap(&mut v, 10592, 0x000B_1962_F930_5180, 22); // 1999-01-01
        push_leap(&mut v, 10043, 0x000A_EE3E_FA40_2F40, 21); // 1997-07-01
        push_leap(&mut v, 9496, 0x000A_C343_36FE_CD00, 20); // 1996-01-01
        push_leap(&mut v, 8947, 0x000A_981F_380E_AAC0, 19); // 1994-07-01
        push_leap(&mut v, 8582, 0x000A_7B70_ABEB_8880, 18); // 1993-07-01
        push_leap(&mut v, 8217, 0x000A_5EC2_1FC8_6640, 17); // 1992-07-01
        push_leap(&mut v, 7670, 0x000A_33C6_5C87_0400, 16); // 1991-01-01
        push_leap(&mut v, 7305, 0x000A_1717_D063_E1C0, 15); // 1990-01-01
        push_leap(&mut v, 6574, 0x0009_DDA6_9A55_7F80, 14); // 1988-01-01
        push_leap(&mut v, 5660, 0x0009_95D4_0F51_7D40, 13); // 1985-07-01
        push_leap(&mut v, 4929, 0x0009_5C62_D943_1B00, 12); // 1983-07-01
        push_leap(&mut v, 4564, 0x0009_3FB4_4D1F_F8C0, 11); // 1982-07-01
        push_leap(&mut v, 4199, 0x0009_2305_C0FC_D680, 10); // 1981-07-01
        push_leap(&mut v, 3652, 0x0008_F809_FDBB_7440, 9); // 1980-01-01
        push_leap(&mut v, 3287, 0x0008_DB5B_7198_5200, 8); // 1979-01-01
        push_leap(&mut v, 2922, 0x0008_BEAC_E575_2FC0, 7); // 1978-01-01
        push_leap(&mut v, 2557, 0x0008_A1FE_5952_0D80, 6); // 1977-01-01
        push_leap(&mut v, 2191, 0x0008_853B_AF57_8B40, 5); // 1976-01-01
        push_leap(&mut v, 1826, 0x0008_688D_2334_6900, 4); // 1975-01-01
        push_leap(&mut v, 1461, 0x0008_4BDE_9711_46C0, 3); // 1974-01-01
        push_leap(&mut v, 1096, 0x0008_2F30_0AEE_2480, 2); // 1973-01-01
        push_leap(&mut v, 912, 0x0008_20BA_9811_E240, 1); // 1972-07-01
        let ghost s = v@;
        v.push(LeapSec { day: DAY_0000, tod: 0, count: 0 });
        proof {
            assert(v@ =~= leap_seconds());
            assert(v@.drop_last() == s);
            assert(real_entries(v@)) by {
                assert forall|i: int| 0 <= i < v@.len() - 1 implies #[trigger] v@[i].tod
                    == entry_tod(v@[i].day as int, v@[i].count as int) && v@[i].count >= 1
                    && v@[i].day > DAY_1900 by {
                    assert(v@[i] == s.push(LeapSec { day: 0, tod: 0, count: 0 })[i]);
                }
            }
            assert(descending(v@)) by {
                assert forall|i: int, j: int| 0 <= i < j < v@.len() implies #[trigger] v@[j].day
                    < #[trigger] v@[i].day && v@[j].tod < v@[i].tod && v@[j].count
                    < v@[i].count by {
                    if j == s.len() {
                        assert(s[i].count >= s[s.len() - 1].count);
                        assert(s[i].day >= s[s.len() - 1].day);
                    }
                }
            }
        }
        LeapSecTable(v)
    }
    /// The cumulative leap-second count in force on the day of the work
    /// area's date: that of the newest entry not after it, or the oldest
    /// entry's where none is. Zero when the discipline ignores leap seconds.
    pub fn ls_search_day(&self, todwork: &TodInfo) -> (r: i64)
        requires
            todwork.date.valid(),
        ensures
            r == if todwork.utc {
                count_for_day(self@, day_of(todwork.date.micros as int))
            } else {
                0
            },
    {
        if !todwork.utc {
            return 0;
        }
        let thedate = todwork.date.day();
        proof {
            use_type_invariant(self);
        }
        let ghost s = self@;
        assert(s == self.0@);
        let n = self.0.len();
        let mut i: usize = 0;
        while i < n
            invariant
                s == self.0@,
                s == self@,
                todwork.utc,
                n == s.len(),
                n > 0,
                i <= n,
                thedate == day_of(todwork.date.micros as int),
                count_for_day_from(s, thedate as int, i as int) == count_for_day(s, thedate as int),
            decreases n - i,
        {
            if self.0[i].day <= thedate {
                assert(count_for_day_from(s, thedate as int, i as int) == s[i as int].count);
                return self.0[i].count;
            }
            i = i + 1;
        }
        self.0[n - 1].count
    }

    /// The cumulative leap-second count in force at the work area's TOD
    /// clock value: that of the newest entry not above it, or the newest
    /// entry's where none is. Zero when the discipline ignores leap seconds.
    pub fn ls_search_tod(&self, todwork: &TodInfo) -> (r: i64)
        ensures
            r == if todwork.utc {
                count_for_tod(self@, todwork.tod.0 as int)
            } else {
                0
            },
    {
        if !todwork.utc {
            return 0;
        }
        let thetod = todwork.tod.0;
        proof {
            use_type_invariant(self);
        }
        let ghost s = self@;
        assert(s == self.0@);
        let n = self.0.len();
        let mut i: usize = 0;
        while i < n
            invariant
                s == self.0@,
                s == self@,
                todwork.utc,
                n == s.len(),
                n > 0,
                i <= n,
                thetod == todwork.tod.0,
                count_for_tod_from(s, thetod as int, i as int) == count_for_tod(s, thetod as int),
            decreases n - i,
        {
            if self.0[i].tod <= thetod {
                assert(count_for_tod_from(s, thetod as int, i as int) == s[i as int].count);
                return self.0[i].count;
            }
            i = i + 1;
        }
        self.0[0].count
    }
}

} // verus!
