//! Building the ledger from what was stored.
//!
//! Past days are read one by one and may come in any order; the ledger keeps
//! them in order of date.

use vstd::prelude::*;
use crate::models::{AppState, DailyStats, DayView, UserSettings, WaterRecord};

verus! {

/// Views of `days`, in their order.
pub open spec fn day_views(days: Seq<DailyStats>) -> Seq<DayView> {
    days.map_values(|day: DailyStats| day@)
}

/// Each day's date is at most that of the day after it.
pub open spec fn dates_ascend(days: Seq<DayView>) -> bool {
    forall|i: int, j: int| 0 <= i < j < days.len() ==> (#[trigger] days[i]).date <= (
    #[trigger] days[j]).date
}

/// Where a day of `date` belongs in `days`: behind the last day that is not
/// later than it.
pub open spec fn slot_for(days: Seq<DayView>, date: int) -> nat
    decreases days.len(),
{
    if days.len() == 0 || days.last().date <= date {
        days.len()
    } else {
        slot_for(days.drop_last(), date)
    }
}

/// `days` in order of date. Days of one date keep the order they came in.
pub open spec fn sorted_by_date(days: Seq<DayView>) -> Seq<DayView>
    decreases days.len(),
{
    if days.len() == 0 {
        days
    } else {
        let front = sorted_by_date(days.drop_last());
        front.insert(slot_for(front, days.last().date) as int, days.last())
    }
}

/// The largest id among `records`, or 0 where there is none.
pub open spec fn max_id(records: Seq<WaterRecord>) -> nat
    decreases records.len(),
{
    if records.len() == 0 {
        0
    } else if records.last().id > max_id(records.drop_last()) {
        records.last().id as nat
    } else {
        max_id(records.drop_last())
    }
}

/// The largest id among the records of `days`, or 0 where there is none.
pub open spec fn max_id_of_days(days: Seq<DayView>) -> nat
    decreases days.len(),
{
    if days.len() == 0 {
        0
    } else if max_id(days.last().records) > max_id_of_days(days.drop_last()) {
        max_id(days.last().records)
    } else {
        max_id_of_days(days.drop_last())
    }
}

/// The largest id among the records of `today` and of `past`, or 0 where
/// there is no record at all.
pub open spec fn max_loaded_id(today: DayView, past: Seq<DayView>) -> nat {
    if max_id(today.records) > max_id_of_days(past) {
        max_id(today.records)
    } else {
        max_id_of_days(past)
    }
}

/// The slot lies within the sequence; every day from it on is later than
/// `date`, and the day just before it is not.
pub proof fn lemma_slot_for(days: Seq<DayView>, date: int)
    ensures
        slot_for(days, date) <= days.len(),
        forall|i: int| slot_for(days, date) <= i < days.len() ==> (#[trigger] days[i]).date > date,
        slot_for(days, date) > 0 ==> days[slot_for(days, date) - 1].date <= date,
    decreases days.len(),
{
    if days.len() > 0 && days.last().date > date {
        lemma_slot_for(days.drop_last(), date);
        assert forall|i: int| slot_for(days, date) <= i < days.len() implies (
        #[trigger] days[i]).date > date by {
            if i < days.len() - 1 {
                assert(days[i] == days.drop_last()[i]);
            }
        }
        if slot_for(days, date) > 0 {
            assert(days[slot_for(days, date) - 1] == days.drop_last()[slot_for(days, date) - 1]);
        }
    }
}

/// Sorting by date orders the days and keeps each of them, as often as it
/// came.
pub proof fn lemma_sorted_by_date(days: Seq<DayView>)
    ensures
        dates_ascend(sorted_by_date(days)),
        sorted_by_date(days).to_multiset() == days.to_multiset(),
        sorted_by_date(days).len() == days.len(),
    decreases days.len(),
{
    if days.len() > 0 {
        let front = sorted_by_date(days.drop_last());
        let day = days.last();
        let slot = slot_for(front, day.date) as int;
        lemma_sorted_by_date(days.drop_last());
        lemma_slot_for(front, day.date);
        let sorted = front.insert(slot, day);
        assert forall|i: int, j: int| 0 <= i < j < sorted.len() implies (#[trigger] sorted[i]).date
            <= (#[trigger] sorted[j]).date by {
            if slot > 0 {
                assert(front[slot - 1].date <= day.date);
            }
            if i < slot && j > slot {
                assert(sorted[i] == front[i]);
                assert(sorted[j] == front[j - 1]);
                assert(front[i].date <= front[j - 1].date);
            } else if i < slot && j == slot {
                assert(sorted[i] == front[i]);
                if i < slot - 1 {
                    assert(front[i].date <= front[slot - 1].date);
                }
            } else if i < slot && j < slot {
                assert(sorted[i] == front[i]);
                assert(sorted[j] == front[j]);
            } else if i == slot {
                assert(sorted[j] == front[j - 1]);
            } else {
                assert(sorted[i] == front[i - 1]);
                assert(sorted[j] == front[j - 1]);
                assert(front[i - 1].date <= front[j - 1].date);
            }
        }
        vstd::seq_lib::to_multiset_insert(front, slot, day);
        vstd::seq_lib::to_multiset_build(days.drop_last(), day);
        assert(days.drop_last().push(day) =~= days);
    } else {
        assert(sorted_by_date(days) =~= days);
    }
}

/// No two of `days` have the same date.
pub open spec fn dates_differ(days: Seq<DayView>) -> bool {
    forall|i: int, j: int| 0 <= i < j < days.len() ==> (#[trigger] days[i]).date != (
    #[trigger] days[j]).date
}

/// What was stored makes a well-formed ledger, and nothing else does:
/// today is consistent and its ids increase; at most six past days were
/// found, each consistent and before today, no two of one date.
pub open spec fn loads_well(today: DayView, past: Seq<DayView>) -> bool {
    &&& today.consistent()
    &&& forall|i: int, j: int|
        0 <= i < j < today.records.len() ==> (#[trigger] today.records[i]).id < (
        #[trigger] today.records[j]).id
    &&& past.len() <= 6
    &&& dates_differ(past)
    &&& forall|i: int|
        0 <= i < past.len() ==> (#[trigger] past[i]).consistent() && past[i].date < today.date
}

/// No id among `records` is above the largest.
pub proof fn lemma_max_id_bounds(records: Seq<WaterRecord>)
    ensures
        forall|i: int| 0 <= i < records.len() ==> (#[trigger] records[i]).id <= max_id(records),
    decreases records.len(),
{
    if records.len() > 0 {
        lemma_max_id_bounds(records.drop_last());
        assert forall|i: int| 0 <= i < records.len() implies (#[trigger] records[i]).id <= max_id(
            records,
        ) by {
            if i < records.len() - 1 {
                assert(records[i] == records.drop_last()[i]);
            }
        }
    }
}

/// No id among the records of `days` is above the largest.
pub proof fn lemma_max_id_of_days_bounds(days: Seq<DayView>)
    ensures
        forall|d: int, r: int|
            0 <= d < days.len() && 0 <= r < days[d].records.len() ==> (
            #[trigger] days[d].records[r]).id <= max_id_of_days(days),
    decreases days.len(),
{
    if days.len() > 0 {
        lemma_max_id_of_days_bounds(days.drop_last());
        lemma_max_id_bounds(days.last().records);
        assert forall|d: int, r: int|
            0 <= d < days.len() && 0 <= r < days[d].records.len() implies (
        #[trigger] days[d].records[r]).id <= max_id_of_days(days) by {
            if d < days.len() - 1 {
                assert(days[d] == days.drop_last()[d]);
            }
        }
    }
}

/// Every day of the sorted sequence is one of the days that were sorted.
pub proof fn lemma_sorted_members(days: Seq<DayView>)
    ensures
        forall|i: int|
            0 <= i < sorted_by_date(days).len() ==> days.contains(
                #[trigger] sorted_by_date(days)[i],
            ),
{
    lemma_sorted_by_date(days);
    let sorted = sorted_by_date(days);
    assert forall|i: int| 0 <= i < sorted.len() implies days.contains(#[trigger] sorted[i]) by {
        assert(sorted.contains(sorted[i]));
        vstd::seq_lib::to_multiset_contains(sorted, sorted[i]);
        vstd::seq_lib::to_multiset_contains(days, sorted[i]);
    }
}

/// Every day that was sorted is in the sorted sequence.
pub proof fn lemma_sorted_keeps_members(days: Seq<DayView>)
    ensures
        forall|i: int| 0 <= i < days.len() ==> sorted_by_date(days).contains(#[trigger] days[i]),
{
    lemma_sorted_by_date(days);
    let sorted = sorted_by_date(days);
    assert forall|i: int| 0 <= i < days.len() implies sorted.contains(#[trigger] days[i]) by {
        assert(days.contains(days[i]));
        vstd::seq_lib::to_multiset_contains(days, days[i]);
        vstd::seq_lib::to_multiset_contains(sorted, days[i]);
    }
}

/// Where the sort gives strictly increasing dates, no two of the days that
/// were sorted have the same date.
pub proof fn lemma_strictly_sorted_differ(days: Seq<DayView>)
    requires
        forall|i: int, j: int|
            0 <= i < j < sorted_by_date(days).len() ==> (#[trigger] sorted_by_date(days)[i]).date
                < (#[trigger] sorted_by_date(days)[j]).date,
    ensures
        dates_differ(days),
    decreases days.len(),
{
    if days.len() > 0 {
        let rest = days.drop_last();
        let front = sorted_by_date(rest);
        let day = days.last();
        let slot = slot_for(front, day.date) as int;
        lemma_slot_for(front, day.date);
        lemma_sorted_by_date(rest);
        let sorted = front.insert(slot, day);
        assert(sorted == sorted_by_date(days));
        assert(sorted[slot] == day);
        assert forall|a: int, b: int| 0 <= a < b < front.len() implies (#[trigger] front[a]).date
            < (#[trigger] front[b]).date by {
            let at = if a < slot { a } else { a + 1 };
            let bt = if b < slot { b } else { b + 1 };
            assert(sorted[at] == front[a]);
            assert(sorted[bt] == front[b]);
            assert(sorted[at].date < sorted[bt].date);
        }
        lemma_strictly_sorted_differ(rest);
        lemma_sorted_keeps_members(rest);
        assert forall|i: int, j: int| 0 <= i < j < days.len() implies (#[trigger] days[i]).date
            != (#[trigger] days[j]).date by {
            assert(days[i] == rest[i]);
            if j < days.len() - 1 {
                assert(days[j] == rest[j]);
            } else {
                assert(front.contains(rest[i]));
                let k = choose|k: int| 0 <= k < front.len() && front[k] == rest[i];
                let kt = if k < slot { k } else { k + 1 };
                assert(sorted[kt] == front[k]);
                if kt < slot {
                    assert(sorted[kt].date < sorted[slot].date);
                } else {
                    assert(sorted[slot].date < sorted[kt].date);
                }
            }
        }
    }
}

/// Days of different dates come out of the sort with strictly increasing
/// dates.
pub proof fn lemma_sorted_strictly(days: Seq<DayView>)
    requires
        dates_differ(days),
    ensures
        forall|i: int, j: int|
            0 <= i < j < sorted_by_date(days).len() ==> (#[trigger] sorted_by_date(days)[i]).date
                < (#[trigger] sorted_by_date(days)[j]).date,
    decreases days.len(),
{
    if days.len() > 0 {
        let rest = days.drop_last();
        let front = sorted_by_date(rest);
        let day = days.last();
        let slot = slot_for(front, day.date) as int;
        let sorted = front.insert(slot, day);
        assert(dates_differ(rest)) by {
            assert forall|i: int, j: int| 0 <= i < j < rest.len() implies (#[trigger] rest[i]).date
                != (#[trigger] rest[j]).date by {
                assert(rest[i] == days[i]);
                assert(rest[j] == days[j]);
            }
        }
        lemma_sorted_strictly(rest);
        lemma_sorted_by_date(rest);
        lemma_sorted_members(rest);
        lemma_slot_for(front, day.date);
        assert forall|k: int| 0 <= k < front.len() implies (#[trigger] front[k]).date
            != day.date by {
            assert(rest.contains(front[k]));
            let at = choose|at: int| 0 <= at < rest.len() && rest[at] == front[k];
            assert(days[at] == rest[at]);
            assert(days[at].date != days[days.len() - 1].date);
        }
        assert forall|i: int, j: int| 0 <= i < j < sorted.len() implies (#[trigger] sorted[i]).date
            < (#[trigger] sorted[j]).date by {
            if i < slot && j > slot {
                assert(sorted[i] == front[i]);
                assert(sorted[j] == front[j - 1]);
                assert(front[i].date <= front[j - 1].date);
                if i < j - 1 {
                    assert(front[i].date < front[j - 1].date);
                } else {
                    assert(front[slot - 1].date <= day.date);
                    assert(front[slot - 1].date != day.date);
                    assert(front[slot].date > day.date);
                }
            } else if i < slot && j == slot {
                assert(sorted[i] == front[i]);
                assert(front[slot - 1].date <= day.date);
                if i < slot - 1 {
                    assert(front[i].date < front[slot - 1].date);
                }
                assert(front[i].date != day.date);
            } else if i < slot && j < slot {
                assert(sorted[i] == front[i]);
                assert(sorted[j] == front[j]);
            } else if i == slot {
                assert(sorted[j] == front[j - 1]);
            } else {
                assert(sorted[i] == front[i - 1]);
                assert(sorted[j] == front[j - 1]);
                assert(front[i - 1].date < front[j - 1].date);
            }
        }
    }
}

impl AppState {
    /// The dates of the six days before `today`, the most recent first.
    pub fn history_dates(today: i32) -> (dates: Vec<i32>)
        requires
            today - 6 >= i32::MIN,
        ensures
            dates@.len() == 6,
            forall|i: int| 0 <= i < 6 ==> (#[trigger] dates@[i]) == today - 1 - i,
    {
        let mut dates: Vec<i32> = Vec::new();
        let mut back: i32 = 1;
        while back <= 6
            invariant
                1 <= back <= 7,
                today - 6 >= i32::MIN,
                dates@.len() == back - 1,
                forall|i: int| 0 <= i < back - 1 ==> (#[trigger] dates@[i]) == today - 1 - i,
            decreases 7 - back,
        {
            dates.push(today - back);
            back = back + 1;
        }
        dates
    }

    /// The largest id among `records`, or 0 where there is none.
    fn largest_id(records: &Vec<WaterRecord>) -> (largest: u64)
        ensures
            largest == max_id(records@),
    {
        let mut largest: u64 = 0;
        let mut i: usize = 0;
        while i < records.len()
            invariant
                i <= records@.len(),
                largest == max_id(records@.subrange(0, i as int)),
            decreases records@.len() - i,
        {
            proof {
                let next = records@.subrange(0, i + 1);
                assert(next.drop_last() =~= records@.subrange(0, i as int));
            }
            if records[i].id > largest {
                largest = records[i].id;
            }
            i = i + 1;
        }
        proof {
            assert(records@.subrange(0, i as int) =~= records@);
        }
        largest
    }

    /// The largest id among the records of `days`, or 0 where there is none.
    fn largest_id_of_days(days: &Vec<DailyStats>) -> (largest: u64)
        ensures
            largest == max_id_of_days(day_views(days@)),
    {
        let mut largest: u64 = 0;
        let mut i: usize = 0;
        while i < days.len()
            invariant
                i <= days@.len(),
                largest == max_id_of_days(day_views(days@).subrange(0, i as int)),
            decreases days@.len() - i,
        {
            proof {
                let next = day_views(days@).subrange(0, i + 1);
                assert(next.drop_last() =~= day_views(days@).subrange(0, i as int));
                assert(next.last() == days@[i as int]@);
            }
            let of_day = Self::largest_id(&days[i].records);
            if of_day > largest {
                largest = of_day;
            }
            i = i + 1;
        }
        proof {
            assert(day_views(days@).subrange(0, i as int) =~= day_views(days@));
        }
        largest
    }

    /// Puts `day` into `days`, which are in order of date, behind the last
    /// day that is not later than it.
    fn insert_by_date(days: &mut Vec<DailyStats>, day: DailyStats)
        ensures
            day_views(final(days)@) == day_views(old(days)@).insert(
                slot_for(day_views(old(days)@), day@.date) as int,
                day@,
            ),
    {
        let ghost before = day_views(days@);
        let mut slot: usize = days.len();
        proof {
            assert(before.subrange(0, slot as int) =~= before);
        }
        while slot > 0 && days[slot - 1].date > day.date
            invariant
                slot <= days@.len(),
                before == day_views(days@),
                slot_for(before, day@.date) == slot_for(before.subrange(0, slot as int), day@.date),
            decreases slot,
        {
            proof {
                let head = before.subrange(0, slot as int);
                assert(head.drop_last() =~= before.subrange(0, slot - 1));
                assert(head.last() == days@[slot - 1]@);
            }
            slot = slot - 1;
        }
        proof {
            let head = before.subrange(0, slot as int);
            if slot > 0 {
                assert(head.last() == days@[slot - 1]@);
            }
            assert(slot_for(head, day@.date) == slot);
        }
        days.insert(slot, day);
        proof {
            assert(day_views(days@) =~= before.insert(slot as int, day@));
        }
    }

    /// The ledger that starts from what was stored: the settings, today's
    /// day if one was stored, and the past days that were found.
    ///
    /// Today's flag is not taken from what was stored: it is measured
    /// against today's goal. Where no day was stored for `today`, today
    /// begins empty with the configured goal. The past days are kept as they
    /// were stored and put in order of date. Ids go on after the largest id
    /// among all records, of today and of the past days.
    ///
    /// What was stored is not tested here. The ledger that comes back is
    /// well formed exactly where [`loads_well`] holds of it, which
    /// [`AppState::is_well_formed`] computes.
    pub fn from_loaded(
        settings: UserSettings,
        today: i32,
        today_stats: Option<DailyStats>,
        past: Vec<DailyStats>,
    ) -> (state: AppState)
        ensures
            state@.settings == settings@,
            state@.today == match today_stats {
                Some(day) => day@.with_goal(day@.goal_amount),
                None => DayView::fresh(today as int, settings@.daily_goal),
            },
            state@.today.goal_achieved == (state@.today.total_amount
                >= state@.today.goal_amount),
            state@.history == sorted_by_date(day_views(past@)),
            state@.history.len() == past@.len(),
            dates_ascend(state@.history),
            state@.history.to_multiset() == day_views(past@).to_multiset(),
            state@.last_record_id == max_loaded_id(state@.today, day_views(past@)),
            forall|i: int|
                0 <= i < state@.today.records.len() ==> (#[trigger] state@.today.records[i]).id
                    <= state@.last_record_id,
            forall|d: int, r: int|
                0 <= d < state@.history.len() && 0 <= r < state@.history[d].records.len() ==> (
                #[trigger] state@.history[d].records[r]).id <= state@.last_record_id,
            state@.wf() <==> loads_well(state@.today, day_views(past@)),
    {
        let today_stats = match today_stats {
            Some(day) => DailyStats {
                date: day.date,
                total_amount: day.total_amount,
                goal_amount: day.goal_amount,
                records: day.records,
                goal_achieved: day.total_amount >= day.goal_amount,
            },
            None => DailyStats {
                date: today,
                total_amount: 0,
                goal_amount: settings.daily_goal,
                records: Vec::new(),
                goal_achieved: settings.daily_goal == 0,
            },
        };
        let past_largest = Self::largest_id_of_days(&past);
        let mut rest = past;
        let mut weekly_stats: Vec<DailyStats> = Vec::new();
        let ghost mut taken: int = 0;
        proof {
            assert(day_views(past@.subrange(0, 0)) =~= Seq::empty());
        }
        while rest.len() > 0
            invariant
                0 <= taken <= past@.len(),
                rest@ =~= past@.subrange(taken, past@.len() as int),
                day_views(weekly_stats@) == sorted_by_date(day_views(past@.subrange(0, taken))),
            decreases rest@.len(),
        {
            let day = rest.remove(0);
            proof {
                let next = day_views(past@.subrange(0, taken + 1));
                assert(next.drop_last() =~= day_views(past@.subrange(0, taken)));
                assert(next.last() == day@);
                taken = taken + 1;
            }
            Self::insert_by_date(&mut weekly_stats, day);
        }
        proof {
            assert(past@.subrange(0, taken) =~= past@);
            lemma_sorted_by_date(day_views(past@));
        }
        let today_largest = Self::largest_id(&today_stats.records);
        let last_record_id = if today_largest > past_largest {
            today_largest
        } else {
            past_largest
        };
        proof {
            let found = day_views(past@);
            let kept = day_views(weekly_stats@);
            lemma_max_id_bounds(today_stats@.records);
            lemma_max_id_of_days_bounds(found);
            lemma_sorted_members(found);
            assert forall|d: int, r: int|
                0 <= d < kept.len() && 0 <= r < kept[d].records.len() implies (
            #[trigger] kept[d].records[r]).id <= last_record_id by {
                assert(found.contains(kept[d]));
                let at = choose|at: int| 0 <= at < found.len() && found[at] == kept[d];
                assert(found[at].records[r].id <= max_id_of_days(found));
            }
            if loads_well(today_stats@, found) {
                lemma_sorted_strictly(found);
                assert forall|i: int| 0 <= i < kept.len() implies (#[trigger] kept[i]).consistent()
                    && kept[i].date < today_stats@.date by {
                    assert(found.contains(kept[i]));
                }
            }
            let built = AppState { settings, today_stats, weekly_stats, last_record_id };
            assert(built@.history == kept);
            if built@.wf() {
                lemma_strictly_sorted_differ(found);
                lemma_sorted_keeps_members(found);
                assert forall|i: int| 0 <= i < found.len() implies (#[trigger] found[i]).consistent()
                    && found[i].date < today_stats@.date by {
                    assert(kept.contains(found[i]));
                    let k = choose|k: int| 0 <= k < kept.len() && kept[k] == found[i];
                    assert(kept[k].consistent());
                }
            }
        }
        AppState { settings, today_stats, weekly_stats, last_record_id }
    }
}

} // verus!
