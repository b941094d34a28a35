//! Testing whether a ledger is well formed.
//!
//! What comes from storage may have been written by anyone. These functions
//! compute the ledger's invariant, so that a caller can know whether it
//! holds.

use vstd::prelude::*;
use crate::loading::day_views;
use crate::models::{amount_sum, AppState, DailyStats, WaterRecord, HISTORY_DAYS};

verus! {

/// Sum of the amounts of `records`.
fn records_sum(records: &Vec<WaterRecord>) -> (sum: u128)
    ensures
        sum == amount_sum(records@),
{
    let mut sum: u128 = 0;
    let mut i: usize = 0;
    while i < records.len()
        invariant
            i <= records@.len(),
            sum == amount_sum(records@.subrange(0, i as int)),
            sum <= i * 0xffff_ffff,
        decreases records@.len() - i,
    {
        proof {
            let next = records@.subrange(0, i + 1);
            assert(next.drop_last() =~= records@.subrange(0, i as int));
        }
        sum = sum + records[i].amount as u128;
        i = i + 1;
    }
    proof {
        assert(records@.subrange(0, i as int) =~= records@);
    }
    sum
}

/// Whether the ids of `records` increase strictly from each to the next.
fn ids_in_order(records: &Vec<WaterRecord>) -> (ok: bool)
    ensures
        ok == (forall|i: int, j: int|
            0 <= i < j < records@.len() ==> (#[trigger] records@[i]).id < (
            #[trigger] records@[j]).id),
{
    let mut i: usize = 1;
    while i < records.len()
        invariant
            1 <= i,
            forall|a: int, b: int|
                0 <= a < b < i && b < records@.len() ==> (#[trigger] records@[a]).id < (
                #[trigger] records@[b]).id,
        decreases records@.len() - i,
    {
        if records[i - 1].id >= records[i].id {
            assert(!((#[trigger] records@[i - 1]).id < (#[trigger] records@[i as int]).id));
            return false;
        }
        assert forall|a: int, b: int| 0 <= a < b < i + 1 && b < records@.len() implies (
        #[trigger] records@[a]).id < (#[trigger] records@[b]).id by {
            if b == i && a < i - 1 {
                assert(records@[a].id < records@[i - 1].id);
            }
        }
        i = i + 1;
    }
    true
}

/// Whether no id of `records` is above `limit`.
fn ids_within(records: &Vec<WaterRecord>, limit: u64) -> (ok: bool)
    ensures
        ok == (forall|i: int| 0 <= i < records@.len() ==> (#[trigger] records@[i]).id <= limit),
{
    let mut i: usize = 0;
    while i < records.len()
        invariant
            forall|k: int| 0 <= k < i && k < records@.len() ==> (#[trigger] records@[k]).id <= limit,
        decreases records@.len() - i,
    {
        if records[i].id > limit {
            return false;
        }
        i = i + 1;
    }
    true
}

/// Whether each of `days` is consistent.
fn days_consistent(days: &Vec<DailyStats>) -> (ok: bool)
    ensures
        ok == (forall|i: int|
            0 <= i < day_views(days@).len() ==> (#[trigger] day_views(days@)[i]).consistent()),
{
    let mut i: usize = 0;
    while i < days.len()
        invariant
            forall|k: int|
                0 <= k < i && k < days@.len() ==> (#[trigger] day_views(days@)[k]).consistent(),
        decreases days@.len() - i,
    {
        if !days[i].is_consistent() {
            assert(!day_views(days@)[i as int].consistent());
            return false;
        }
        i = i + 1;
    }
    true
}

/// Whether the dates of `days` increase strictly from each to the next.
fn dates_in_order(days: &Vec<DailyStats>) -> (ok: bool)
    ensures
        ok == (forall|i: int, j: int|
            0 <= i < j < day_views(days@).len() ==> (#[trigger] day_views(days@)[i]).date < (
            #[trigger] day_views(days@)[j]).date),
{
    let mut i: usize = 1;
    while i < days.len()
        invariant
            1 <= i,
            forall|a: int, b: int|
                0 <= a < b < i && b < days@.len() ==> (#[trigger] day_views(days@)[a]).date < (
                #[trigger] day_views(days@)[b]).date,
        decreases days@.len() - i,
    {
        if days[i - 1].date >= days[i].date {
            assert(!((#[trigger] day_views(days@)[i - 1]).date < (#[trigger] day_views(
                days@,
            )[i as int]).date));
            return false;
        }
        assert forall|a: int, b: int| 0 <= a < b < i + 1 && b < days@.len() implies (
        #[trigger] day_views(days@)[a]).date < (#[trigger] day_views(days@)[b]).date by {
            if b == i && a < i - 1 {
                assert(day_views(days@)[a].date < day_views(days@)[i - 1].date);
            }
        }
        i = i + 1;
    }
    true
}

/// Whether each of `days` is before the day `today`.
fn dates_before(days: &Vec<DailyStats>, today: i32) -> (ok: bool)
    ensures
        ok == (forall|i: int|
            0 <= i < day_views(days@).len() ==> (#[trigger] day_views(days@)[i]).date < today),
{
    let mut i: usize = 0;
    while i < days.len()
        invariant
            forall|k: int|
                0 <= k < i && k < days@.len() ==> (#[trigger] day_views(days@)[k]).date < today,
        decreases days@.len() - i,
    {
        if days[i].date >= today {
            assert(!(day_views(days@)[i as int].date < today));
            return false;
        }
        i = i + 1;
    }
    true
}

/// Whether no record of `days` has an id above `limit`.
fn days_ids_within(days: &Vec<DailyStats>, limit: u64) -> (ok: bool)
    ensures
        ok == (forall|d: int, r: int|
            0 <= d < day_views(days@).len() && 0 <= r < day_views(days@)[d].records.len() ==> (
            #[trigger] day_views(days@)[d].records[r]).id <= limit),
{
    let mut i: usize = 0;
    while i < days.len()
        invariant
            forall|d: int, r: int|
                0 <= d < i && d < days@.len() && 0 <= r < day_views(days@)[d].records.len() ==> (
                #[trigger] day_views(days@)[d].records[r]).id <= limit,
        decreases days@.len() - i,
    {
        if !ids_within(&days[i].records, limit) {
            assert(day_views(days@)[i as int].records == days@[i as int].records@);
            return false;
        }
        assert(day_views(days@)[i as int].records == days@[i as int].records@);
        i = i + 1;
    }
    true
}

impl DailyStats {
    /// Whether the total is the sum of the records and the flag says
    /// whether the total has reached the goal.
    pub fn is_consistent(&self) -> (ok: bool)
        ensures
            ok == self@.consistent(),
    {
        let sum = records_sum(&self.records);
        sum == self.total_amount as u128 && self.goal_achieved == (self.total_amount
            >= self.goal_amount)
    }
}

impl AppState {
    /// Whether the ledger's invariant holds.
    pub fn is_well_formed(&self) -> (ok: bool)
        ensures
            ok == self@.wf(),
    {
        let today_consistent = self.today_stats.is_consistent();
        let past_consistent = days_consistent(&self.weekly_stats);
        let few = self.weekly_stats.len() <= HISTORY_DAYS;
        let past_in_order = dates_in_order(&self.weekly_stats);
        let past_before = dates_before(&self.weekly_stats, self.today_stats.date);
        let ids_ordered = ids_in_order(&self.today_stats.records);
        let ids_bounded = ids_within(&self.today_stats.records, self.last_record_id);
        let past_ids_bounded = days_ids_within(&self.weekly_stats, self.last_record_id);
        proof {
            assert(self@.history == day_views(self.weekly_stats@));
        }
        today_consistent && past_consistent && few && past_in_order && past_before && ids_ordered
            && ids_bounded && past_ids_bounded
    }
}

} // verus!
