//! The intake ledger: today's records, the days before it, and the figures
//! derived from them.
//!
//! Every executable type has a mathematical view, and every operation is
//! stated as a function on views. Dates are day numbers (see
//! [`crate::clock::Moment`]); instants are milliseconds since the Unix epoch.

use vstd::prelude::*;
use crate::clock::local_now;

verus! {

/// The goal a new ledger starts with, in millilitres.
pub const DEFAULT_DAILY_GOAL: u32 = 2000;

/// The reminder interval a new configuration starts with, in minutes.
pub const DEFAULT_REMINDER_INTERVAL: u32 = 15;

/// How many past days a ledger keeps.
pub const HISTORY_DAYS: usize = 6;

/// One intake.
#[derive(Debug, Clone, Copy, PartialEq, Eq, Structural)]
pub struct WaterRecord {
    pub id: u64,
    /// Millilitres.
    pub amount: u32,
    /// Milliseconds since the Unix epoch.
    pub timestamp: i64,
}

/// The intakes of one calendar day.
#[derive(Debug, Clone)]
pub struct DailyStats {
    /// Day number of the calendar day.
    pub date: i32,
    pub total_amount: u32,
    pub goal_amount: u32,
    /// In the order in which they were added.
    pub records: Vec<WaterRecord>,
    pub goal_achieved: bool,
}

/// What the user has configured.
#[derive(Debug, Clone)]
pub struct UserSettings {
    /// Millilitres.
    pub daily_goal: u32,
    /// Minutes.
    pub reminder_interval: u32,
    pub reminder_enabled: bool,
    /// Start of the active window, as `HH:MM`.
    pub start_time: String,
    /// End of the active window, as `HH:MM`.
    pub end_time: String,
}

/// The ledger: settings, today, and the days before today, oldest first.
#[derive(Debug, Clone)]
pub struct AppState {
    pub settings: UserSettings,
    pub today_stats: DailyStats,
    pub weekly_stats: Vec<DailyStats>,
    pub last_record_id: u64,
}

/// What recording an intake did.
#[derive(Debug, Clone, Copy, PartialEq, Eq, Structural)]
pub struct Recorded {
    /// The id of the new record.
    pub id: u64,
    /// Whether this intake took today from below its goal to the goal or
    /// beyond.
    pub crossed_goal: bool,
}

/// Why an intake was not recorded.
#[derive(Debug, Clone, Copy, PartialEq, Eq, Structural)]
pub enum IntakeError {
    /// The amount was zero.
    ZeroAmount,
    /// Today's total would no longer fit in 32 bits.
    TotalOverflow,
    /// No record id is left.
    IdsExhausted,
}

/// Sum of the amounts of `records`.
pub open spec fn amount_sum(records: Seq<WaterRecord>) -> nat
    decreases records.len(),
{
    if records.len() == 0 {
        0
    } else {
        amount_sum(records.drop_last()) + records.last().amount as nat
    }
}

/// Mathematical view of [`DailyStats`].
pub struct DayView {
    pub date: int,
    pub total_amount: nat,
    pub goal_amount: nat,
    pub records: Seq<WaterRecord>,
    pub goal_achieved: bool,
}

impl DayView {
    /// The total is the sum of the records, and the flag says whether the
    /// total has reached the goal.
    pub open spec fn consistent(self) -> bool {
        &&& self.total_amount == amount_sum(self.records)
        &&& self.goal_achieved == (self.total_amount >= self.goal_amount)
    }

    /// A day without intakes.
    pub open spec fn fresh(date: int, goal: nat) -> DayView {
        DayView {
            date,
            total_amount: 0,
            goal_amount: goal,
            records: Seq::empty(),
            goal_achieved: goal == 0,
        }
    }

    /// The day after `record` was added.
    pub open spec fn with_record(self, record: WaterRecord) -> DayView {
        DayView {
            total_amount: self.total_amount + record.amount as nat,
            records: self.records.push(record),
            goal_achieved: self.total_amount + record.amount as nat >= self.goal_amount,
            ..self
        }
    }

    /// The day after its last record was taken back. The total never drops
    /// below zero.
    pub open spec fn without_last(self) -> DayView
        recommends
            self.records.len() > 0,
    {
        let left: nat = if self.total_amount >= self.records.last().amount as nat {
            (self.total_amount - self.records.last().amount as nat) as nat
        } else {
            0
        };
        DayView {
            total_amount: left,
            records: self.records.drop_last(),
            goal_achieved: left >= self.goal_amount,
            ..self
        }
    }

    /// The day measured against another goal.
    pub open spec fn with_goal(self, goal: nat) -> DayView {
        DayView { goal_amount: goal, goal_achieved: self.total_amount >= goal, ..self }
    }

    /// Whole percent of the goal that the total has reached, rounded down
    /// and never above 100. With a goal of zero it is 0.
    pub open spec fn progress_percent(self) -> nat {
        if self.goal_amount == 0 {
            0
        } else if self.total_amount * 100 / self.goal_amount > 100 {
            100
        } else {
            self.total_amount * 100 / self.goal_amount
        }
    }
}

/// Sum of the totals of `days`.
pub open spec fn total_sum(days: Seq<DayView>) -> nat
    decreases days.len(),
{
    if days.len() == 0 {
        0
    } else {
        total_sum(days.drop_last()) + days.last().total_amount
    }
}

/// How many days at the end of `days` reached their goal without a gap.
pub open spec fn trailing_achieved(days: Seq<DayView>) -> nat
    decreases days.len(),
{
    if days.len() == 0 || !days.last().goal_achieved {
        0
    } else {
        1 + trailing_achieved(days.drop_last())
    }
}

/// The last six of `days`, or all of them where there are fewer.
pub open spec fn recent(days: Seq<DayView>) -> Seq<DayView> {
    if days.len() > 6 {
        days.subrange(days.len() - 6, days.len() as int)
    } else {
        days
    }
}

impl View for DailyStats {
    type V = DayView;

    open spec fn view(&self) -> DayView {
        DayView {
            date: self.date as int,
            total_amount: self.total_amount as nat,
            goal_amount: self.goal_amount as nat,
            records: self.records@,
            goal_achieved: self.goal_achieved,
        }
    }
}

/// Mathematical view of [`UserSettings`].
pub struct SettingsView {
    pub daily_goal: nat,
    pub reminder_interval: nat,
    pub reminder_enabled: bool,
    pub start_time: Seq<char>,
    pub end_time: Seq<char>,
}

impl SettingsView {
    /// Goal 2000 ml, a reminder every 15 minutes, switched on, between 07:00
    /// and 22:00.
    pub open spec fn initial() -> SettingsView {
        SettingsView {
            daily_goal: 2000,
            reminder_interval: 15,
            reminder_enabled: true,
            start_time: "07:00"@,
            end_time: "22:00"@,
        }
    }
}

impl View for UserSettings {
    type V = SettingsView;

    open spec fn view(&self) -> SettingsView {
        SettingsView {
            daily_goal: self.daily_goal as nat,
            reminder_interval: self.reminder_interval as nat,
            reminder_enabled: self.reminder_enabled,
            start_time: self.start_time@,
            end_time: self.end_time@,
        }
    }
}

impl Default for UserSettings {
    fn default() -> (settings: Self)
        ensures
            settings@ == SettingsView::initial(),
    {
        UserSettings {
            daily_goal: DEFAULT_DAILY_GOAL,
            reminder_interval: DEFAULT_REMINDER_INTERVAL,
            reminder_enabled: true,
            start_time: "07:00".to_owned(),
            end_time: "22:00".to_owned(),
        }
    }
}

/// Mathematical view of [`AppState`].
pub struct LedgerView {
    pub settings: SettingsView,
    pub today: DayView,
    /// The days before today, oldest first.
    pub history: Seq<DayView>,
    pub last_record_id: nat,
}

impl LedgerView {
    /// The ledger's invariant. Every day is consistent; at most six past days
    /// are kept, in strictly increasing order of date and all before today;
    /// today's record ids increase strictly; and no record, of today or of a
    /// past day, has an id above the last id handed out.
    pub open spec fn wf(self) -> bool {
        &&& self.today.consistent()
        &&& forall|i: int| 0 <= i < self.history.len() ==> (#[trigger] self.history[i]).consistent()
        &&& self.history.len() <= 6
        &&& forall|i: int, j: int|
            0 <= i < j < self.history.len() ==> (#[trigger] self.history[i]).date < (
            #[trigger] self.history[j]).date
        &&& forall|i: int|
            0 <= i < self.history.len() ==> (#[trigger] self.history[i]).date < self.today.date
        &&& forall|i: int, j: int|
            0 <= i < j < self.today.records.len() ==> (#[trigger] self.today.records[i]).id < (
            #[trigger] self.today.records[j]).id
        &&& forall|i: int|
            0 <= i < self.today.records.len() ==> (#[trigger] self.today.records[i]).id
                <= self.last_record_id
        &&& forall|d: int, r: int|
            0 <= d < self.history.len() && 0 <= r < self.history[d].records.len() ==> (
            #[trigger] self.history[d].records[r]).id <= self.last_record_id
    }

    /// A ledger that starts on `date` with the initial settings.
    pub open spec fn starting(date: int) -> LedgerView {
        LedgerView {
            settings: SettingsView::initial(),
            today: DayView::fresh(date, 2000),
            history: Seq::empty(),
            last_record_id: 0,
        }
    }

    /// Why an intake of `amount` is refused, if it is.
    pub open spec fn add_refusal(self, amount: u32) -> Option<IntakeError> {
        if amount == 0 {
            Some(IntakeError::ZeroAmount)
        } else if self.today.total_amount + amount > u32::MAX {
            Some(IntakeError::TotalOverflow)
        } else if self.last_record_id + 1 > u64::MAX {
            Some(IntakeError::IdsExhausted)
        } else {
            None
        }
    }

    /// The record that an intake of `amount` at `timestamp` creates.
    pub open spec fn next_record(self, amount: u32, timestamp: i64) -> WaterRecord {
        WaterRecord { id: (self.last_record_id + 1) as u64, amount, timestamp }
    }

    /// What an intake of `amount` reports: the id it gets, and whether it
    /// takes today from below its goal to the goal or beyond.
    pub open spec fn recorded(self, amount: u32) -> Recorded {
        Recorded {
            id: (self.last_record_id + 1) as u64,
            crossed_goal: !self.today.goal_achieved && self.today.total_amount + amount
                >= self.today.goal_amount,
        }
    }

    /// The ledger after an intake of `amount` at `timestamp`.
    pub open spec fn with_record(self, amount: u32, timestamp: i64) -> LedgerView {
        LedgerView {
            today: self.today.with_record(self.next_record(amount, timestamp)),
            last_record_id: self.last_record_id + 1,
            ..self
        }
    }

    /// The ledger after the intakes of `intakes`, each an amount and its
    /// instant, in their order.
    pub open spec fn with_records(self, intakes: Seq<(u32, i64)>) -> LedgerView
        decreases intakes.len(),
    {
        if intakes.len() == 0 {
            self
        } else {
            self.with_records(intakes.drop_last()).with_record(
                intakes.last().0,
                intakes.last().1,
            )
        }
    }

    /// The ledger after today's last intake was taken back. Ids are not
    /// handed out again.
    pub open spec fn without_last(self) -> LedgerView
        recommends
            self.today.records.len() > 0,
    {
        LedgerView { today: self.today.without_last(), ..self }
    }

    /// The ledger with another daily goal. Past days keep theirs.
    pub open spec fn with_goal(self, goal: nat) -> LedgerView {
        LedgerView {
            settings: SettingsView { daily_goal: goal, ..self.settings },
            today: self.today.with_goal(goal),
            ..self
        }
    }

    /// The ledger after the calendar moved on to `new_date`: today joins the
    /// past days, of which the six most recent stay, and an empty day with
    /// the configured goal begins. Ids go on from where they were.
    pub open spec fn rolled(self, new_date: int) -> LedgerView {
        LedgerView {
            today: DayView::fresh(new_date, self.settings.daily_goal),
            history: recent(self.history.push(self.today)),
            ..self
        }
    }

    /// What was drunk today and on the past days together.
    pub open spec fn weekly_sum(self) -> nat {
        total_sum(self.history) + self.today.total_amount
    }

    /// The mean over today and the past days, rounded down. Today always
    /// counts as a day.
    pub open spec fn weekly_average(self) -> nat {
        self.weekly_sum() / (self.history.len() + 1)
    }

    /// How many days in a row, today included, reached their goal. It is 0
    /// as long as today has not.
    pub open spec fn streak(self) -> nat {
        if self.today.goal_achieved {
            1 + trailing_achieved(self.history)
        } else {
            0
        }
    }

    /// `amount` is the largest total among today and the past days.
    pub open spec fn is_max_total(self, amount: nat) -> bool {
        &&& self.today.total_amount <= amount
        &&& forall|i: int|
            0 <= i < self.history.len() ==> (#[trigger] self.history[i]).total_amount <= amount
        &&& (amount == self.today.total_amount || exists|i: int|
            0 <= i < self.history.len() && (#[trigger] self.history[i]).total_amount == amount)
    }

    /// Seven totals for a chart. The last is today's; before it stand the
    /// six most recent past days, oldest first. Where fewer than six are
    /// known, the places at the front hold 0.
    pub open spec fn seven_days(self) -> Seq<nat> {
        Seq::new(
            7,
            |i: int|
                if i == 6 {
                    self.today.total_amount
                } else if self.history.len() + i >= 6 {
                    self.history[self.history.len() - 6 + i].total_amount
                } else {
                    0
                },
        )
    }
}

impl View for AppState {
    type V = LedgerView;

    open spec fn view(&self) -> LedgerView {
        LedgerView {
            settings: self.settings@,
            today: self.today_stats@,
            history: self.weekly_stats@.map_values(|day: DailyStats| day@),
            last_record_id: self.last_record_id as nat,
        }
    }
}

/// Adding a record adds its amount to the sum.
pub proof fn lemma_amount_sum_push(records: Seq<WaterRecord>, record: WaterRecord)
    ensures
        amount_sum(records.push(record)) == amount_sum(records) + record.amount as nat,
{
    assert(records.push(record).drop_last() =~= records);
}

/// A run of days at the end of `days` is no longer than `days`.
pub proof fn lemma_trailing_bounded(days: Seq<DayView>)
    ensures
        trailing_achieved(days) <= days.len(),
    decreases days.len(),
{
    if days.len() > 0 && days.last().goal_achieved {
        lemma_trailing_bounded(days.drop_last());
    }
}

/// Sum of the amounts of `intakes`.
pub open spec fn intake_sum(intakes: Seq<(u32, i64)>) -> nat
    decreases intakes.len(),
{
    if intakes.len() == 0 {
        0
    } else {
        intake_sum(intakes.drop_last()) + intakes.last().0 as nat
    }
}

/// Whatever intakes are added to a consistent day, in whatever number, the
/// day stays consistent: its total is the sum of its records, its flag says
/// whether the total has reached the goal, and the total has grown by the
/// sum of the amounts added.
pub proof fn lemma_intakes_add_up(ledger: LedgerView, intakes: Seq<(u32, i64)>)
    requires
        ledger.today.consistent(),
    ensures
        ledger.with_records(intakes).today.consistent(),
        ledger.with_records(intakes).today.total_amount == ledger.today.total_amount
            + intake_sum(intakes),
        ledger.with_records(intakes).today.records.len() == ledger.today.records.len()
            + intakes.len(),
        ledger.with_records(intakes).today.goal_amount == ledger.today.goal_amount,
        ledger.with_records(intakes).history == ledger.history,
        ledger.with_records(intakes).last_record_id == ledger.last_record_id + intakes.len(),
    decreases intakes.len(),
{
    if intakes.len() > 0 {
        let before = ledger.with_records(intakes.drop_last());
        lemma_intakes_add_up(ledger, intakes.drop_last());
        lemma_amount_sum_push(
            before.today.records,
            before.next_record(intakes.last().0, intakes.last().1),
        );
    }
}

/// Taking back an intake that was just added restores the day as it was
/// before: its records, its total and its flag. Only the id that the intake
/// used stays used.
pub proof fn lemma_undo_reverts_add(ledger: LedgerView, amount: u32, timestamp: i64)
    requires
        ledger.today.consistent(),
    ensures
        ledger.with_record(amount, timestamp).without_last() == (LedgerView {
            last_record_id: ledger.last_record_id + 1,
            ..ledger
        }),
        ledger.with_record(amount, timestamp).today.records.last() == ledger.next_record(
            amount,
            timestamp,
        ),
{
    let added = ledger.with_record(amount, timestamp);
    assert(added.today.records.drop_last() =~= ledger.today.records);
}

/// A sum of `days` terms, none above `cap`, has a mean of at most `cap`.
proof fn lemma_mean_bounded(sum: int, days: int, cap: int)
    requires
        days > 0,
        0 <= sum <= (days - 1) * cap + cap,
        0 <= cap,
    ensures
        0 <= sum / days <= cap,
{
    assert(sum <= days * cap) by (nonlinear_arith)
        requires
            sum <= (days - 1) * cap + cap,
    ;
    assert(0 <= sum / days <= cap) by (nonlinear_arith)
        requires
            days > 0,
            0 <= sum <= days * cap,
    ;
}

impl AppState {
    /// An empty ledger for the day `date`, with the initial settings.
    pub fn for_day(date: i32) -> (state: Self)
        ensures
            state@ == LedgerView::starting(date as int),
            state@.wf(),
    {
        let state = AppState {
            settings: UserSettings::default(),
            today_stats: DailyStats {
                date,
                total_amount: 0,
                goal_amount: DEFAULT_DAILY_GOAL,
                records: Vec::new(),
                goal_achieved: false,
            },
            weekly_stats: Vec::new(),
            last_record_id: 0,
        };
        assert(state@.history =~= Seq::empty());
        state
    }

    /// An empty ledger for the current local date, with the initial
    /// settings.
    pub fn new() -> (state: Self)
        ensures
            state@ == LedgerView::starting(state@.today.date),
            state@.wf(),
    {
        let now = local_now();
        Self::for_day(now.day)
    }

    /// Records an intake of `amount` millilitres at `timestamp`.
    ///
    /// On success the result names the new record and says whether this
    /// intake made today reach its goal. A refused intake leaves the ledger
    /// as it was.
    pub fn add_record_at(&mut self, amount: u32, timestamp: i64) -> (outcome: Result<
        Recorded,
        IntakeError,
    >)
        ensures
            match outcome {
                Ok(recorded) => {
                    &&& old(self)@.add_refusal(amount).is_none()
                    &&& final(self)@ == old(self)@.with_record(amount, timestamp)
                    &&& recorded == old(self)@.recorded(amount)
                },
                Err(error) => {
                    &&& old(self)@.add_refusal(amount) == Some(error)
                    &&& *final(self) == *old(self)
                },
            },
            old(self)@.wf() ==> final(self)@.wf(),
    {
        if amount == 0 {
            return Err(IntakeError::ZeroAmount);
        }
        if amount > u32::MAX - self.today_stats.total_amount {
            return Err(IntakeError::TotalOverflow);
        }
        if self.last_record_id == u64::MAX {
            return Err(IntakeError::IdsExhausted);
        }
        let before: bool = self.today_stats.goal_achieved;
        self.last_record_id = self.last_record_id + 1;
        let record = WaterRecord { id: self.last_record_id, amount, timestamp };
        self.today_stats.records.push(record);
        self.today_stats.total_amount = self.today_stats.total_amount + amount;
        self.today_stats.goal_achieved = self.today_stats.total_amount
            >= self.today_stats.goal_amount;
        proof {
            lemma_amount_sum_push(old(self)@.today.records, record);
        }
        Ok(Recorded { id: record.id, crossed_goal: !before && self.today_stats.goal_achieved })
    }

    /// Records an intake of `amount` millilitres at the current time.
    ///
    /// On success the result names the new record and says whether this
    /// intake made today reach its goal. A refused intake leaves the ledger
    /// as it was.
    pub fn add_water_record(&mut self, amount: u32) -> (outcome: Result<Recorded, IntakeError>)
        ensures
            match outcome {
                Ok(recorded) => {
                    &&& old(self)@.add_refusal(amount).is_none()
                    &&& exists|timestamp: i64|
                        final(self)@ == #[trigger] old(self)@.with_record(amount, timestamp)
                    &&& recorded == old(self)@.recorded(amount)
                },
                Err(error) => {
                    &&& old(self)@.add_refusal(amount) == Some(error)
                    &&& *final(self) == *old(self)
                },
            },
            old(self)@.wf() ==> final(self)@.wf(),
    {
        let now = local_now();
        self.add_record_at(amount, now.millis)
    }

    /// Takes back today's last intake, if there is one, and says whether
    /// there was.
    pub fn undo_last_record(&mut self) -> (undone: bool)
        ensures
            undone == (old(self)@.today.records.len() > 0),
            undone ==> final(self)@ == old(self)@.without_last(),
            !undone ==> *final(self) == *old(self),
            old(self)@.wf() ==> final(self)@.wf(),
    {
        if self.today_stats.records.len() == 0 {
            return false;
        }
        match self.today_stats.records.pop() {
            Some(last) => {
                self.today_stats.total_amount = self.today_stats.total_amount.saturating_sub(
                    last.amount,
                );
                self.today_stats.goal_achieved = self.today_stats.total_amount
                    >= self.today_stats.goal_amount;
                proof {
                    lemma_amount_sum_push(self@.today.records, last);
                    assert(old(self)@.today.records =~= self@.today.records.push(last));
                }
            },
            None => {},
        }
        true
    }

    /// Sets the daily goal, for the settings and for today. Today's flag is
    /// measured against the new goal at once; past days keep their goal.
    pub fn set_daily_goal(&mut self, goal: u32)
        ensures
            final(self)@ == old(self)@.with_goal(goal as nat),
            old(self)@.wf() ==> final(self)@.wf(),
    {
        self.settings.daily_goal = goal;
        self.today_stats.goal_amount = goal;
        self.today_stats.goal_achieved = self.today_stats.total_amount >= goal;
    }

    /// Moves on to the day `new_date`: today joins the past days, of which
    /// the six most recent stay, and an empty day with the configured goal
    /// begins.
    pub fn roll_day(&mut self, new_date: i32)
        ensures
            final(self)@ == old(self)@.rolled(new_date as int),
            old(self)@.wf() && old(self)@.today.date < new_date ==> final(self)@.wf(),
    {
        let mut day = DailyStats {
            date: new_date,
            total_amount: 0,
            goal_amount: self.settings.daily_goal,
            records: Vec::new(),
            goal_achieved: self.settings.daily_goal == 0,
        };
        std::mem::swap(&mut self.today_stats, &mut day);
        self.weekly_stats.push(day);
        let ghost full: Seq<DailyStats> = self.weekly_stats@;
        while self.weekly_stats.len() > HISTORY_DAYS
            invariant
                self.weekly_stats@.len() <= full.len(),
                self.weekly_stats@.len() >= 6 || self.weekly_stats@.len() == full.len(),
                self.weekly_stats@ =~= full.subrange(
                    full.len() - self.weekly_stats@.len(),
                    full.len() as int,
                ),
                self.settings == old(self).settings,
                self.last_record_id == old(self).last_record_id,
                self.today_stats@ == DayView::fresh(
                    new_date as int,
                    old(self)@.settings.daily_goal,
                ),
            decreases self.weekly_stats@.len(),
        {
            self.weekly_stats.remove(0);
        }
        proof {
            let pushed = old(self)@.history.push(old(self)@.today);
            assert(full.map_values(|d: DailyStats| d@) =~= pushed);
            assert(self@.history =~= recent(pushed));
            if old(self)@.wf() && old(self)@.today.date < new_date {
                assert(self@.today.records.len() == 0);
                assert(amount_sum(self@.today.records) == 0);
                let kept = self@.history;
                let shift = pushed.len() - kept.len();
                assert forall|i: int| 0 <= i < kept.len() implies kept[i] == pushed[i + shift] by {}
                assert forall|i: int| 0 <= i < kept.len() implies (#[trigger] kept[i]).consistent()
                    && kept[i].date < new_date by {
                    assert(kept[i] == pushed[i + shift]);
                }
                assert forall|i: int, j: int| 0 <= i < j < kept.len() implies (#[trigger] kept[i]).date
                    < (#[trigger] kept[j]).date by {
                    assert(kept[i] == pushed[i + shift]);
                    assert(kept[j] == pushed[j + shift]);
                }
            }
        }
    }

    /// Moves on to the day `current` where that is later than today, and
    /// says whether it did. An earlier or equal date leaves the ledger as it
    /// was.
    pub fn roll_to(&mut self, current: i32) -> (rolled: bool)
        ensures
            rolled == (old(self)@.today.date < current),
            rolled ==> final(self)@ == old(self)@.rolled(current as int),
            !rolled ==> *final(self) == *old(self),
            old(self)@.wf() ==> final(self)@.wf(),
    {
        if self.today_stats.date < current {
            self.roll_day(current);
            true
        } else {
            false
        }
    }

    /// Moves on to the current local date where that is later than today,
    /// and says whether it did.
    pub fn roll_to_today(&mut self) -> (rolled: bool)
        ensures
            rolled ==> old(self)@.today.date < final(self)@.today.date,
            rolled ==> final(self)@ == old(self)@.rolled(final(self)@.today.date),
            !rolled ==> *final(self) == *old(self),
            old(self)@.wf() ==> final(self)@.wf(),
    {
        let now = local_now();
        self.roll_to(now.day)
    }

    /// Sum of the past days' totals.
    fn history_total(&self) -> (sum: u128)
        ensures
            sum == total_sum(self@.history),
            sum <= 0xffff_ffff_ffff_ffff * 0xffff_ffff,
            sum <= self@.history.len() * 0xffff_ffff,
    {
        let mut sum: u128 = 0;
        let mut i: usize = 0;
        while i < self.weekly_stats.len()
            invariant
                i <= self.weekly_stats@.len(),
                sum == total_sum(self@.history.subrange(0, i as int)),
                sum <= i * 0xffff_ffff,
            decreases self.weekly_stats@.len() - i,
        {
            proof {
                let next = self@.history.subrange(0, i + 1);
                assert(next.drop_last() =~= self@.history.subrange(0, i as int));
                assert(next.last() == self.weekly_stats@[i as int]@);
            }
            sum = sum + self.weekly_stats[i].total_amount as u128;
            i = i + 1;
        }
        proof {
            assert(self@.history.subrange(0, i as int) =~= self@.history);
        }
        sum
    }

    /// What was drunk today and on the past days together, where that fits
    /// in 32 bits.
    pub fn checked_weekly_total(&self) -> (total: Option<u32>)
        ensures
            total == if self@.weekly_sum() <= u32::MAX {
                Some(self@.weekly_sum() as u32)
            } else {
                None
            },
    {
        let sum: u128 = self.history_total() + self.today_stats.total_amount as u128;
        if sum <= 0xffff_ffff {
            Some(sum as u32)
        } else {
            None
        }
    }

    /// What was drunk today and on the past days together.
    pub fn get_weekly_total(&self) -> (total: u32)
        requires
            self@.weekly_sum() <= u32::MAX,
        ensures
            total == self@.weekly_sum(),
    {
        let sum: u128 = self.history_total() + self.today_stats.total_amount as u128;
        sum as u32
    }

    /// The mean over today and the past days, rounded down.
    pub fn get_weekly_average(&self) -> (average: u32)
        ensures
            average == self@.weekly_average(),
    {
        let sum: u128 = self.history_total() + self.today_stats.total_amount as u128;
        let days: u128 = self.weekly_stats.len() as u128 + 1;
        let mean: u128 = sum / days;
        proof {
            lemma_mean_bounded(sum as int, days as int, 0xffff_ffff);
        }
        mean as u32
    }

    /// How many days in a row, today included, reached their goal; 0 as
    /// long as today has not.
    pub fn get_streak_days(&self) -> (streak: u32)
        requires
            self@.today.goal_achieved ==> self@.history.len() < u32::MAX,
        ensures
            streak == self@.streak(),
            !self@.today.goal_achieved ==> streak == 0,
    {
        if !self.today_stats.goal_achieved {
            return 0;
        }
        let mut streak: u32 = 1;
        let mut i: usize = self.weekly_stats.len();
        proof {
            assert(self@.history.subrange(0, i as int) =~= self@.history);
            lemma_trailing_bounded(self@.history);
        }
        while i > 0 && self.weekly_stats[i - 1].goal_achieved
            invariant
                i <= self.weekly_stats@.len(),
                streak == 1 + (self.weekly_stats@.len() - i),
                trailing_achieved(self@.history) == trailing_achieved(
                    self@.history.subrange(0, i as int),
                ) + (self.weekly_stats@.len() - i),
                1 + trailing_achieved(self@.history) <= u32::MAX,
            decreases i,
        {
            proof {
                let head = self@.history.subrange(0, i as int);
                assert(head.drop_last() =~= self@.history.subrange(0, i - 1));
                assert(head.last() == self.weekly_stats@[i - 1]@);
            }
            streak = streak + 1;
            i = i - 1;
        }
        proof {
            let head = self@.history.subrange(0, i as int);
            if i > 0 {
                assert(head.last() == self.weekly_stats@[i - 1]@);
            }
            assert(trailing_achieved(head) == 0);
        }
        streak
    }

    /// The largest total among today and the past days.
    pub fn get_max_daily_amount(&self) -> (max_amount: u32)
        ensures
            self@.is_max_total(max_amount as nat),
    {
        let mut max_amount: u32 = self.today_stats.total_amount;
        let mut i: usize = 0;
        while i < self.weekly_stats.len()
            invariant
                i <= self.weekly_stats@.len(),
                self@.today.total_amount <= max_amount,
                forall|k: int| 0 <= k < i ==> (#[trigger] self@.history[k]).total_amount <= max_amount,
                max_amount == self@.today.total_amount || exists|k: int|
                    0 <= k < i && (#[trigger] self@.history[k]).total_amount == max_amount,
            decreases self.weekly_stats@.len() - i,
        {
            if self.weekly_stats[i].total_amount > max_amount {
                max_amount = self.weekly_stats[i].total_amount;
                assert(self@.history[i as int].total_amount == max_amount);
            }
            i = i + 1;
        }
        max_amount
    }

    /// Seven totals for a chart: today's last, before it the six most
    /// recent past days, oldest first, with 0 at the front for each day
    /// that is not known.
    pub fn get_seven_days_data(&self) -> (days: Vec<u32>)
        ensures
            days@.map_values(|ml: u32| ml as nat) == self@.seven_days(),
            days@.len() == 7,
            days@[6] == self@.today.total_amount,
            forall|i: int| 0 <= i < 6 - self@.history.len() ==> days@[i] == 0,
    {
        let known: usize = self.weekly_stats.len();
        let mut days: Vec<u32> = Vec::new();
        let mut i: usize = 0;
        while i < HISTORY_DAYS
            invariant
                i <= 6,
                known == self.weekly_stats@.len(),
                days@.len() == i,
                forall|k: int| 0 <= k < i ==> (#[trigger] days@[k]) as nat == self@.seven_days()[k],
            decreases 6 - i,
        {
            let value: u32 = if known >= HISTORY_DAYS - i {
                self.weekly_stats[known - (HISTORY_DAYS - i)].total_amount
            } else {
                0
            };
            days.push(value);
            i = i + 1;
        }
        days.push(self.today_stats.total_amount);
        proof {
            assert(days@.map_values(|ml: u32| ml as nat) =~= self@.seven_days());
        }
        days
    }

    /// Whole percent of today's goal that has been reached, rounded down
    /// and never above 100; 0 where the goal is zero.
    pub fn get_progress_percentage(&self) -> (percent: u32)
        ensures
            percent == self@.today.progress_percent(),
            percent <= 100,
            self@.today.goal_amount == 0 ==> percent == 0,
    {
        if self.today_stats.goal_amount == 0 {
            return 0;
        }
        let scaled: u64 = self.today_stats.total_amount as u64 * 100;
        let percent: u64 = scaled / self.today_stats.goal_amount as u64;
        if percent > 100 {
            100
        } else {
            percent as u32
        }
    }

    /// Measures today's total against today's goal again and sets the flag
    /// accordingly, whatever it was.
    pub fn rederive_goal_achieved(&mut self)
        ensures
            final(self)@ == (LedgerView {
                today: old(self)@.today.with_goal(old(self)@.today.goal_amount),
                ..old(self)@
            }),
            final(self)@.today.goal_achieved == (final(self)@.today.total_amount
                >= final(self)@.today.goal_amount),
            old(self)@.wf() ==> *final(self) == *old(self),
    {
        self.today_stats.goal_achieved = self.today_stats.total_amount
            >= self.today_stats.goal_amount;
    }

    /// Switches reminders on or off in the settings.
    pub fn set_reminder_enabled(&mut self, enabled: bool)
        ensures
            final(self)@ == (LedgerView {
                settings: SettingsView { reminder_enabled: enabled, ..old(self)@.settings },
                ..old(self)@
            }),
            old(self)@.wf() ==> final(self)@.wf(),
    {
        self.settings.reminder_enabled = enabled;
    }

    /// Sets the reminder interval, in minutes, in the settings.
    pub fn set_reminder_interval(&mut self, minutes: u32)
        ensures
            final(self)@ == (LedgerView {
                settings: SettingsView {
                    reminder_interval: minutes as nat,
                    ..old(self)@.settings
                },
                ..old(self)@
            }),
            old(self)@.wf() ==> final(self)@.wf(),
    {
        self.settings.reminder_interval = minutes;
    }
}

} // verus!
