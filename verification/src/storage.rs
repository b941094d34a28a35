//! Names under which the settings and the days are stored.

use vstd::prelude::*;
use vstd::string::*;

verus! {

/// The text that chrono prints for the day numbered `day`, as year, month
/// and day of month with hyphens between them; none where chrono has no
/// date of that number.
pub uninterp spec fn iso_date(day: i32) -> Option<Seq<char>>;

/// Turns the day number into a date with
/// `chrono::NaiveDate::from_num_days_from_ce_opt` and prints it with
/// `NaiveDate::format` and the pattern `%Y-%m-%d`. Both depend on the number
/// alone; what comes out is known here only by the name [`iso_date`].
#[verifier::external_body]
fn format_day(day: i32) -> (text: Option<String>)
    ensures
        iso_date(day) == match text {
            Some(printed) => Some(printed@),
            None => None,
        },
{
    match chrono::NaiveDate::from_num_days_from_ce_opt(day) {
        Some(date) => Some(date.format("%Y-%m-%d").to_string()),
        None => None,
    }
}

/// The name under which the day whose date prints as `date_text` is stored.
pub open spec fn stats_name(date_text: Seq<char>) -> Seq<char> {
    "stats_"@ + date_text + ".json"@
}

/// The name under which the settings are stored.
pub fn settings_file_name() -> (name: String)
    ensures
        name@ == "settings.json"@,
{
    "settings.json".to_owned()
}

/// The name under which the day whose date prints as `date_text` is stored.
pub fn stats_file_name_for(date_text: &str) -> (name: String)
    ensures
        name@ == stats_name(date_text@),
{
    "stats_".to_owned().concat(date_text).concat(".json")
}

/// The name under which the day numbered `day` is stored; none where the
/// calendar has no date of that number.
pub fn stats_file_name(day: i32) -> (name: Option<String>)
    ensures
        match iso_date(day) {
            Some(date_text) => name.is_some() && name.unwrap()@ == stats_name(date_text),
            None => name.is_none(),
        },
{
    match format_day(day) {
        Some(printed) => Some(stats_file_name_for(printed.as_str())),
        None => None,
    }
}

} // verus!
