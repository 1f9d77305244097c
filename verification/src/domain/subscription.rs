//! A user's subscription to a service, and the one computation on it:
//! the renewal date that follows the current one.
//!
//! Dates are day numbers in the proleptic Gregorian calendar (days from
//! the common era, as `chrono` counts them). Day and week periods are
//! plain arithmetic on that number; month and year periods need the
//! calendar itself and go through `chrono`.

use vstd::prelude::*;

verus! {

use crate::domain::user::UserId;
use crate::domain::service::ServiceId;

/// Whether a day number denotes a date `chrono` can represent: the name
/// for `NaiveDate::from_num_days_from_ce_opt` succeeding.
pub uninterp spec fn chrono_day_in_range(d: int) -> bool;

/// The day number reached from day `d` after `m` calendar months: the
/// name for what `NaiveDate::checked_add_months` computes.
pub uninterp spec fn months_later(d: int, m: int) -> int;

/// Relies on `chrono::NaiveDate::from_num_days_from_ce_opt`: decides
/// whether a day number denotes a representable date.
#[verifier::external_body]
pub fn day_in_range(d: i32) -> (r: bool)
    ensures
        r == chrono_day_in_range(d as int),
{
    chrono::NaiveDate::from_num_days_from_ce_opt(d).is_some()
}

/// Relies on `chrono::NaiveDate::checked_add_days` and
/// `Datelike::num_days_from_ce`: adding `n` days to the date numbered
/// `d` yields the date numbered `d + n`, or nothing when that date is
/// out of range.
#[verifier::external_body]
fn add_days(d: i32, n: u32) -> (r: Option<i32>)
    requires
        chrono_day_in_range(d as int),
    ensures
        r matches Some(x) ==> x as int == d + n && chrono_day_in_range(d + n),
        r is None ==> !chrono_day_in_range(d + n),
{
    let date = match chrono::NaiveDate::from_num_days_from_ce_opt(d) {
        Some(x) => x,
        None => return None,
    };
    date.checked_add_days(chrono::Days::new(n as u64)).map(|x| chrono::Datelike::num_days_from_ce(&x))
}

/// Relies on `chrono::NaiveDate::checked_add_months` and
/// `Datelike::num_days_from_ce`: the calendar result of adding `m`
/// months to the date numbered `d`, a function of the two alone, or
/// nothing when that result is out of range. Adding zero months returns
/// the same date, and adding at least one month lands in a later month,
/// hence on a strictly later day even where the day of month clamps.
#[verifier::external_body]
fn add_months(d: i32, m: u32) -> (r: Option<i32>)
    requires
        chrono_day_in_range(d as int),
    ensures
        m == 0 ==> r == Some(d),
        r matches Some(x) ==> {
            &&& x as int == months_later(d as int, m as int)
            &&& chrono_day_in_range(months_later(d as int, m as int))
            &&& (m >= 1 ==> x > d)
        },
        r is None ==> !chrono_day_in_range(months_later(d as int, m as int)),
{
    let date = match chrono::NaiveDate::from_num_days_from_ce_opt(d) {
        Some(x) => x,
        None => return None,
    };
    date.checked_add_months(chrono::Months::new(m)).map(|x| chrono::Datelike::num_days_from_ce(&x))
}

/// How frequently a subscription renews, combined with
/// `billing_period`.
#[derive(Clone, Copy, PartialEq, Eq, Structural, Debug)]
pub enum BillingPeriodUnit {
    Day,
    Week,
    Month,
    Year,
}

/// A subscription key.
pub struct SubscriptionId(pub u128);

/// An ISO 4217 currency, by its numeric code.
pub struct CurrencyCode(pub u16);

/// A user's subscription to a service. Instants are Unix seconds and
/// dates are day numbers from the common era.
pub struct Subscription {
    pub id: SubscriptionId,
    /// Owner of the subscription.
    pub user_id: UserId,
    /// Name given by the user, or the service's name.
    pub name: String,
    /// Optional description.
    pub description: Option<String>,
    /// Amount in the currency's subunit (e.g. cents).
    pub amount: u64,
    /// Currency of `amount`.
    pub currency: CurrencyCode,
    /// The upcoming renewal date.
    pub next_renewal_date: i32,
    /// Renews every `billing_period` `billing_period_unit`s.
    pub billing_period: u8,
    pub billing_period_unit: BillingPeriodUnit,
    /// The service this subscription is bound to.
    pub service_id: ServiceId,
    /// When the user added the subscription.
    pub created_at: i64,
    /// Last update instant.
    pub updated_at: i64,
    /// When the user marked it cancelled.
    pub cancelled_at: Option<i64>,
    /// Why it was cancelled.
    pub cancel_reason: Option<String>,
    /// Since when the user is subscribed.
    pub subscribed_at: Option<i32>,
    /// When the user deleted it.
    pub deleted_at: Option<i64>,
}

impl Subscription {
    /// The day number the renewal after `next_renewal_date` falls on.
    pub open spec fn renewal_target(&self) -> int {
        match self.billing_period_unit {
            BillingPeriodUnit::Day => self.next_renewal_date + self.billing_period,
            BillingPeriodUnit::Week => self.next_renewal_date + 7 * self.billing_period,
            BillingPeriodUnit::Month => months_later(
                self.next_renewal_date as int,
                self.billing_period as int,
            ),
            BillingPeriodUnit::Year => months_later(
                self.next_renewal_date as int,
                12 * self.billing_period as int,
            ),
        }
    }

    /// The renewal date that follows the current one, or nothing when
    /// it falls outside the representable calendar range. With a
    /// positive period the result is strictly later than the current
    /// date; with a zero period it is the current date itself.
    pub fn next_renewal(&self) -> (r: Option<i32>)
        requires
            chrono_day_in_range(self.next_renewal_date as int),
        ensures
            r matches Some(x) ==> x as int == self.renewal_target() && chrono_day_in_range(
                self.renewal_target(),
            ),
            r is None ==> !chrono_day_in_range(self.renewal_target()),
            self.billing_period == 0 ==> r == Some(self.next_renewal_date),
            r matches Some(x) ==> (self.billing_period >= 1 ==> x > self.next_renewal_date),
    {
        match self.billing_period_unit {
            BillingPeriodUnit::Day => add_days(self.next_renewal_date, self.billing_period as u32),
            BillingPeriodUnit::Week => add_days(
                self.next_renewal_date,
                7 * (self.billing_period as u32),
            ),
            BillingPeriodUnit::Month => add_months(
                self.next_renewal_date,
                self.billing_period as u32,
            ),
            BillingPeriodUnit::Year => add_months(
                self.next_renewal_date,
                12 * (self.billing_period as u32),
            ),
        }
    }

    /// As `next_renewal`, for a date not yet known to be in range: a
    /// stored date that does not denote a representable day yields
    /// nothing.
    pub fn next_renewal_checked(&self) -> (r: Option<i32>)
        ensures
            chrono_day_in_range(self.next_renewal_date as int) ==> {
                &&& (r matches Some(x) ==> x as int == self.renewal_target()
                    && chrono_day_in_range(self.renewal_target()))
                &&& (r is None ==> !chrono_day_in_range(self.renewal_target()))
                &&& (self.billing_period == 0 ==> r == Some(self.next_renewal_date))
                &&& (r matches Some(x) ==> (self.billing_period >= 1 ==> x
                    > self.next_renewal_date))
            },
            !chrono_day_in_range(self.next_renewal_date as int) ==> r is None,
    {
        if day_in_range(self.next_renewal_date) {
            self.next_renewal()
        } else {
            None
        }
    }
}

} // verus!
