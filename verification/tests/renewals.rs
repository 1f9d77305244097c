use chrono::{Datelike, NaiveDate};
use recurio::domain::service::ServiceId;
use recurio::domain::subscription::{BillingPeriodUnit, CurrencyCode, Subscription, SubscriptionId};
use recurio::domain::user::UserId;

fn day(y: i32, m: u32, d: u32) -> i32 {
    NaiveDate::from_ymd_opt(y, m, d).unwrap().num_days_from_ce()
}

fn subscription(date: i32, period: u8, unit: BillingPeriodUnit) -> Subscription {
    Subscription {
        id: SubscriptionId(1),
        user_id: UserId(2),
        name: "streaming".to_string(),
        description: None,
        amount: 999,
        currency: CurrencyCode(978),
        next_renewal_date: date,
        billing_period: period,
        billing_period_unit: unit,
        service_id: ServiceId(3),
        created_at: 0,
        updated_at: 0,
        cancelled_at: None,
        cancel_reason: None,
        subscribed_at: None,
        deleted_at: None,
    }
}

#[test]
fn daily_renewal_advances_by_days() {
    let s = subscription(day(2024, 3, 1), 5, BillingPeriodUnit::Day);
    assert_eq!(s.next_renewal().unwrap(), day(2024, 3, 6));
}

#[test]
fn weekly_renewal_advances_by_seven_days() {
    let s = subscription(day(2024, 3, 1), 2, BillingPeriodUnit::Week);
    assert_eq!(s.next_renewal().unwrap(), day(2024, 3, 15));
}

#[test]
fn monthly_renewal_clamps_to_month_end() {
    let s = subscription(day(2024, 1, 31), 1, BillingPeriodUnit::Month);
    assert_eq!(s.next_renewal().unwrap(), day(2024, 2, 29));
}

#[test]
fn yearly_renewal_handles_leap_day() {
    let s = subscription(day(2024, 2, 29), 1, BillingPeriodUnit::Year);
    assert_eq!(s.next_renewal().unwrap(), day(2025, 2, 28));
}

#[test]
fn out_of_range_date_yields_nothing() {
    let s = subscription(i32::MAX, 1, BillingPeriodUnit::Day);
    assert!(s.next_renewal_checked().is_none());
}

#[test]
fn zero_period_renews_on_the_same_day() {
    let date = day(2024, 3, 15);
    for unit in [
        BillingPeriodUnit::Day,
        BillingPeriodUnit::Week,
        BillingPeriodUnit::Month,
        BillingPeriodUnit::Year,
    ] {
        let s = subscription(date, 0, unit);
        assert_eq!(s.next_renewal().unwrap(), date);
    }
}

#[test]
fn positive_period_renews_strictly_later() {
    let date = day(2024, 1, 31);
    for unit in [
        BillingPeriodUnit::Day,
        BillingPeriodUnit::Week,
        BillingPeriodUnit::Month,
        BillingPeriodUnit::Year,
    ] {
        let s = subscription(date, 1, unit);
        assert!(s.next_renewal().unwrap() > date);
    }
}
