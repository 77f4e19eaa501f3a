use ident_remover::filter::{
    filter_identities_by_lastmodified, filter_identities_by_status, filter_identities_modified_before, status_of,
    try_filter_identities_by_lastmodified, DateError,
};
use ident_remover::json::Json;
use ident_remover::timing::{is_older_than, longer_than, Instant, Span, MAX_DAYS, MAX_TIMESTAMP, MIN_TIMESTAMP};

fn text(s: &str) -> Json {
    Json::Str(s.to_string())
}

fn identity(id: &str, status: Option<Json>, modified: Option<Json>) -> Json {
    let mut members = vec![("identityId".to_string(), text(id))];
    if let Some(s) = status {
        members.push(("status".to_string(), s));
    }
    if let Some(m) = modified {
        members.push(("lastModificationDateUtc".to_string(), m));
    }
    Json::Object(members)
}

fn ids(list: &[Json]) -> Vec<String> {
    list.iter().map(|j| j.get("identityId").unwrap().as_str().unwrap().to_string()).collect()
}

fn at(s: &str) -> Instant {
    let d = chrono::DateTime::parse_from_rfc3339(s).unwrap();
    Instant { seconds: d.timestamp(), nanos: d.timestamp_subsec_nanos() }
}

#[test]
fn status_filter_keeps_inactive_identities_in_order() {
    let list = vec![
        identity("a", Some(text("Inactive")), None),
        identity("b", Some(text("Active")), None),
        identity("c", None, None),
        identity("d", Some(Json::Object(vec![("Inactive".to_string(), Json::Null)])), None),
        identity("e", Some(text("inactive")), None),
        identity("f", Some(Json::Number("1".to_string())), None),
        identity("g", Some(text("Was Inactive once")), None),
    ];
    let kept = filter_identities_by_status(list);
    assert_eq!(ids(&kept), vec!["a", "d", "g"]);
    assert!(filter_identities_by_status(vec![]).is_empty());
}

#[test]
fn status_text_is_null_where_missing() {
    assert_eq!(status_of(&identity("a", None, None)), "null");
    assert_eq!(status_of(&identity("a", Some(text("Inactive")), None)), "\"Inactive\"");
    assert_eq!(status_of(&Json::Array(vec![])), "null");
}

#[test]
fn status_filter_twice_is_status_filter_once() {
    let list = || {
        vec![
            identity("a", Some(text("Inactive")), None),
            identity("b", Some(text("Active")), None),
            identity("c", Some(text("Inactive")), None),
        ]
    };
    let once = filter_identities_by_status(list());
    let twice = filter_identities_by_status(filter_identities_by_status(list()));
    assert_eq!(ids(&once), ids(&twice));
}

fn kept_at(modified: &str, now: Instant, inactive_days: i64) -> bool {
    let list = vec![identity("x", None, Some(text(modified)))];
    filter_identities_modified_before(list, inactive_days, now).len() == 1
}

#[test]
fn rfc3339_dates_are_read_in_utc() {
    let day = 86_400;
    assert!(!kept_at("1970-01-01T00:00:00Z", Instant { seconds: day, nanos: 0 }, 1));
    assert!(kept_at("1970-01-01T00:00:00Z", Instant { seconds: day, nanos: 1 }, 1));
    assert!(!kept_at("1970-01-01T01:00:00+01:00", Instant { seconds: day, nanos: 0 }, 1));
    assert!(kept_at("1970-01-01T01:00:00+01:00", Instant { seconds: day, nanos: 1 }, 1));
    assert!(!kept_at("1970-01-02T00:00:00+01:00", Instant { seconds: 2 * day - 3600, nanos: 0 }, 1));
    assert!(kept_at("1970-01-02T00:00:00+01:00", Instant { seconds: 2 * day - 3599, nanos: 0 }, 1));
    let t = 1_751_467_959;
    assert!(!kept_at("2025-07-02T14:52:39.0438424Z", Instant { seconds: t + day, nanos: 43_842_400 }, 1));
    assert!(kept_at("2025-07-02T14:52:39.0438424Z", Instant { seconds: t + day, nanos: 43_842_401 }, 1));
    let r = try_filter_identities_by_lastmodified(vec![identity("l", None, Some(text("2016-12-31T23:59:60Z")))], 90);
    assert_eq!(ids(&r.unwrap()), vec!["l"]);
    let r = try_filter_identities_by_lastmodified(vec![identity("x", None, Some(text("2025-07-02")))], 90);
    assert_eq!(r.err(), Some(DateError::UnreadableDate(0)));
    let r = try_filter_identities_by_lastmodified(vec![identity("x", None, Some(text("yesterday")))], 90);
    assert_eq!(r.err(), Some(DateError::UnreadableDate(0)));
}

#[test]
fn spans_are_measured_as_chrono_does() {
    let base = Instant { seconds: 1_767_225_600, nanos: 0 };
    let later = |s: i64, n: u32| Instant { seconds: base.seconds + s, nanos: n };
    assert!(is_older_than(later(1, 0), base, 0));
    assert!(!is_older_than(base, base, 0));
    assert!(is_older_than(later(0, 1), base, 0));
    assert!(!is_older_than(later(-1, 500_000_000), base, 0));
    assert!(is_older_than(later(-1, 500_000_000), base, -1));
    assert!(!is_older_than(later(86_400, 0), base, 1));
    assert!(is_older_than(later(86_400, 1), base, 1));
    assert!(!is_older_than(later(-2 * 86_400, 0), base, -2));
    assert!(is_older_than(later(-2 * 86_400, 1), base, -2));
    assert!(!is_older_than(Instant { seconds: 0, nanos: 2_000_000_000 }, Instant { seconds: 0, nanos: 0 }, -1));
    assert!(is_older_than(Instant { seconds: MAX_DAYS * 86_400, nanos: 1 }, Instant { seconds: 0, nanos: 0 }, MAX_DAYS) == false);
    assert!(longer_than(Span { seconds: 0, nanos: 1 }, Span { seconds: 0, nanos: 0 }));
    assert!(!longer_than(Span { seconds: -1, nanos: -500_000_000 }, Span { seconds: -1, nanos: 0 }));
    assert!(longer_than(Span { seconds: -1, nanos: 0 }, Span { seconds: -1, nanos: -500_000_000 }));
}

#[test]
fn lastmodified_filter_keeps_identities_unmodified_for_long() {
    let list = vec![
        identity("a", None, Some(text("2025-07-02T14:52:39.0438424Z"))),
        identity("b", None, Some(text("2026-02-27T09:07:19.1960627Z"))),
        identity("c", None, Some(text("2025-12-01T00:00:00Z"))),
        identity("d", None, Some(text("2025-11-30T23:59:59Z"))),
    ];
    let kept = filter_identities_modified_before(list, 90, at("2026-03-01T00:00:00Z"));
    assert_eq!(ids(&kept), vec!["a", "d"]);
}

#[test]
fn lastmodified_filter_uses_the_current_time() {
    let list = vec![
        identity("old", None, Some(text("2000-01-01T00:00:00Z"))),
        identity("future", None, Some(text("2999-01-01T00:00:00Z"))),
    ];
    let kept = filter_identities_by_lastmodified(list, 90);
    assert_eq!(ids(&kept), vec!["old"]);
}

#[test]
fn unreadable_dates_are_reported_at_the_first_identity() {
    let good = || identity("g", None, Some(text("2000-01-01T00:00:00Z")));
    let r = try_filter_identities_by_lastmodified(vec![good(), identity("m", None, None), identity("u", None, Some(text("soon")))], 90);
    assert_eq!(r.err(), Some(DateError::MissingDate(1)));
    let r = try_filter_identities_by_lastmodified(vec![good(), identity("u", None, Some(text("soon"))), identity("m", None, None)], 90);
    assert_eq!(r.err(), Some(DateError::UnreadableDate(1)));
    let r = try_filter_identities_by_lastmodified(vec![identity("n", None, Some(Json::Number("1".to_string())))], 90);
    assert_eq!(r.err(), Some(DateError::MissingDate(0)));
    let r = try_filter_identities_by_lastmodified(vec![good()], MAX_DAYS + 1);
    assert_eq!(r.err(), Some(DateError::DaysOutOfRange));
    let r = try_filter_identities_by_lastmodified(vec![identity("m", None, None)], MAX_DAYS + 1);
    assert_eq!(r.err(), Some(DateError::MissingDate(0)));
    let r = try_filter_identities_by_lastmodified(vec![], MAX_DAYS + 1);
    assert!(r.unwrap().is_empty());
    let r = try_filter_identities_by_lastmodified(vec![good()], -MAX_DAYS);
    assert_eq!(ids(&r.unwrap()), vec!["g"]);
}

#[test]
fn the_filters_commute_and_fewer_days_keep_more() {
    let list = || {
        vec![
            identity("a", Some(text("Inactive")), Some(text("2025-07-02T14:52:39Z"))),
            identity("b", Some(text("Active")), Some(text("2025-07-02T14:52:39Z"))),
            identity("c", Some(text("Inactive")), Some(text("2026-02-27T09:07:19Z"))),
            identity("d", Some(text("Inactive")), Some(text("2025-12-15T00:00:00Z"))),
        ]
    };
    let now = at("2026-03-01T00:00:00Z");
    let one = filter_identities_modified_before(filter_identities_by_status(list()), 90, now);
    let other = filter_identities_by_status(filter_identities_modified_before(list(), 90, now));
    assert_eq!(ids(&one), vec!["a"]);
    assert_eq!(ids(&one), ids(&other));
    let fewer = filter_identities_modified_before(filter_identities_by_status(list()), 30, now);
    assert_eq!(ids(&fewer), vec!["a", "d"]);
}

#[test]
fn more_days_keep_a_subsequence_and_refiltering_changes_nothing() {
    let list = || {
        vec![
            identity("a", None, Some(text("2025-07-02T14:52:39Z"))),
            identity("b", None, Some(text("2026-02-27T09:07:19Z"))),
            identity("c", None, Some(text("2025-12-15T00:00:00Z"))),
        ]
    };
    let now = at("2026-03-01T00:00:00Z");
    let fewer = filter_identities_modified_before(list(), 30, now);
    let more = filter_identities_modified_before(list(), 90, now);
    assert_eq!(ids(&fewer), vec!["a", "c"]);
    assert_eq!(ids(&more), vec!["a"]);
    let again = filter_identities_modified_before(filter_identities_modified_before(list(), 30, now), 30, now);
    assert_eq!(ids(&again), ids(&fewer));
    let mut joined = list();
    joined.extend(list());
    assert_eq!(ids(&filter_identities_modified_before(joined, 30, now)), vec!["a", "c", "a", "c"]);
}

#[test]
fn chrono_holds_exactly_the_representable_moments() {
    assert!(chrono::DateTime::from_timestamp(MIN_TIMESTAMP, 0).is_some());
    assert!(chrono::DateTime::from_timestamp(MIN_TIMESTAMP - 1, 999_999_999).is_none());
    assert!(chrono::DateTime::from_timestamp(MAX_TIMESTAMP, 999_999_999).is_some());
    assert!(chrono::DateTime::from_timestamp(MAX_TIMESTAMP + 1, 0).is_none());
    let zero = Instant { seconds: 0, nanos: 0 };
    assert!(is_older_than(zero, Instant { seconds: MIN_TIMESTAMP, nanos: 0 }, 0));
    assert!(!is_older_than(zero, Instant { seconds: MIN_TIMESTAMP - 1, nanos: 0 }, 0));
    assert!(is_older_than(Instant { seconds: MAX_TIMESTAMP, nanos: 0 }, zero, 0));
    assert!(!is_older_than(Instant { seconds: MAX_TIMESTAMP + 1, nanos: 0 }, zero, 0));
    // a leap second is representable only in the last second of a minute
    assert!(is_older_than(Instant { seconds: 59, nanos: 1_500_000_000 }, zero, 0));
    assert!(!is_older_than(Instant { seconds: 58, nanos: 1_500_000_000 }, zero, 0));
}

#[test]
fn leap_seconds_are_measured_as_chrono_does() {
    // 03:00:59 plus a leap second, against 03:00:59: one second
    let leap = Instant { seconds: 10_859, nanos: 1_000_000_000 };
    let before = Instant { seconds: 10_859, nanos: 0 };
    assert!(is_older_than(leap, before, 0));
    assert!(!is_older_than(before, leap, 0));
    // 03:01:00 against 03:00:59 plus a leap second: one second, as chrono counts
    let after = Instant { seconds: 10_860, nanos: 0 };
    assert!(is_older_than(after, leap, 0));
    // 03:00:59 the next day: a day less the leap second
    assert!(!is_older_than(Instant { seconds: 10_859 + 86_400, nanos: 999_999_999 }, leap, 1));
    // 03:01:00 the next day: a day and the leap second
    assert!(is_older_than(Instant { seconds: 10_860 + 86_400, nanos: 0 }, leap, 1));
}
