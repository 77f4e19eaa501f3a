use vstd::prelude::*;

use crate::json::{field, json_text, string_of, Json};
use crate::text::{contains_text, has_substring};
use crate::timing::{is_older_than, now, older_than, parse_rfc3339, representable, rfc3339_instant, Instant, MAX_DAYS};

verus! {

/// The JSON text of an identity's `status`, `null` where it has none.
pub open spec fn status_text(identity: Json) -> Seq<char> {
    match field(identity, "status"@) {
        Some(v) => json_text(v),
        None => json_text(Json::Null),
    }
}

/// Whether the status of `identity` reads as inactive.
pub open spec fn has_inactive_status(identity: Json) -> bool {
    has_substring(status_text(identity), "Inactive"@)
}

/// `has_inactive_status`, as a predicate on identities.
pub open spec fn inactive_status() -> spec_fn(Json) -> bool {
    |identity: Json| has_inactive_status(identity)
}

/// The text of the `lastModificationDateUtc` member of `identity`, where it is a string.
pub open spec fn last_modified_text(identity: Json) -> Option<Seq<char>> {
    string_of(field(identity, "lastModificationDateUtc"@))
}

/// The moment at which `identity` was last modified, where its date can be read.
pub open spec fn last_modified(identity: Json) -> Option<Instant> {
    match last_modified_text(identity) {
        Some(t) => rfc3339_instant(t),
        None => None,
    }
}

/// Whether `identity` was last modified more than `inactive_days` days before `now`.
pub open spec fn unmodified_for(identity: Json, now: Instant, inactive_days: int) -> bool {
    match last_modified(identity) {
        Some(m) => older_than(now, m, inactive_days),
        None => false,
    }
}

/// `unmodified_for`, as a predicate on identities.
pub open spec fn stale_at(now: Instant, inactive_days: int) -> spec_fn(Json) -> bool {
    |identity: Json| unmodified_for(identity, now, inactive_days)
}

/// Whether the last modification date of every one of `identities` can be read, and the
/// number of days is one that a span can hold wherever there is an identity to test.
pub open spec fn dates_readable(identities: Seq<Json>, inactive_days: i64) -> bool {
    &&& forall|i: int| 0 <= i < identities.len() ==> (#[trigger] last_modified(identities[i])) is Some
    &&& identities.len() > 0 ==> -MAX_DAYS <= inactive_days <= MAX_DAYS
}

/// The JSON text of the status of `identity`, `null` where it has none.
pub fn status_of(identity: &Json) -> (r: String)
    ensures
        r@ == status_text(*identity),
{
    match identity.get("status") {
        Some(v) => v.to_text(),
        None => Json::Null.to_text(),
    }
}

/// Keeps the identities whose status reads as inactive, in their order.
pub fn filter_identities_by_status(identities: Vec<Json>) -> (r: Vec<Json>)
    ensures
        r@ == identities@.filter(inactive_status()),
{
    let ghost src = identities@;
    let mut kept: Vec<Json> = Vec::new();
    for identity in it: identities.into_iter()
        invariant
            it.seq() == src,
            kept@ == src.take(it.index() as int).filter(inactive_status()),
    {
        let ghost i = it.index();
        assert(identity == src[i as int]);
        let status = status_of(&identity);
        let inactive = contains_text(status.as_str(), "Inactive");
        proof {
            reveal(Seq::filter);
            assert(src.take(i + 1).drop_last() =~= src.take(i as int));
            assert(src.take(i + 1).last() == identity);
        }
        if inactive {
            kept.push(identity);
        }
    }
    assert(src.take(src.len() as int) =~= src);
    kept
}

/// Keeps the identities that were last modified more than `inactive_days` days before
/// `now`, in their order.
pub fn filter_identities_modified_before(identities: Vec<Json>, inactive_days: i64, now: Instant) -> (r: Vec<Json>)
    requires
        dates_readable(identities@, inactive_days),
    ensures
        r@ == identities@.filter(stale_at(now, inactive_days as int)),
        forall|j: int| 0 <= j < r@.len() ==> {
            &&& identities@.contains(#[trigger] r@[j])
            &&& string_of(field(r@[j], "lastModificationDateUtc"@)) matches Some(t)
                && rfc3339_instant(t) matches Some(m) && older_than(now, m, inactive_days as int)
        },
        forall|j: int| 0 <= j < identities@.len()
            && (string_of(field(#[trigger] identities@[j], "lastModificationDateUtc"@)) matches Some(t)
                && rfc3339_instant(t) matches Some(m) && older_than(now, m, inactive_days as int))
            ==> r@.contains(identities@[j]),
{
    let ghost src = identities@;
    let mut kept: Vec<Json> = Vec::new();
    for identity in it: identities.into_iter()
        invariant
            it.seq() == src,
            dates_readable(src, inactive_days),
            kept@ == src.take(it.index() as int).filter(stale_at(now, inactive_days as int)),
    {
        let ghost i = it.index();
        assert(identity == src[i as int]);
        assert(last_modified(src[i as int]) is Some);
        let text = match identity.get("lastModificationDateUtc") {
            Some(v) => v.as_str(),
            None => None,
        };
        let stale = match text {
            Some(t) => {
                match parse_rfc3339(t) {
                    Some(m) => is_older_than(now, m, inactive_days),
                    None => false,
                }
            },
            None => false,
        };
        proof {
            reveal(Seq::filter);
            assert(src.take(i + 1).drop_last() =~= src.take(i as int));
            assert(src.take(i + 1).last() == identity);
        }
        if stale {
            kept.push(identity);
        }
    }
    assert(src.take(src.len() as int) =~= src);
    proof {
        let p = stale_at(now, inactive_days as int);
        assert forall|j: int| 0 <= j < kept@.len() implies {
            &&& src.contains(#[trigger] kept@[j])
            &&& string_of(field(kept@[j], "lastModificationDateUtc"@)) matches Some(t)
                && rfc3339_instant(t) matches Some(m) && older_than(now, m, inactive_days as int)
        } by {
            src.lemma_filter_pred(p, j);
            src.lemma_filter_contains_rev(p, kept@[j]);
        }
        assert forall|j: int| 0 <= j < src.len()
            && (string_of(field(#[trigger] src[j], "lastModificationDateUtc"@)) matches Some(t)
                && rfc3339_instant(t) matches Some(m) && older_than(now, m, inactive_days as int))
            implies kept@.contains(src[j]) by {
            src.lemma_filter_contains(p, j);
        }
    }
    kept
}

/// Whether `kept` is what is left of `identities` when they are measured at the moment
/// `at`: a moment that a clock can show, at which exactly the identities whose
/// `lastModificationDateUtc` lies more than `inactive_days` days back are kept, in order.
pub open spec fn measured_at(identities: Seq<Json>, inactive_days: int, at: Instant, kept: Seq<Json>) -> bool {
    &&& at.nanos < 1_000_000_000
    &&& representable(at)
    &&& kept == identities.filter(stale_at(at, inactive_days))
    &&& forall|j: int| 0 <= j < kept.len() ==> {
        &&& identities.contains(#[trigger] kept[j])
        &&& string_of(field(kept[j], "lastModificationDateUtc"@)) matches Some(t)
            && rfc3339_instant(t) matches Some(m) && older_than(at, m, inactive_days)
    }
    &&& forall|j: int| 0 <= j < identities.len()
        && (string_of(field(#[trigger] identities[j], "lastModificationDateUtc"@)) matches Some(t)
            && rfc3339_instant(t) matches Some(m) && older_than(at, m, inactive_days))
        ==> kept.contains(identities[j])
}

/// Keeps the identities that were last modified more than `inactive_days` days ago,
/// in their order.
pub fn filter_identities_by_lastmodified(identities: Vec<Json>, inactive_days: i64) -> (r: Vec<Json>)
    requires
        dates_readable(identities@, inactive_days),
    ensures
        exists|at: Instant| #[trigger] measured_at(identities@, inactive_days as int, at, r@),
{
    let at = now();
    let r = filter_identities_modified_before(identities, inactive_days, at);
    assert(measured_at(identities@, inactive_days as int, at, r@));
    r
}

/// Why the last modification dates of a list of identities cannot be compared.
#[derive(Clone, Copy, Debug, PartialEq, Eq, Structural)]
pub enum DateError {
    /// The identity at this position has no `lastModificationDateUtc` string.
    MissingDate(usize),
    /// The `lastModificationDateUtc` of the identity at this position is no RFC 3339 date.
    UnreadableDate(usize),
    /// The number of days is beyond what a span can hold.
    DaysOutOfRange,
}

/// Whether the dates of the identities before position `n` can be read.
pub open spec fn readable_before(identities: Seq<Json>, n: int) -> bool {
    forall|i: int| 0 <= i < n ==> (#[trigger] last_modified(identities[i])) is Some
}

/// The outcome of filtering `identities` by their last modification: the first identity,
/// in order, whose date cannot be read, or an out-of-range number of days found at the
/// first identity, or else the identities that are stale at some moment.
pub open spec fn lastmodified_outcome(identities: Seq<Json>, inactive_days: i64, r: Result<Vec<Json>, DateError>) -> bool {
    match r {
        Ok(v) => {
            &&& dates_readable(identities, inactive_days)
            &&& exists|at: Instant| #[trigger] measured_at(identities, inactive_days as int, at, v@)
        },
        Err(DateError::MissingDate(i)) => {
            &&& i < identities.len()
            &&& readable_before(identities, i as int)
            &&& last_modified_text(identities[i as int]) is None
            &&& i > 0 ==> -MAX_DAYS <= inactive_days <= MAX_DAYS
        },
        Err(DateError::UnreadableDate(i)) => {
            &&& i < identities.len()
            &&& readable_before(identities, i as int)
            &&& last_modified_text(identities[i as int]) is Some
            &&& last_modified(identities[i as int]) is None
            &&& i > 0 ==> -MAX_DAYS <= inactive_days <= MAX_DAYS
        },
        Err(DateError::DaysOutOfRange) => {
            &&& identities.len() > 0
            &&& last_modified(identities[0]) is Some
            &&& !(-MAX_DAYS <= inactive_days <= MAX_DAYS)
        },
    }
}

/// Keeps the identities that were last modified more than `inactive_days` days ago, in
/// their order; or says, for the first identity whose date cannot be read, why.
pub fn try_filter_identities_by_lastmodified(identities: Vec<Json>, inactive_days: i64) -> (r: Result<Vec<Json>, DateError>)
    ensures
        lastmodified_outcome(identities@, inactive_days, r),
{
    let mut i: usize = 0;
    while i < identities.len()
        invariant
            i <= identities.len(),
            readable_before(identities@, i as int),
            i > 0 ==> -MAX_DAYS <= inactive_days <= MAX_DAYS,
        decreases identities.len() - i,
    {
        let text = match identities[i].get("lastModificationDateUtc") {
            Some(v) => v.as_str(),
            None => None,
        };
        match text {
            Some(t) => {
                if parse_rfc3339(t).is_none() {
                    return Err(DateError::UnreadableDate(i));
                }
            },
            None => {
                return Err(DateError::MissingDate(i));
            },
        }
        if i == 0 && !(-MAX_DAYS <= inactive_days && inactive_days <= MAX_DAYS) {
            return Err(DateError::DaysOutOfRange);
        }
        i = i + 1;
    }
    let ghost src = identities@;
    let kept = filter_identities_by_lastmodified(identities, inactive_days);
    proof {
        let at = choose|at: Instant| measured_at(src, inactive_days as int, at, kept@);
        let r: Result<Vec<Json>, DateError> = Ok(kept);
        assert(measured_at(src, inactive_days as int, at, r->Ok_0@));
    }
    Ok(kept)
}

} // verus!
