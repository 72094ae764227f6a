use vstd::prelude::*;

verus! {

/// An absolute point in time: whole seconds since the Unix epoch and the
/// nanoseconds past that second. Instants are ordered lexicographically.
pub type Instant = (i64, u32);

/// The instant an RFC 3339 timestamp denotes, or `None` when the text is not one.
pub uninterp spec fn rfc3339_instant(s: Seq<char>) -> Option<(i64, u32)>;

/// Relies on `chrono::DateTime::parse_from_rfc3339`: parses `s` and reports the
/// instant as its Unix timestamp and sub-second nanoseconds.
#[verifier::external_body]
pub(crate) fn parse_instant(s: &str) -> (r: Option<Instant>)
    ensures
        r == rfc3339_instant(s@),
{
    chrono::DateTime::parse_from_rfc3339(s).ok().map(|d| (d.timestamp(), d.timestamp_subsec_nanos()))
}

/// Relies on `chrono::Utc::now`: the current instant of the system clock.
#[verifier::external_body]
pub(crate) fn now_instant() -> (r: Instant) {
    let d = chrono::Utc::now();
    (d.timestamp(), d.timestamp_subsec_nanos())
}

/// `a` comes strictly before `b`.
pub open spec fn before(a: Instant, b: Instant) -> bool {
    a.0 < b.0 || (a.0 == b.0 && a.1 < b.1)
}

/// Executable form of [`before`].
pub fn is_before(a: Instant, b: Instant) -> (r: bool)
    ensures
        r == before(a, b),
{
    a.0 < b.0 || (a.0 == b.0 && a.1 < b.1)
}

/// The temporal state of a credential relative to a given instant.
#[derive(Clone, Copy, Debug, PartialEq, Eq, Structural)]
pub enum Freshness {
    /// The access token is still valid.
    Fresh,
    /// The access token expired, the refresh token is still valid.
    Refreshable,
    /// Both tokens expired.
    Dead,
}

/// Access token still valid at `now`.
pub open spec fn is_fresh(access: Instant, now: Instant) -> bool {
    before(now, access)
}

/// Access token expired at `now` but refresh token still valid.
pub open spec fn is_refreshable(access: Instant, refresh: Instant, now: Instant) -> bool {
    !before(now, access) && before(now, refresh)
}

/// Refresh token expired at `now`.
pub open spec fn is_dead(refresh: Instant, now: Instant) -> bool {
    !before(now, refresh)
}

/// The state of a credential whose tokens expire at `access` and `refresh`,
/// seen at `now`. Freshness of the access token is checked first.
pub open spec fn freshness_at(access: Instant, refresh: Instant, now: Instant) -> Freshness {
    if is_fresh(access, now) {
        Freshness::Fresh
    } else if before(now, refresh) {
        Freshness::Refreshable
    } else {
        Freshness::Dead
    }
}

/// Classifies a credential whose tokens expire at `access` and `refresh` at the instant `now`.
pub fn classify(access: Instant, refresh: Instant, now: Instant) -> (r: Freshness)
    ensures
        r == freshness_at(access, refresh, now),
{
    if is_before(now, access) {
        Freshness::Fresh
    } else if is_before(now, refresh) {
        Freshness::Refreshable
    } else {
        Freshness::Dead
    }
}

/// For a credential whose access token does not outlive its refresh token,
/// exactly one of fresh, refreshable and dead holds at every instant, and
/// [`freshness_at`] names that one.
pub proof fn lemma_freshness_exclusive(access: Instant, refresh: Instant, now: Instant)
    requires
        !before(refresh, access),
    ensures
        is_fresh(access, now) || is_refreshable(access, refresh, now) || is_dead(refresh, now),
        !(is_fresh(access, now) && is_refreshable(access, refresh, now)),
        !(is_fresh(access, now) && is_dead(refresh, now)),
        !(is_refreshable(access, refresh, now) && is_dead(refresh, now)),
        freshness_at(access, refresh, now) == Freshness::Fresh <==> is_fresh(access, now),
        freshness_at(access, refresh, now) == Freshness::Refreshable <==> is_refreshable(
            access,
            refresh,
            now,
        ),
        freshness_at(access, refresh, now) == Freshness::Dead <==> is_dead(refresh, now),
{
}

} // verus!
