use vstd::prelude::*;

use crate::novel::NovelData;
use crate::timestamp::{MAX_UNIX_SECS, MIN_UNIX_SECS};

verus! {

/// A successful record is always refetched once it is older than this (24 h).
pub const FORCE_REFRESH_SECS: i64 = 86400;

/// A successful record is never refetched while it is younger than this (12 h).
pub const RANDOM_REFRESH_SECS: i64 = 43200;

/// An error record is always refetched once it is older than this (2 h).
pub const FORCE_REFRESH_ERR_SECS: i64 = 7200;

/// An error record is never refetched while it is younger than this (1 h).
pub const RANDOM_REFRESH_ERR_SECS: i64 = 3600;

/// A jitter draw `j` stands for the fraction `j / JITTER_SCALE` of `[0, 1)`.
pub const JITTER_SCALE: u64 = 4294967296;

/// The outcome of the latest fetch of one novel, as the store keeps it: the
/// data, or the text of the error, and when the fetch was made (in seconds
/// since the Unix epoch).
#[derive(Debug, PartialEq, Eq)]
pub struct CachedRecord {
    pub payload: Result<NovelData, String>,
    pub fetched_at: i64,
}

/// What to do with a request once the stored record has been read.
#[derive(Debug)]
pub enum Plan {
    /// Answer with this payload; the store is not touched.
    Serve(Result<NovelData, String>),
    /// Fetch the novel anew, then call `resolve_fetch` with this prior record.
    Fetch(Option<CachedRecord>),
}

/// The result of a fetch, folded with the prior record.
#[derive(Debug)]
pub struct Resolution {
    /// The record whose payload answers the request.
    pub record: CachedRecord,
    /// Whether `record` is to be written to the store.
    pub store: bool,
}

pub open spec fn force_age(has_error: bool) -> int {
    if has_error {
        FORCE_REFRESH_ERR_SECS as int
    } else {
        FORCE_REFRESH_SECS as int
    }
}

pub open spec fn random_age(has_error: bool) -> int {
    if has_error {
        RANDOM_REFRESH_ERR_SECS as int
    } else {
        RANDOM_REFRESH_SECS as int
    }
}

/// The jittered cut-off: the point `jitter / JITTER_SCALE` of the way from
/// `now - force_age` to `now - random_age`, rounded up to a whole second.
pub open spec fn refetch_threshold(now: int, has_error: bool, jitter: nat) -> int {
    let span = force_age(has_error) - random_age(has_error);
    now - force_age(has_error) + (span * jitter + JITTER_SCALE - 1) / (JITTER_SCALE as int)
}

/// A record fetched at `fetched_at` is refetched under the draw `jitter` when
/// it is older than the cut-off.
pub open spec fn refetch_due(fetched_at: int, now: int, has_error: bool, jitter: nat) -> bool {
    fetched_at < refetch_threshold(now, has_error, jitter)
}

pub open spec fn record_has_error(r: CachedRecord) -> bool {
    r.payload is Err
}

/// The record is a success no older than `FORCE_REFRESH_SECS`: a failed
/// refetch then answers with it.
pub open spec fn fallback_eligible(r: CachedRecord, now: int) -> bool {
    !record_has_error(r) && r.fetched_at >= now - FORCE_REFRESH_SECS
}

pub open spec fn time_in_range(t: int) -> bool {
    MIN_UNIX_SECS <= t <= MAX_UNIX_SECS
}

proof fn lemma_threshold_bounds(now: int, has_error: bool, jitter: nat)
    requires
        jitter < JITTER_SCALE,
    ensures
        now - force_age(has_error) <= refetch_threshold(now, has_error, jitter) <= now - random_age(
            has_error,
        ),
{
    let span = force_age(has_error) - random_age(has_error);
    assert(0 <= span * jitter <= span * (JITTER_SCALE - 1)) by (nonlinear_arith)
        requires
            span > 0,
            jitter < JITTER_SCALE,
    ;
    assert((span * jitter + JITTER_SCALE - 1) / (JITTER_SCALE as int) <= span);
}

/// The cut-off for a record, computed without overflow.
pub fn refetch_threshold_at(now: i64, has_error: bool, jitter: u32) -> (r: i64)
    requires
        time_in_range(now as int),
    ensures
        r == refetch_threshold(now as int, has_error, jitter as nat),
{
    let (force, random) = if has_error {
        (FORCE_REFRESH_ERR_SECS, RANDOM_REFRESH_ERR_SECS)
    } else {
        (FORCE_REFRESH_SECS, RANDOM_REFRESH_SECS)
    };
    let span = (force - random) as u64;
    assert(span * (jitter as u64) <= 43200 * 4294967295) by (nonlinear_arith)
        requires
            span <= 43200,
    ;
    let offset = (span * (jitter as u64) + (JITTER_SCALE - 1)) / JITTER_SCALE;
    proof {
        lemma_threshold_bounds(now as int, has_error, jitter as nat);
    }
    now - force + offset as i64
}

/// Whether the record must be refetched now, under the draw `jitter`.
pub fn needs_refetch(record: &CachedRecord, now: i64, jitter: u32) -> (r: bool)
    requires
        time_in_range(now as int),
    ensures
        r == refetch_due(
            record.fetched_at as int,
            now as int,
            record_has_error(*record),
            jitter as nat,
        ),
{
    let has_error = record.payload.is_err();
    record.fetched_at < refetch_threshold_at(now, has_error, jitter)
}

/// Decides, from the stored record, whether to answer from it or to fetch.
/// With no record the novel is fetched. A record that is not due is served as
/// it stands, an error record with its error.
pub fn plan(record: Option<CachedRecord>, now: i64, jitter: u32) -> (r: Plan)
    requires
        time_in_range(now as int),
    ensures
        match record {
            None => r == Plan::Fetch(None),
            Some(rec) => if refetch_due(
                rec.fetched_at as int,
                now as int,
                record_has_error(rec),
                jitter as nat,
            ) {
                r == Plan::Fetch(Some(rec))
            } else {
                r == Plan::Serve(rec.payload)
            },
        },
{
    match record {
        None => Plan::Fetch(None),
        Some(rec) => {
            if needs_refetch(&rec, now, jitter) {
                Plan::Fetch(Some(rec))
            } else {
                Plan::Serve(rec.payload)
            }
        },
    }
}

/// Folds a fetch into the store. A success is stored and served. A failure is
/// masked by a prior success no older than `FORCE_REFRESH_SECS`, which is
/// served and left in place; otherwise the error is stored and served.
pub fn resolve_fetch(prior: Option<CachedRecord>, fetched: Result<NovelData, String>, now: i64) -> (r:
    Resolution)
    requires
        time_in_range(now as int),
    ensures
        match fetched {
            Ok(data) => r == (Resolution {
                record: CachedRecord { payload: Ok(data), fetched_at: now },
                store: true,
            }),
            Err(e) => match prior {
                Some(p) if fallback_eligible(p, now as int) => r == (Resolution {
                    record: p,
                    store: false,
                }),
                _ => r == (Resolution {
                    record: CachedRecord { payload: Err(e), fetched_at: now },
                    store: true,
                }),
            },
        },
{
    match fetched {
        Ok(data) => Resolution { record: CachedRecord { payload: Ok(data), fetched_at: now }, store: true },
        Err(e) => match prior {
            Some(p) => {
                if p.payload.is_ok() && p.fetched_at >= now - FORCE_REFRESH_SECS {
                    Resolution { record: p, store: false }
                } else {
                    Resolution { record: CachedRecord { payload: Err(e), fetched_at: now }, store: true }
                }
            },
            None => Resolution {
                record: CachedRecord { payload: Err(e), fetched_at: now },
                store: true,
            },
        },
    }
}

/// A record no older than `random_age` is never refetched, whatever the draw.
pub proof fn lemma_young_record_kept(fetched_at: int, now: int, has_error: bool, jitter: u32)
    requires
        fetched_at >= now - random_age(has_error),
    ensures
        !refetch_due(fetched_at, now, has_error, jitter as nat),
{
    lemma_threshold_bounds(now, has_error, jitter as nat);
}

/// A record older than `force_age` is always refetched, whatever the draw.
pub proof fn lemma_old_record_refetched(fetched_at: int, now: int, has_error: bool, jitter: u32)
    requires
        fetched_at < now - force_age(has_error),
    ensures
        refetch_due(fetched_at, now, has_error, jitter as nat),
{
    lemma_threshold_bounds(now, has_error, jitter as nat);
}

/// Under any one draw, an older record is refetched whenever a younger one is:
/// the set of draws that refetch grows with the record's age.
pub proof fn lemma_refetch_monotone(
    younger: int,
    older: int,
    now: int,
    has_error: bool,
    jitter: u32,
)
    requires
        older <= younger,
        refetch_due(younger, now, has_error, jitter as nat),
    ensures
        refetch_due(older, now, has_error, jitter as nat),
{
}

/// Between the two cut-offs the chance of a refetch rises strictly with age:
/// for two distinct fetch times there is a draw that refetches the older
/// record and keeps the younger one.
pub proof fn lemma_refetch_strictly_increasing(younger: int, older: int, now: int, has_error: bool)
    requires
        now - force_age(has_error) <= older < younger <= now - random_age(has_error),
    ensures
        exists|jitter: u32|
            refetch_due(older, now, has_error, jitter as nat) && !refetch_due(
                younger,
                now,
                has_error,
                jitter as nat,
            ),
{
    let span = force_age(has_error) - random_age(has_error);
    let base = now - force_age(has_error);
    let target = older - base + 1;
    let scale = JITTER_SCALE as int;
    assert(1 <= target <= span);
    let j: int = if target == span {
        scale - 1
    } else {
        target * scale / span
    };
    assert(0 <= j < scale) by (nonlinear_arith)
        requires
            1 <= target <= span,
            0 < span < scale,
            j == (if target == span {
                scale - 1
            } else {
                target * scale / span
            }),
    ;
    assert((span * j + scale - 1) / scale == target) by (nonlinear_arith)
        requires
            1 <= target <= span,
            0 < span < scale,
            j == (if target == span {
                scale - 1
            } else {
                target * scale / span
            }),
    ;
    let jitter = j as u32;
    assert(refetch_threshold(now, has_error, jitter as nat) == base + target);
    assert(refetch_due(older, now, has_error, jitter as nat));
    assert(!refetch_due(younger, now, has_error, jitter as nat));
}

} // verus!
