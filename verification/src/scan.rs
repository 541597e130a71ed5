//! The streak scanner: page classification and the scan's mathematical model.
//!
//! The store is queried backward in pages of newest-first instants. Each page
//! is classified event by event: an event whose civil day is the same as, or
//! adjacent to, the day of the most recently accepted event (or of the scan
//! boundary, for the first event) extends the streak; a larger gap breaks it
//! and ends the scan. `page_scan` is the model of classifying one page,
//! `scan_view` the model of a whole scan over a fixed store view, and
//! `greedy_scan` the page-free reference form the laws relate them to.

use vstd::prelude::*;

use crate::error::DataAccessError;
use crate::streak::times_wf;
use crate::tz::{civil_day_of, days_between, spec_days_between, valid_instant, Timezone};
use crate::tz::{MAX_INSTANT_MILLIS, MIN_INSTANT_MILLIS};

verus! {

/// Newest first: each element is at most its predecessor.
pub open spec fn sorted_desc(s: Seq<i64>) -> bool {
    forall|i: int, j: int| 0 <= i < j < s.len() ==> s[i] >= s[j]
}

/// Newest first with no two equal instants.
pub open spec fn strictly_desc(s: Seq<i64>) -> bool {
    forall|i: int, j: int| 0 <= i < j < s.len() ==> s[i] > s[j]
}

/// Whether instant `t` continues a streak whose most recent accepted instant
/// (or scan boundary) is `prev`: on the same civil day or the adjacent one.
pub open spec fn gap_ok(tz: Seq<char>, t: i64, prev: i64) -> bool {
    spec_days_between(tz, t as int, prev as int) <= 1
}

/// Classifying one page, newest first, against the accepted instants so far.
///
/// `dates` are the instants accepted so far (newest first), `boundary` the
/// instant the first accepted event is compared against. The result is `None`
/// when an instant outside the covered era is reached (the scan aborts), and
/// otherwise `Some((dates', alive))`: the extended accepted run, and whether
/// the streak is still alive after the page (`false` means a gap larger than
/// one day was found and the scan is over).
///
/// With `allow_gap`, the first accepted instant of the whole scan is accepted
/// unconditionally; this serves the previous-streak query, whose reference
/// streak has already consumed the day its start instant falls on.
pub open spec fn page_scan(
    tz: Seq<char>,
    dates: Seq<i64>,
    boundary: i64,
    page: Seq<i64>,
    allow_gap: bool,
) -> Option<(Seq<i64>, bool)>
    decreases page.len(),
{
    if page.len() == 0 {
        Some((dates, true))
    } else {
        let t = page.first();
        if !valid_instant(t as int) {
            None
        } else if allow_gap && dates.len() == 0 {
            page_scan(tz, dates.push(t), boundary, page.drop_first(), allow_gap)
        } else {
            let prev = if dates.len() == 0 {
                boundary
            } else {
                dates.last()
            };
            if gap_ok(tz, t, prev) {
                page_scan(tz, dates.push(t), boundary, page.drop_first(), allow_gap)
            } else {
                Some((dates, false))
            }
        }
    }
}

/// Classify one fetched page, extending `dates` exactly as `page_scan` says.
///
/// Returns `Ok(alive)` when every instant reached lies within the covered
/// era; reaching one outside it aborts with `ParseDateError`, as a malformed
/// stored timestamp must never fabricate a streak boundary.
#[verifier::loop_isolation(false)]
pub fn apply_page(
    tz: &Timezone,
    dates: &mut Vec<i64>,
    boundary: i64,
    page: &Vec<i64>,
    allow_gap: bool,
) -> (r: Result<bool, DataAccessError>)
    requires
        valid_instant(boundary as int),
        forall|i: int| 0 <= i < old(dates)@.len() ==> valid_instant(#[trigger] old(dates)@[i] as int),
    ensures
        ({
            let outcome = page_scan(tz@, old(dates)@, boundary, page@, allow_gap);
            &&& (outcome matches Some((d, alive))
                ==> r matches Ok(a) && final(dates)@ == d && a == alive)
            &&& (outcome is None ==> r == Err::<bool, DataAccessError>(
                DataAccessError::ParseDateError,
            ))
        }),
        forall|i: int| 0 <= i < final(dates)@.len() ==> valid_instant(
            #[trigger] final(dates)@[i] as int,
        ),
{
    let ghost orig = dates@;
    proof {
        assert(page@.skip(0) =~= page@);
    }
    let mut idx: usize = 0;
    while idx < page.len()
        invariant
            0 <= idx <= page@.len(),
            valid_instant(boundary as int),
            forall|i: int| 0 <= i < dates@.len() ==> valid_instant(#[trigger] dates@[i] as int),
            page_scan(tz@, orig, boundary, page@, allow_gap) == page_scan(
                tz@,
                dates@,
                boundary,
                page@.skip(idx as int),
                allow_gap,
            ),
        decreases page@.len() - idx,
    {
        let t = page[idx];
        proof {
            assert(page@.skip(idx as int).first() == t);
            assert(page@.skip(idx as int).drop_first() =~= page@.skip(idx as int + 1));
        }
        if t < MIN_INSTANT_MILLIS || t > MAX_INSTANT_MILLIS {
            proof {
                assert(page_scan(tz@, dates@, boundary, page@.skip(idx as int), allow_gap) is None);
            }
            return Err(DataAccessError::ParseDateError);
        }
        let accept: bool;
        if allow_gap && dates.len() == 0 {
            accept = true;
        } else {
            let prev = if dates.len() == 0 {
                boundary
            } else {
                dates[dates.len() - 1]
            };
            accept = days_between(tz, t, prev) <= 1;
        }
        if accept {
            dates.push(t);
            idx = idx + 1;
        } else {
            proof {
                assert(page_scan(tz@, dates@, boundary, page@.skip(idx as int), allow_gap)
                    == Some((dates@, false)));
            }
            return Ok(false);
        }
    }
    proof {
        assert(page@.skip(page@.len() as int) =~= Seq::<i64>::empty());
    }
    Ok(true)
}

/// The longest suffix of a newest-first sequence whose instants are strictly
/// below `b`: drops leading elements at or above `b`. This is what remains to
/// be fetched once the scan boundary has moved down to `b`.
pub open spec fn drop_ge(s: Seq<i64>, b: i64) -> Seq<i64>
    decreases s.len(),
{
    if s.len() == 0 {
        s
    } else if s.first() >= b {
        drop_ge(s.drop_first(), b)
    } else {
        s
    }
}

/// Dropping leading elements can only shorten the sequence; this bounds the
/// recursion of `scan_view`.
proof fn lemma_drop_ge_len(s: Seq<i64>, b: i64)
    ensures
        drop_ge(s, b).len() <= s.len(),
    decreases s.len(),
{
    if s.len() > 0 && s.first() >= b {
        lemma_drop_ge_len(s.drop_first(), b);
    }
}

/// A whole scan over a fixed store view: `pending` are the events strictly
/// older than `boundary`, newest first. Pages of at most `n` events are
/// classified in turn; after a fully accepted page the boundary moves to the
/// oldest accepted instant and what remains strictly below it is fetched
/// next. `None` means the scan aborted on an instant outside the covered
/// era.
pub open spec fn scan_view(
    tz: Seq<char>,
    pending: Seq<i64>,
    boundary: i64,
    dates: Seq<i64>,
    allow_gap: bool,
    n: nat,
) -> Option<Seq<i64>>
    decreases pending.len(),
    when n >= 1
    via scan_view_decreases
{
    let k = if pending.len() <= n {
        pending.len() as int
    } else {
        n as int
    };
    let page = pending.take(k);
    if page.len() == 0 {
        Some(dates)
    } else {
        match page_scan(tz, dates, boundary, page, allow_gap) {
            None => None,
            Some((d2, alive)) => {
                if !alive {
                    Some(d2)
                } else {
                    let nb = d2.last();
                    scan_view(tz, drop_ge(pending.skip(k), nb), nb, d2, allow_gap, n)
                }
            },
        }
    }
}

#[via_fn]
proof fn scan_view_decreases(
    tz: Seq<char>,
    pending: Seq<i64>,
    boundary: i64,
    dates: Seq<i64>,
    allow_gap: bool,
    n: nat,
) {
    let k = if pending.len() <= n {
        pending.len() as int
    } else {
        n as int
    };
    if pending.len() > 0 {
        let page = pending.take(k);
        match page_scan(tz, dates, boundary, page, allow_gap) {
            None => {},
            Some((d2, alive)) => {
                lemma_drop_ge_len(pending.skip(k), d2.last());
            },
        }
    }
}

/// The page-free reference scan: events are classified one at a time, with no
/// pagination at all. The laws relate `scan_view` to this form.
pub open spec fn greedy_scan(
    tz: Seq<char>,
    pending: Seq<i64>,
    boundary: i64,
    dates: Seq<i64>,
    allow_gap: bool,
) -> Option<Seq<i64>>
    decreases pending.len(),
{
    if pending.len() == 0 {
        Some(dates)
    } else {
        let t = pending.first();
        if !valid_instant(t as int) {
            None
        } else if allow_gap && dates.len() == 0 {
            greedy_scan(tz, pending.drop_first(), boundary, dates.push(t), allow_gap)
        } else {
            let prev = if dates.len() == 0 {
                boundary
            } else {
                dates.last()
            };
            if gap_ok(tz, t, prev) {
                greedy_scan(tz, pending.drop_first(), boundary, dates.push(t), allow_gap)
            } else {
                Some(dates)
            }
        }
    }
}

/// A page that leaves the streak alive was accepted whole.
proof fn lemma_page_scan_alive(
    tz: Seq<char>,
    dates: Seq<i64>,
    boundary: i64,
    page: Seq<i64>,
    allow_gap: bool,
)
    requires
        page_scan(tz, dates, boundary, page, allow_gap) matches Some((d2, alive)) && alive,
    ensures
        page_scan(tz, dates, boundary, page, allow_gap)->Some_0.0 =~= dates + page,
    decreases page.len(),
{
    if page.len() == 0 {
    } else {
        let t = page.first();
        if allow_gap && dates.len() == 0 {
            lemma_page_scan_alive(tz, dates.push(t), boundary, page.drop_first(), allow_gap);
            assert(dates.push(t) + page.drop_first() =~= dates + page);
        } else {
            let prev = if dates.len() == 0 {
                boundary
            } else {
                dates.last()
            };
            if gap_ok(tz, t, prev) {
                lemma_page_scan_alive(tz, dates.push(t), boundary, page.drop_first(), allow_gap);
                assert(dates.push(t) + page.drop_first() =~= dates + page);
            }
        }
    }
}

/// Once at least one event is accepted, the boundary no longer matters to
/// page classification.
proof fn lemma_page_scan_boundary(
    tz: Seq<char>,
    dates: Seq<i64>,
    b1: i64,
    b2: i64,
    page: Seq<i64>,
    allow_gap: bool,
)
    requires
        dates.len() > 0,
    ensures
        page_scan(tz, dates, b1, page, allow_gap) == page_scan(tz, dates, b2, page, allow_gap),
    decreases page.len(),
{
    if page.len() > 0 {
        let t = page.first();
        if valid_instant(t as int) {
            if gap_ok(tz, t, dates.last()) {
                lemma_page_scan_boundary(tz, dates.push(t), b1, b2, page.drop_first(), allow_gap);
            }
        }
    }
}

/// Once at least one event is accepted, the boundary no longer matters to
/// the page-free scan either.
proof fn lemma_greedy_boundary(
    tz: Seq<char>,
    pending: Seq<i64>,
    b1: i64,
    b2: i64,
    dates: Seq<i64>,
    allow_gap: bool,
)
    requires
        dates.len() > 0,
    ensures
        greedy_scan(tz, pending, b1, dates, allow_gap) == greedy_scan(
            tz,
            pending,
            b2,
            dates,
            allow_gap,
        ),
    decreases pending.len(),
{
    if pending.len() > 0 {
        let t = pending.first();
        if valid_instant(t as int) {
            if gap_ok(tz, t, dates.last()) {
                lemma_greedy_boundary(
                    tz,
                    pending.drop_first(),
                    b1,
                    b2,
                    dates.push(t),
                    allow_gap,
                );
            }
        }
    }
}

/// The page-free scan of a concatenation: classify the first part as one
/// page; only if it leaves the streak alive does the scan go on into the
/// second part.
proof fn lemma_greedy_split(
    tz: Seq<char>,
    s1: Seq<i64>,
    s2: Seq<i64>,
    boundary: i64,
    dates: Seq<i64>,
    allow_gap: bool,
)
    ensures
        greedy_scan(tz, s1 + s2, boundary, dates, allow_gap) == match page_scan(
            tz,
            dates,
            boundary,
            s1,
            allow_gap,
        ) {
            None => None::<Seq<i64>>,
            Some((d2, alive)) => if alive {
                greedy_scan(tz, s2, boundary, d2, allow_gap)
            } else {
                Some(d2)
            },
        },
    decreases s1.len(),
{
    if s1.len() == 0 {
        assert(s1 + s2 =~= s2);
    } else {
        let t = s1.first();
        assert((s1 + s2).first() == t);
        assert((s1 + s2).len() > 0);
        if valid_instant(t as int) {
            let accepted = (allow_gap && dates.len() == 0) || gap_ok(
                tz,
                t,
                if dates.len() == 0 {
                    boundary
                } else {
                    dates.last()
                },
            );
            if accepted {
                assert((s1 + s2).drop_first() =~= s1.drop_first() + s2);
                lemma_greedy_split(tz, s1.drop_first(), s2, boundary, dates.push(t), allow_gap);
            }
        }
    }
}

/// Law: a scan over an empty history accepts nothing. Over an empty store
/// both the current and the previous streak therefore come out as `NoData`.
pub proof fn lemma_scan_empty(tz: Seq<char>, boundary: i64, allow_gap: bool, n: nat)
    requires
        n >= 1,
    ensures
        scan_view(tz, Seq::empty(), boundary, Seq::empty(), allow_gap, n) == Some(
            Seq::<i64>::empty(),
        ),
{
    assert(Seq::<i64>::empty().take(0) =~= Seq::<i64>::empty());
}

/// Law: the current-streak scan is idempotent. Two scans over the same
/// history whose boundaries fall on the same civil day — two back-to-back
/// queries with no intervening write and no day rollover — yield the same
/// streak.
pub proof fn lemma_scan_idempotent(
    tz: Seq<char>,
    pending: Seq<i64>,
    b1: i64,
    b2: i64,
    n: nat,
)
    requires
        n >= 1,
        civil_day_of(tz, b1 as int) == civil_day_of(tz, b2 as int),
    ensures
        scan_view(tz, pending, b1, Seq::empty(), false, n) == scan_view(
            tz,
            pending,
            b2,
            Seq::empty(),
            false,
            n,
        ),
{
    let k = if pending.len() <= n {
        pending.len() as int
    } else {
        n as int
    };
    let page = pending.take(k);
    if page.len() > 0 {
        lemma_page_scan_same_day(tz, b1, b2, page);
    }
}

/// With no event accepted yet and boundaries on the same civil day, page
/// classification cannot tell the boundaries apart: the first event is
/// compared against the boundary's day, every later one against the last
/// accepted event.
proof fn lemma_page_scan_same_day(tz: Seq<char>, b1: i64, b2: i64, page: Seq<i64>)
    requires
        civil_day_of(tz, b1 as int) == civil_day_of(tz, b2 as int),
    ensures
        page_scan(tz, Seq::empty(), b1, page, false) == page_scan(
            tz,
            Seq::empty(),
            b2,
            page,
            false,
        ),
{
    if page.len() > 0 {
        let t = page.first();
        if valid_instant(t as int) {
            assert(gap_ok(tz, t, b1) == gap_ok(tz, t, b2));
            if gap_ok(tz, t, b1) {
                let dates = Seq::<i64>::empty().push(t);
                lemma_page_scan_boundary(tz, dates, b1, b2, page.drop_first(), false);
            }
        }
    }
}

/// Law: pagination is invisible. Over a strictly descending history (no two
/// events on the very same instant), a paginated scan with any page size
/// equals the page-free scan, so a streak is never cut short at a page
/// boundary.
pub proof fn lemma_scan_page_size_invariant(
    tz: Seq<char>,
    pending: Seq<i64>,
    boundary: i64,
    dates: Seq<i64>,
    allow_gap: bool,
    n: nat,
)
    requires
        n >= 1,
        strictly_desc(pending),
        dates.len() > 0 ==> forall|i: int| 0 <= i < pending.len() ==> #[trigger] pending[i]
            < dates.last(),
    ensures
        scan_view(tz, pending, boundary, dates, allow_gap, n) == greedy_scan(
            tz,
            pending,
            boundary,
            dates,
            allow_gap,
        ),
    decreases pending.len(),
{
    let k = if pending.len() <= n {
        pending.len() as int
    } else {
        n as int
    };
    let page = pending.take(k);
    if page.len() == 0 {
    } else {
        assert(pending =~= page + pending.skip(k));
        lemma_greedy_split(tz, page, pending.skip(k), boundary, dates, allow_gap);
        match page_scan(tz, dates, boundary, page, allow_gap) {
            None => {},
            Some((d2, alive)) => {
                if alive {
                    lemma_page_scan_alive(tz, dates, boundary, page, allow_gap);
                    assert(d2 =~= dates + page);
                    assert(d2.last() == page.last());
                    let nb = d2.last();
                    let rest = pending.skip(k);
                    assert(nb == pending[k - 1]);
                    if rest.len() > 0 {
                        assert(rest.first() == pending[k]);
                        assert(pending[k] < pending[k - 1]);
                    }
                    assert(drop_ge(rest, nb) == rest);
                    assert(strictly_desc(rest)) by {
                        assert(forall|i: int, j: int| 0 <= i < j < rest.len()
                            ==> rest[i] == pending[i + k] && rest[j] == pending[j + k]);
                    }
                    assert(forall|i: int| 0 <= i < rest.len() ==> #[trigger] rest[i] < d2.last());
                    lemma_scan_page_size_invariant(tz, rest, nb, d2, allow_gap, n);
                    if d2.len() > 0 {
                        lemma_greedy_boundary(tz, rest, nb, boundary, d2, allow_gap);
                    }
                }
            },
        }
    }
}

/// Law: over a strictly descending history a scan comes out the same for any
/// two page sizes.
pub proof fn lemma_scan_any_page_size(
    tz: Seq<char>,
    pending: Seq<i64>,
    boundary: i64,
    allow_gap: bool,
    n1: nat,
    n2: nat,
)
    requires
        n1 >= 1,
        n2 >= 1,
        strictly_desc(pending),
    ensures
        scan_view(tz, pending, boundary, Seq::empty(), allow_gap, n1) == scan_view(
            tz,
            pending,
            boundary,
            Seq::empty(),
            allow_gap,
            n2,
        ),
{
    lemma_scan_page_size_invariant(tz, pending, boundary, Seq::empty(), allow_gap, n1);
    lemma_scan_page_size_invariant(tz, pending, boundary, Seq::empty(), allow_gap, n2);
}

/// Classifying a sorted page against a well-formed run keeps the run well
/// formed: the accepted run is extended in place, every newly accepted
/// instant is at most the previously oldest one (or below the boundary when
/// the run was empty), the head of a gap-checked scan stays within a day of
/// the boundary, and a page that leaves the streak alive was accepted whole.
#[verifier::rlimit(30)]
pub(crate) proof fn lemma_page_scan_wf(
    tz: Seq<char>,
    dates: Seq<i64>,
    boundary: i64,
    page: Seq<i64>,
    allow_gap: bool,
)
    requires
        times_wf(tz, dates),
        sorted_desc(page),
        dates.len() > 0 ==> forall|i: int| 0 <= i < page.len() ==> #[trigger] page[i]
            <= dates.last(),
        dates.len() == 0 ==> forall|i: int| 0 <= i < page.len() ==> #[trigger] page[i] < boundary,
        page_scan(tz, dates, boundary, page, allow_gap) is Some,
    ensures
        ({
            let (d2, alive) = page_scan(tz, dates, boundary, page, allow_gap)->Some_0;
            &&& times_wf(tz, d2)
            &&& d2.len() >= dates.len()
            &&& d2.take(dates.len() as int) =~= dates
            &&& (dates.len() > 0 ==> forall|i: int| dates.len() <= i < d2.len() ==> #[trigger] d2[i]
                <= dates.last())
            &&& (dates.len() == 0 ==> forall|i: int| 0 <= i < d2.len() ==> #[trigger] d2[i]
                < boundary)
            &&& (!allow_gap && dates.len() == 0 && d2.len() > 0 ==> gap_ok(tz, d2[0], boundary))
            &&& (alive ==> d2 =~= dates + page)
        }),
    decreases page.len(),
{
    if page.len() == 0 {
        let (d2, alive) = page_scan(tz, dates, boundary, page, allow_gap)->Some_0;
        assert(d2 =~= dates + page);
    } else {
        let t = page.first();
        if !valid_instant(t as int) {
            // page_scan is None; excluded by the precondition
        } else if (allow_gap && dates.len() == 0) || gap_ok(
            tz,
            t,
            if dates.len() == 0 {
                boundary
            } else {
                dates.last()
            },
        ) {
            let pushed = dates.push(t);
            assert(times_wf(tz, pushed));
            assert(forall|i: int| 0 <= i < page.drop_first().len()
                ==> #[trigger] page.drop_first()[i] <= pushed.last());
            lemma_page_scan_wf(tz, pushed, boundary, page.drop_first(), allow_gap);
            let (d2, alive) = page_scan(tz, pushed, boundary, page.drop_first(), allow_gap)->Some_0;
            assert(d2.take(dates.len() as int) =~= pushed.take(pushed.len() as int - 1).take(
                dates.len() as int,
            ));
            assert(d2.take(dates.len() as int) =~= dates);
            if alive {
                assert(pushed + page.drop_first() =~= dates + page);
            }
        } else {
            // the gap broke the streak: the run is returned unchanged
            let (d2, alive) = page_scan(tz, dates, boundary, page, allow_gap)->Some_0;
            assert(d2 =~= dates);
            assert(d2.take(dates.len() as int) =~= dates);
        }
    }
}

} // verus!
