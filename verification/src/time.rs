//! Instants and spans of time.
//!
//! Both are counts of nanoseconds. An instant counts from a start that the
//! caller chooses once; a span is the difference of two instants.

use vstd::prelude::*;

verus! {

pub const MILLISECOND: u64 = 1_000_000;

pub const SECOND: u64 = 1_000_000_000;

/// How long it has been since an instant; nothing where it lies ahead.
pub open spec fn since(now: u64, at: u64) -> u64 {
    if now >= at {
        (now - at) as u64
    } else {
        0
    }
}

/// How long it has been since an instant; nothing where it lies ahead.
pub fn elapsed(now: u64, at: u64) -> (d: u64)
    ensures
        d == since(now, at),
{
    now.saturating_sub(at)
}

/// The instant a span after another; the last one there is where that lies
/// beyond it.
pub open spec fn later(now: u64, span: u64) -> u64 {
    if now + span <= u64::MAX {
        (now + span) as u64
    } else {
        u64::MAX
    }
}

/// The instant a span after another.
pub fn after(now: u64, span: u64) -> (at: u64)
    ensures
        at == later(now, span),
{
    now.saturating_add(span)
}

/// The shorter of two spans.
pub open spec fn shorter(a: u64, b: u64) -> u64 {
    if a <= b {
        a
    } else {
        b
    }
}

/// The shorter of two spans.
pub fn min_span(a: u64, b: u64) -> (d: u64)
    ensures
        d == shorter(a, b),
{
    if a <= b {
        a
    } else {
        b
    }
}

/// Times are counted in nanoseconds: a moment a span later is that span away
/// from the first, which is how long has passed by then, and a moment that has
/// not come yet is no time ago.
pub proof fn law_spans_add_up(now: u64, span: u64, other: u64)
    requires
        now + span <= u64::MAX,
    ensures
        later(now, span) == now + span,
        since(later(now, span), now) == span,
        since(now, later(now, span)) == 0,
        shorter(span, other) <= span && shorter(span, other) <= other,
        shorter(span, other) == span || shorter(span, other) == other,
        SECOND == 1_000_000_000,
        MILLISECOND == 1_000_000,
{
}

} // verus!
