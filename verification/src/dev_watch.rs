//! The cheap "version number" `nexa dev` answers the browser's polling
//! with: the latest modification time among the files under `src/`, in
//! nanoseconds since the Unix epoch. The browser compares it with the last
//! one it saw and reloads the page when it changed.
use vstd::prelude::*;

use crate::text::{decimal, decimal_string};

verus! {

/// The latest of `times`, or 0 (the epoch) when there is none.
pub open spec fn latest(times: Seq<u128>) -> nat
    decreases times.len(),
{
    if times.len() == 0 {
        0
    } else {
        let rest = latest(times.drop_last());
        if times.last() as nat > rest {
            times.last() as nat
        } else {
            rest
        }
    }
}

/// The marker for the modification times (in nanoseconds since the epoch,
/// times before it counted as the epoch) of every file under the watched
/// directory: the latest of them, in decimal.
pub fn version_marker(modified_nanos: &[u128]) -> (r: String)
    ensures
        r@ == decimal(latest(modified_nanos@)),
{
    let mut best: u128 = 0;
    let mut i: usize = 0;
    while i < modified_nanos.len()
        invariant
            i <= modified_nanos@.len(),
            best == latest(modified_nanos@.take(i as int)),
        decreases modified_nanos@.len() - i,
    {
        assert(modified_nanos@.take(i + 1).drop_last() =~= modified_nanos@.take(i as int));
        if modified_nanos[i] > best {
            best = modified_nanos[i];
        }
        i = i + 1;
    }
    assert(modified_nanos@.take(i as int) =~= modified_nanos@);
    decimal_string(best)
}

} // verus!

verus! {

/// A file modified later than every file seen so far changes the marker,
/// and the marker then names that modification.
pub proof fn law_newer_modification_changes_marker(times: Seq<u128>, t: u128)
    requires
        t > latest(times),
    ensures
        latest(times.push(t)) == t,
        decimal(latest(times.push(t))) != decimal(latest(times)),
{
    assert(times.push(t).drop_last() =~= times);
    if decimal(latest(times.push(t))) == decimal(latest(times)) {
        crate::text::lemma_decimal_injective(latest(times.push(t)), latest(times));
    }
}

/// The marker does not depend on the order in which files are visited:
/// moving one modification time to the end leaves the latest unchanged.
pub proof fn law_marker_ignores_visit_order(a: Seq<u128>, t: u128, b: Seq<u128>)
    ensures
        latest(a.push(t) + b) == latest((a + b).push(t)),
    decreases b.len(),
{
    if b.len() == 0 {
        assert(a.push(t) + b =~= a.push(t));
        assert(a + b =~= a);
    } else {
        law_marker_ignores_visit_order(a, t, b.drop_last());
        assert((a.push(t) + b).drop_last() =~= a.push(t) + b.drop_last());
        assert((a + b).drop_last() =~= a + b.drop_last());
        assert((a + b).push(t).drop_last() =~= a + b);
        assert((a + b.drop_last()).push(t).drop_last() =~= a + b.drop_last());
        lemma_latest_push(a + b.drop_last(), t);
        lemma_latest_push(a + b.drop_last(), b.last());
        lemma_latest_push((a + b.drop_last()).push(t), b.last());
        lemma_latest_push(a + b, t);
        assert((a + b.drop_last()).push(b.last()) =~= a + b);
    }
}

proof fn lemma_latest_push(s: Seq<u128>, t: u128)
    ensures
        latest(s.push(t)) == if t as nat > latest(s) {
            t as nat
        } else {
            latest(s)
        },
{
    assert(s.push(t).drop_last() =~= s);
}

} // verus!
