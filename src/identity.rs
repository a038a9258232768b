//! Identity allocation: contiguous blocks of increasing integer identities
//! reserved from one counter.
use vstd::prelude::*;

verus! {

/// Why a block of identities could not be reserved.
#[derive(Debug, Clone, PartialEq, Eq)]
pub enum AllocationError {
    /// The counter's partition could not be reached or answered with an error.
    Unreachable(String),
    /// The counter reported a negative value.
    InvalidCounter(i64),
    /// The block would run past the largest identity.
    Exhausted,
    /// The requested size does not fit an identity.
    RequestTooLarge(u64),
}

/// The identity counter: the largest identity issued so far. It only grows,
/// by exactly the size of each reserved block.
pub struct IdentityCounter {
    pub value: i64,
}

impl IdentityCounter {
    pub open spec fn wf(&self) -> bool {
        self.value >= 0
    }

    /// A counter that has issued nothing.
    pub fn new() -> (r: IdentityCounter)
        ensures
            r.wf(),
            r.value == 0,
    {
        IdentityCounter { value: 0 }
    }

    /// Reserves `n` identities: the counter grows by `n` and the value before
    /// is returned, so that the caller owns `[r + 1, r + n]`. Reserving zero
    /// identities changes nothing and returns 0.
    pub fn reserve(&mut self, n: u64) -> (r: Result<i64, AllocationError>)
        requires
            old(self).wf(),
        ensures
            final(self).wf(),
            n == 0 ==> r == Ok::<i64, AllocationError>(0) && *final(self) == *old(self),
            n > 0 && old(self).value + n <= i64::MAX ==> r == Ok::<i64, AllocationError>(
                old(self).value,
            ) && final(self).value == old(self).value + n,
            n > 0 && old(self).value + n > i64::MAX ==> r == Err::<i64, AllocationError>(
                AllocationError::Exhausted,
            ) && *final(self) == *old(self),
    {
        if n == 0 {
            return Ok(0);
        }
        if n > (i64::MAX - self.value) as u64 {
            return Err(AllocationError::Exhausted);
        }
        let previous = self.value;
        self.value = self.value + n as i64;
        Ok(previous)
    }
}

/// The value of a counter after reservations of the sizes in `ns`, one after
/// the other, from `start`.
pub open spec fn counter_after(start: int, ns: Seq<nat>) -> int
    decreases ns.len(),
{
    if ns.len() == 0 {
        start
    } else {
        counter_after(start, ns.drop_last()) + ns.last()
    }
}

proof fn lemma_counter_after_grows(start: int, ns: Seq<nat>, i: int, j: int)
    requires
        0 <= i <= j <= ns.len(),
    ensures
        counter_after(start, ns.take(i)) <= counter_after(start, ns.take(j)),
    decreases j - i,
{
    if i < j {
        lemma_counter_after_grows(start, ns, i, j - 1);
        assert(ns.take(j).drop_last() =~= ns.take(j - 1));
    }
}

/// Reservations taken one after the other from one counter (in whatever order
/// concurrent callers reach it) give pairwise disjoint blocks, each above the
/// blocks before it: the `i`-th reservation returns `counter_after(start,
/// ns.take(i))` and owns the identities just above it, up to that value plus
/// `ns[i]`.
pub proof fn lemma_reservations_disjoint(start: int, ns: Seq<nat>, i: int, j: int)
    requires
        0 <= i < j < ns.len(),
    ensures
        counter_after(start, ns.take(i)) + ns[i] <= counter_after(start, ns.take(j)),
{
    assert(ns.take(i + 1).drop_last() =~= ns.take(i));
    assert(ns.take(i + 1).last() == ns[i]);
    lemma_counter_after_grows(start, ns, i + 1, j);
}

/// What to do to reserve `n` identities from the counter's partition: nothing
/// for zero (the answer is 0), else one atomic increment by `n`.
pub fn get_current_max_id_request(n: u64) -> (r: Result<Option<i64>, AllocationError>)
    ensures
        n == 0 ==> r == Ok::<Option<i64>, AllocationError>(None),
        0 < n <= i64::MAX ==> r == Ok::<Option<i64>, AllocationError>(Some(n as i64)),
        n > i64::MAX ==> r == Err::<Option<i64>, AllocationError>(
            AllocationError::RequestTooLarge(n),
        ),
{
    if n == 0 {
        Ok(None)
    } else if n > i64::MAX as u64 {
        Err(AllocationError::RequestTooLarge(n))
    } else {
        Ok(Some(n as i64))
    }
}

/// Reads the answer of the counter's partition to an increment by `n > 0`:
/// the value before the increment (a missing row means a fresh counter, 0).
/// The caller then owns `[r + 1, r + n]`.
pub fn get_current_max_id_reply(n: u64, reply: Result<Option<i64>, String>) -> (r: Result<
    i64,
    AllocationError,
>)
    requires
        0 < n <= i64::MAX,
    ensures
        match reply {
            Err(msg) => r == Err::<i64, AllocationError>(AllocationError::Unreachable(msg)),
            Ok(row) => {
                let prev = match row {
                    Some(p) => p,
                    None => 0i64,
                };
                if prev < 0 {
                    r == Err::<i64, AllocationError>(AllocationError::InvalidCounter(prev))
                } else if prev + n > i64::MAX {
                    r == Err::<i64, AllocationError>(AllocationError::Exhausted)
                } else {
                    r == Ok::<i64, AllocationError>(prev)
                }
            },
        },
{
    match reply {
        Err(msg) => Err(AllocationError::Unreachable(msg)),
        Ok(row) => {
            let prev: i64 = match row {
                Some(p) => p,
                None => 0,
            };
            if prev < 0 {
                Err(AllocationError::InvalidCounter(prev))
            } else if n > (i64::MAX - prev) as u64 {
                Err(AllocationError::Exhausted)
            } else {
                Ok(prev)
            }
        },
    }
}

} // verus!
