//! Collecting a sequence of outcomes: every value, or the first failure.

use crate::error::Error;
use vstd::prelude::*;

verus! {

/// The values of `s` in order where every outcome is a value, and else the
/// failure that comes first in `s`.
pub open spec fn gather<T>(s: Seq<Result<T, Error>>) -> Result<Seq<T>, Error>
    decreases s.len(),
{
    if s.len() == 0 {
        Ok(Seq::empty())
    } else {
        match gather(s.drop_last()) {
            Err(e) => Err(e),
            Ok(values) => match s.last() {
                Ok(v) => Ok(values.push(v)),
                Err(e) => Err(e),
            },
        }
    }
}

/// A failure among the first `k` outcomes is the failure of the whole.
pub proof fn lemma_gather_prefix_failure<T>(s: Seq<Result<T, Error>>, k: int)
    requires
        0 <= k <= s.len(),
        gather(s.take(k)) is Err,
    ensures
        gather(s) == gather(s.take(k)),
    decreases s.len() - k,
{
    if k == s.len() {
        assert(s.take(k) =~= s);
    } else {
        assert(s.take(k + 1).drop_last() =~= s.take(k));
        lemma_gather_prefix_failure(s, k + 1);
    }
}

/// Where the outcomes gather to values, there is one value for each outcome,
/// and each outcome is its value.
pub proof fn lemma_gather_values<T>(s: Seq<Result<T, Error>>)
    requires
        gather(s) is Ok,
    ensures
        gather(s)->Ok_0.len() == s.len(),
        forall|i: int| 0 <= i < s.len() ==> #[trigger] s[i] == Ok::<T, Error>(gather(s)->Ok_0[i]),
    decreases s.len(),
{
    if s.len() > 0 {
        lemma_gather_values(s.drop_last());
        assert forall|i: int| 0 <= i < s.len() implies #[trigger] s[i] == Ok::<T, Error>(
            gather(s)->Ok_0[i],
        ) by {
            if i < s.len() - 1 {
                assert(s.drop_last()[i] == s[i]);
            }
        }
    }
}

/// Where one outcome is a failure, the whole is a failure.
pub proof fn lemma_gather_failure<T>(s: Seq<Result<T, Error>>, i: int)
    requires
        0 <= i < s.len(),
        s[i] is Err,
    ensures
        gather(s) is Err,
{
    if gather(s) is Ok {
        lemma_gather_values(s);
    }
}

} // verus!
