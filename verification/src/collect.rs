//! Decoding a run of entries, stopping at the first entry that fails.
use crate::error::ParseError;
use vstd::prelude::*;

verus! {

/// The first `n` entries decoded by `f`, or the error of the first entry that fails.
pub open spec fn collect<T>(n: nat, f: spec_fn(nat) -> Result<T, ParseError>) -> Result<
    Seq<T>,
    ParseError,
>
    decreases n,
{
    if n == 0 {
        Ok(Seq::empty())
    } else {
        match collect((n - 1) as nat, f) {
            Ok(v) => match f((n - 1) as nat) {
                Ok(x) => Ok(v.push(x)),
                Err(e) => Err(e),
            },
            Err(e) => Err(e),
        }
    }
}

/// Once an entry fails, every longer run fails with the same error.
pub proof fn lemma_collect_err_sticks<T>(
    i: nat,
    n: nat,
    f: spec_fn(nat) -> Result<T, ParseError>,
)
    requires
        i <= n,
        collect(i, f) is Err,
    ensures
        collect(n, f) == collect(i, f),
    decreases n - i,
{
    if i < n {
        lemma_collect_err_sticks(i, (n - 1) as nat, f);
    }
}

/// A successful run has one entry per position, each the entry `f` decodes there.
pub proof fn lemma_collect_ok<T>(n: nat, f: spec_fn(nat) -> Result<T, ParseError>)
    requires
        collect(n, f) is Ok,
    ensures
        collect(n, f)->Ok_0.len() == n,
        forall|j: nat| j < n ==> f(j) == Ok::<T, ParseError>(#[trigger] collect(n, f)->Ok_0[j as int]),
    decreases n,
{
    if n > 0 {
        lemma_collect_ok((n - 1) as nat, f);
    }
}


/// When every one of the first `n` entries decodes, the run is those entries.
pub proof fn lemma_collect_all_ok<T>(n: nat, f: spec_fn(nat) -> Result<T, ParseError>, v: Seq<T>)
    requires
        v.len() == n,
        forall|j: nat| j < n ==> #[trigger] f(j) == Ok::<T, ParseError>(v[j as int]),
    ensures
        collect(n, f) == Ok::<Seq<T>, ParseError>(v),
    decreases n,
{
    if n == 0 {
        assert(v =~= Seq::<T>::empty());
    } else {
        let init = v.drop_last();
        assert forall|j: nat| j < (n - 1) as nat implies #[trigger] f(j) == Ok::<T, ParseError>(
            init[j as int],
        ) by {
            assert(f(j) == Ok::<T, ParseError>(v[j as int]));
        }
        lemma_collect_all_ok((n - 1) as nat, f, init);
        assert(f((n - 1) as nat) == Ok::<T, ParseError>(v[n - 1]));
        assert(init.push(v[n - 1]) =~= v);
    }
}


/// Two decodings that succeed or fail together, and give the same value when they succeed.
pub open spec fn same_outcome<T>(a: Result<T, ParseError>, b: Result<T, ParseError>) -> bool {
    &&& (a is Ok <==> b is Ok)
    &&& (a is Ok ==> a->Ok_0 == b->Ok_0)
}

/// Runs whose entries have the same outcome, entry by entry, have the same outcome.
pub proof fn lemma_collect_same_outcome<T>(
    n: nat,
    f: spec_fn(nat) -> Result<T, ParseError>,
    g: spec_fn(nat) -> Result<T, ParseError>,
)
    requires
        forall|j: nat| j < n ==> same_outcome(#[trigger] f(j), g(j)),
    ensures
        same_outcome(collect(n, f), collect(n, g)),
    decreases n,
{
    if n > 0 {
        lemma_collect_same_outcome((n - 1) as nat, f, g);
        assert(same_outcome(f((n - 1) as nat), g((n - 1) as nat)));
    }
}

} // verus!
