//! The first of a sequence of optional outcomes: how checks that stop at the
//! first failure are specified.
use vstd::prelude::*;

verus! {

/// The first present element of `s`, if any.
pub open spec fn first_some<B>(s: Seq<Option<B>>) -> Option<B>
    decreases s.len(),
{
    if s.len() == 0 {
        None
    } else if s[0] is Some {
        s[0]
    } else {
        first_some(s.drop_first())
    }
}

pub proof fn lemma_first_some_at<B>(s: Seq<Option<B>>, i: int)
    requires
        0 <= i < s.len(),
        forall|j: int| 0 <= j < i ==> (#[trigger] s[j]) is None,
        s[i] is Some,
    ensures
        first_some(s) == s[i],
    decreases i,
{
    if i > 0 {
        assert(s.drop_first()[i - 1] == s[i]);
        lemma_first_some_at(s.drop_first(), i - 1);
    }
}

pub proof fn lemma_first_some_none<B>(s: Seq<Option<B>>)
    requires
        forall|j: int| 0 <= j < s.len() ==> (#[trigger] s[j]) is None,
    ensures
        first_some(s) is None,
    decreases s.len(),
{
    if s.len() > 0 {
        assert forall|j: int| 0 <= j < s.drop_first().len() implies (#[trigger] s.drop_first()[j]) is None by {
            assert(s.drop_first()[j] == s[j + 1]);
        }
        lemma_first_some_none(s.drop_first());
    }
}

/// The first present element is one of the elements.
pub proof fn lemma_first_some_found<B>(s: Seq<Option<B>>)
    requires
        first_some(s) is Some,
    ensures
        exists|j: int| 0 <= j < s.len() && #[trigger] s[j] == first_some(s),
    decreases s.len(),
{
    if s[0] is Some {
        assert(s[0] == first_some(s));
    } else {
        lemma_first_some_found(s.drop_first());
        let j = choose|j: int| 0 <= j < s.drop_first().len() && #[trigger] s.drop_first()[j] == first_some(s.drop_first());
        assert(s[j + 1] == s.drop_first()[j]);
    }
}

/// When no element is present, each is absent.
pub proof fn lemma_first_some_none_all<B>(s: Seq<Option<B>>)
    requires
        first_some(s) is None,
    ensures
        forall|j: int| 0 <= j < s.len() ==> (#[trigger] s[j]) is None,
    decreases s.len(),
{
    if s.len() > 0 {
        lemma_first_some_none_all(s.drop_first());
        assert forall|j: int| 0 <= j < s.len() implies (#[trigger] s[j]) is None by {
            if j > 0 {
                assert(s.drop_first()[j - 1] == s[j]);
            }
        }
    }
}

/// The values of a sequence of outcomes, or the error of the first that failed.
pub open spec fn collect_results<T, E>(rs: Seq<Result<T, E>>) -> Result<Seq<T>, E>
    decreases rs.len(),
{
    if rs.len() == 0 {
        Ok(Seq::empty())
    } else {
        match collect_results(rs.drop_last()) {
            Ok(prev) => match rs.last() {
                Ok(x) => Ok(prev.push(x)),
                Err(e) => Err(e),
            },
            Err(e) => Err(e),
        }
    }
}

/// Collecting one more outcome onto a prefix that succeeded.
pub proof fn lemma_collect_step<T, E>(rs: Seq<Result<T, E>>, n: int)
    requires
        0 <= n < rs.len(),
    ensures
        collect_results(rs.take(n + 1)) == match collect_results(rs.take(n)) {
            Ok(prev) => match rs[n] {
                Ok(x) => Ok(prev.push(x)),
                Err(e) => Err(e),
            },
            Err(e) => Err(e),
        },
{
    assert(rs.take(n + 1).drop_last() =~= rs.take(n));
    assert(rs.take(n + 1).last() == rs[n]);
}

/// Once a prefix of the outcomes holds an error, the whole does, the same one.
pub proof fn lemma_collect_error_persists<T, E>(rs: Seq<Result<T, E>>, n: int)
    requires
        0 <= n <= rs.len(),
        collect_results(rs.take(n)) is Err,
    ensures
        collect_results(rs) == collect_results(rs.take(n)),
    decreases rs.len() - n,
{
    if n < rs.len() {
        lemma_collect_step(rs, n);
        lemma_collect_error_persists(rs, n + 1);
    } else {
        assert(rs.take(n) =~= rs);
    }
}

} // verus!
