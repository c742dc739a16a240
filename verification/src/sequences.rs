//! Which elements of a sequence another one is made of.
use vstd::prelude::*;

verus! {

/// The places are places of the sequence, each after the one before.
pub open spec fn rising(at: Seq<int>, len: nat) -> bool {
    &&& forall|k: int| 0 <= k < at.len() ==> 0 <= #[trigger] at[k] < len
    &&& forall|j: int, k: int| 0 <= j < k < at.len() ==> #[trigger] at[j] < #[trigger] at[k]
}

/// `result` is what `f` makes of the elements of `source` at the given places, in
/// their order, and the places are all those at which it makes something.
pub open spec fn picks<A, B>(
    result: Seq<B>,
    source: Seq<A>,
    f: spec_fn(A) -> Option<B>,
    at: Seq<int>,
) -> bool {
    &&& at.len() == result.len()
    &&& rising(at, source.len())
    &&& forall|k: int| 0 <= k < at.len() ==> f(source[#[trigger] at[k]]) == Some(result[k])
    &&& forall|i: int| 0 <= i < source.len() && f(#[trigger] source[i]) is Some ==> at.contains(i)
}

/// Where the elements of a filtered and mapped sequence come from.
pub proof fn lemma_filter_map_picks<A, B>(s: Seq<A>, f: spec_fn(A) -> Option<B>) -> (at: Seq<int>)
    ensures
        picks(s.filter_map(f), s, f, at),
    decreases s.len(),
{
    if s.len() == 0 {
        Seq::empty()
    } else {
        let front = s.drop_last();
        let before = lemma_filter_map_picks(front, f);
        let last = s.len() - 1;
        let at = match f(s.last()) {
            Some(_) => before.push(last),
            None => before,
        };
        let result = s.filter_map(f);
        assert forall|k: int| 0 <= k < at.len()
            implies f(s[#[trigger] at[k]]) == Some(result[k]) by {
            if k < before.len() {
                assert(at[k] == before[k]);
                assert(f(front[before[k]]) == Some(front.filter_map(f)[k]));
            }
        }
        assert forall|i: int| 0 <= i < s.len() && f(#[trigger] s[i]) is Some implies at.contains(
            i,
        ) by {
            if i < last {
                assert(front[i] == s[i]);
                let k = choose|k: int| 0 <= k < before.len() && before[k] == i;
                assert(at[k] == i);
            } else {
                assert(at[before.len() as int] == last);
            }
        }
        assert(rising(at, s.len())) by {
            assert forall|k: int| 0 <= k < at.len() implies 0 <= #[trigger] at[k] < s.len() by {
                if k < before.len() {
                    assert(at[k] == before[k]);
                }
            }
            assert forall|j: int, k: int| 0 <= j < k < at.len() implies #[trigger] at[j]
                < #[trigger] at[k] by {
                assert(at[j] == before[j]);
                if k < before.len() {
                    assert(at[k] == before[k]);
                }
            }
        }
        at
    }
}

/// Where the elements of a filtered sequence come from.
pub proof fn lemma_filter_picks<A>(s: Seq<A>, p: spec_fn(A) -> bool) -> (at: Seq<int>)
    ensures
        picks(
            s.filter(p),
            s,
            |a: A|
                if p(a) {
                    Some(a)
                } else {
                    None
                },
            at,
        ),
{
    let f = |a: A|
        if p(a) {
            Some(a)
        } else {
            None
        };
    lemma_filter_is_filter_map(s, p);
    lemma_filter_map_picks(s, f)
}

proof fn lemma_filter_is_filter_map<A>(s: Seq<A>, p: spec_fn(A) -> bool)
    ensures
        s.filter(p) == s.filter_map(
            |a: A|
                if p(a) {
                    Some(a)
                } else {
                    None
                },
        ),
    decreases s.len(),
{
    reveal(Seq::filter);
    let f = |a: A|
        if p(a) {
            Some(a)
        } else {
            None
        };
    if s.len() > 0 {
        lemma_filter_is_filter_map(s.drop_last(), p);
        assert(s.filter(p) =~= s.filter_map(f));
    } else {
        assert(s.filter(p) =~= s.filter_map(f));
    }
}

/// Where something is made of every element, the sequences are of the same length
/// and go element by element.
pub proof fn lemma_picks_all<A, B>(
    result: Seq<B>,
    source: Seq<A>,
    f: spec_fn(A) -> Option<B>,
    at: Seq<int>,
)
    requires
        picks(result, source, f, at),
        forall|i: int| 0 <= i < source.len() ==> f(#[trigger] source[i]) is Some,
    ensures
        result.len() == source.len(),
        forall|i: int| 0 <= i < source.len() ==> f(#[trigger] source[i]) == Some(result[i]),
{
    assert forall|i: int| 0 <= i < source.len() implies #[trigger] at.contains(i) by {
        assert(f(source[i]) is Some);
    }
    lemma_rising_all(at, source.len() as int);
    assert forall|i: int| 0 <= i < source.len() implies f(#[trigger] source[i]) == Some(
        result[i],
    ) by {
        assert(at[i] == i);
    }
}

/// Places that leave none out are all places in order.
proof fn lemma_rising_all(at: Seq<int>, n: int)
    requires
        0 <= n,
        rising(at, n as nat),
        forall|i: int| 0 <= i < n ==> #[trigger] at.contains(i),
    ensures
        at.len() == n,
        forall|i: int| 0 <= i < n ==> #[trigger] at[i] == i,
    decreases n,
{
    if n == 0 {
        if at.len() > 0 {
            let first = at[0];
            assert(0 <= first < n);
        }
    } else {
        assert(at.contains(n - 1));
        let k = choose|k: int| 0 <= k < at.len() && at[k] == n - 1;
        if k < at.len() - 1 {
            assert(at[k] < at[at.len() - 1]);
        }
        let front = at.drop_last();
        assert forall|i: int| 0 <= i < n - 1 implies #[trigger] front.contains(i) by {
            assert(at.contains(i));
            let j = choose|j: int| 0 <= j < at.len() && at[j] == i;
            assert(front[j] == i);
        }
        assert forall|j: int| 0 <= j < front.len() implies 0 <= #[trigger] front[j] < n - 1 by {
            assert(at[j] < at[at.len() - 1]);
        }
        lemma_rising_all(front, n - 1);
        assert forall|i: int| 0 <= i < n implies #[trigger] at[i] == i by {
            if i < n - 1 {
                assert(front[i] == i);
            }
        }
    }
}

} // verus!
