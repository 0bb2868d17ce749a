//! Sequences of text fragments: joining them, and gathering fallible results.

use vstd::prelude::*;

verus! {

/// The fragments of `parts`, in order, with `sep` between each two neighbours.
pub open spec fn join_spec(parts: Seq<Seq<char>>, sep: Seq<char>) -> Seq<char>
    decreases parts.len(),
{
    if parts.len() == 0 {
        Seq::empty()
    } else if parts.len() == 1 {
        parts[0]
    } else {
        join_spec(parts.drop_last(), sep) + sep + parts.last()
    }
}

/// The values of `results` in order if all of them are `Ok`, and the first
/// error otherwise.
pub open spec fn collect<T, E>(results: Seq<Result<T, E>>) -> Result<Seq<T>, E>
    decreases results.len(),
{
    if results.len() == 0 {
        Ok(Seq::empty())
    } else {
        match collect(results.drop_last()) {
            Err(e) => Err(e),
            Ok(front) => match results.last() {
                Err(e) => Err(e),
                Ok(value) => Ok(front.push(value)),
            },
        }
    }
}

/// Gathering one more successful result extends what was gathered so far.
pub proof fn lemma_collect_next<T, E>(results: Seq<Result<T, E>>, i: int)
    requires
        0 <= i < results.len(),
        collect(results.take(i)) is Ok,
    ensures
        collect(results.take(i + 1)) == match results[i] {
            Err(e) => Err::<Seq<T>, E>(e),
            Ok(value) => Ok(collect(results.take(i))->Ok_0.push(value)),
        },
{
    assert(results.take(i + 1).drop_last() =~= results.take(i));
}

/// An error among the first results is the error of the whole sequence.
pub proof fn lemma_collect_err<T, E>(results: Seq<Result<T, E>>, i: int)
    requires
        0 <= i <= results.len(),
        collect(results.take(i)) is Err,
    ensures
        collect(results) == collect(results.take(i)),
    decreases results.len() - i,
{
    if i < results.len() {
        assert(results.take(i + 1).drop_last() =~= results.take(i));
        lemma_collect_err(results, i + 1);
    } else {
        assert(results.take(i) =~= results);
    }
}

/// Gathering succeeds exactly where every result is `Ok`, and then keeps
/// each value in the place of its result.
pub proof fn lemma_collect_ok<T, E>(results: Seq<Result<T, E>>)
    ensures
        collect(results) is Ok <==> forall|i: int| 0 <= i < results.len() ==> results[i] is Ok,
        collect(results) matches Ok(values) ==> {
            &&& values.len() == results.len()
            &&& forall|i: int| 0 <= i < results.len() ==> results[i] == Ok::<T, E>(values[i])
        },
    decreases results.len(),
{
    if results.len() > 0 {
        let front = results.drop_last();
        lemma_collect_ok(front);
        if collect(front) is Ok {
            assert forall|i: int| 0 <= i < front.len() implies results[i] is Ok by {
                assert(front[i] is Ok);
            }
        } else {
            let i = choose|i: int| 0 <= i < front.len() && !(front[i] is Ok);
            assert(!(results[i] is Ok));
        }
        if let Ok(values) = collect(results) {
            assert forall|i: int| 0 <= i < results.len() implies results[i] == Ok::<T, E>(
                values[i],
            ) by {
                if i < front.len() {
                    assert(front[i] == results[i]);
                }
            }
        }
    }
}

/// Joining two runs of fragments one after the other joins each run and puts
/// `sep` between the two results, where neither run is empty.
pub proof fn lemma_join_concat(first: Seq<Seq<char>>, second: Seq<Seq<char>>, sep: Seq<char>)
    ensures
        join_spec(first + second, sep) == if first.len() == 0 {
            join_spec(second, sep)
        } else if second.len() == 0 {
            join_spec(first, sep)
        } else {
            join_spec(first, sep) + sep + join_spec(second, sep)
        },
    decreases second.len(),
{
    if first.len() == 0 {
        assert(first + second =~= second);
    } else if second.len() == 0 {
        assert(first + second =~= first);
    } else {
        let whole = first + second;
        assert(whole.drop_last() =~= first + second.drop_last());
        assert(whole.last() == second.last());
        lemma_join_concat(first, second.drop_last(), sep);
        if second.len() == 1 {
            assert(second.drop_last().len() == 0);
            assert(join_spec(second, sep) == second.last());
        } else {
            assert(join_spec(whole, sep) =~= join_spec(first, sep) + sep + (join_spec(
                second.drop_last(),
                sep,
            ) + sep + second.last()));
        }
    }
}

/// Joins `parts` with `sep` between each two neighbours.
pub fn join(parts: &Vec<String>, sep: &str) -> (joined: String)
    ensures
        joined@ == join_spec(parts.deep_view(), sep@),
{
    let mut joined = String::new();
    let mut i: usize = 0;
    while i < parts.len()
        invariant
            i <= parts.len(),
            joined@ == join_spec(parts.deep_view().take(i as int), sep@),
        decreases parts.len() - i,
    {
        proof {
            let next = parts.deep_view().take(i + 1);
            assert(next.drop_last() =~= parts.deep_view().take(i as int));
            assert(next.last() == parts[i as int]@);
            assert(Seq::<char>::empty() + parts[i as int]@ =~= parts[i as int]@);
        }
        if i > 0 {
            joined.append(sep);
        }
        joined.append(parts[i].as_str());
        i = i + 1;
    }
    assert(parts.deep_view().take(parts.len() as int) =~= parts.deep_view());
    joined
}

} // verus!
