//! Order statistics over collected per-record samples: the generalized Nx
//! over read lengths and the median of per-record mean qualities.
//!
//! Both sort their input in place, as callers pass a transient copy of the
//! sample list; the original, display-ordered samples stay with the caller.

use crate::math::{lemma_mul_le, lemma_sum64_take_le, lemma_sum64_take_succ, lemma_sum64_update,
    sum64};
use crate::StatsError;
use vstd::pervasive::unreached;
use vstd::prelude::*;

verus! {

/// Ascending order over length samples.
pub open spec fn sorted64(s: Seq<u64>) -> bool {
    forall|a: int, b: int| 0 <= a < b < s.len() ==> s[a] <= s[b]
}

/// Ascending order over quality samples.
pub open spec fn sorted8(s: Seq<u8>) -> bool {
    forall|a: int, b: int| 0 <= a < b < s.len() ==> s[a] <= s[b]
}

/// What `get_nx` returns for the samples `lens` and the fraction
/// `num / den`: a sample value whose position `i`, in ascending sorted
/// order, is the first whose cumulative sum strictly exceeds the fraction
/// of the total.
pub open spec fn nx_ok(v: u64, lens: Seq<u64>, num: int, den: int) -> bool {
    exists|s: Seq<u64>, i: int|
        s.to_multiset() == lens.to_multiset() && sorted64(s) && 0 <= i < s.len() && s[i] == v
            && sum64(s.take(i + 1)) * den > sum64(s) * num
            && sum64(s.take(i)) * den <= sum64(s) * num
}

/// What `median` returns for the samples `qs`: the middle element of the
/// ascending sorted order, or the truncating mean of the two middle
/// elements when the count is even.
pub open spec fn median_ok(v: u8, qs: Seq<u8>) -> bool {
    exists|s: Seq<u8>|
        s.to_multiset() == qs.to_multiset() && s.len() == qs.len() && sorted8(s) && qs.len() > 0
            && v == (if qs.len() % 2 == 0 {
            (s[qs.len() as int / 2 - 1] + s[qs.len() as int / 2]) / 2
        } else {
            s[qs.len() as int / 2] as int
        })
}

/// Exchanging two positions of a sequence leaves its multiset unchanged.
proof fn lemma_swap_to_multiset<A>(s: Seq<A>, i: int, j: int)
    requires
        0 <= i < s.len(),
        0 <= j < s.len(),
        i != j,
    ensures
        s.update(i, s[j]).update(j, s[i]).to_multiset() == s.to_multiset(),
{
    broadcast use vstd::seq_lib::group_to_multiset_ensures;
    broadcast use vstd::seq_lib::to_multiset_update;
    broadcast use vstd::multiset::group_multiset_axioms;

    let t = s.update(i, s[j]);
    assert(s.contains(s[i]));
    assert(s.to_multiset().count(s[i]) > 0);
    assert(t[j] == s[j]);
    assert(t.update(j, s[i]).to_multiset() =~= s.to_multiset());
}

/// Insertion sort over length samples; also keeps the total unchanged, so
/// callers can carry sum bounds across the sort.
fn sort_u64(v: &mut Vec<u64>)
    ensures
        sorted64(final(v)@),
        final(v)@.to_multiset() == old(v)@.to_multiset(),
        final(v)@.len() == old(v)@.len(),
        sum64(final(v)@) == sum64(old(v)@),
{
    let ghost orig = v@;
    if v.len() <= 1 {
        return;
    }
    let mut i: usize = 1;
    while i < v.len()
        invariant
            1 <= i <= v@.len(),
            v@.len() == orig.len(),
            v@.to_multiset() == orig.to_multiset(),
            sum64(v@) == sum64(orig),
            sorted64(v@.take(i as int)),
        decreases v@.len() - i,
    {
        let mut j: usize = i;
        proof {
            assert forall|a: int, b: int| 0 <= a < b <= i && b != j implies v@[a] <= v@[b] by {
                assert(v@.take(i as int)[a] == v@[a]);
                assert(v@.take(i as int)[b] == v@[b]);
            }
        }
        while j > 0 && v[j - 1] > v[j]
            invariant
                j <= i < v@.len(),
                v@.len() == orig.len(),
                v@.to_multiset() == orig.to_multiset(),
                sum64(v@) == sum64(orig),
                forall|a: int, b: int| 0 <= a < b <= i && b != j ==> v@[a] <= v@[b],
                forall|b: int| j < b <= i ==> v@[j as int] <= v@[b],
            decreases j,
        {
            let ghost pre = v@;
            let x = v[j];
            let y = v[j - 1];
            v[j - 1] = x;
            v[j] = y;
            proof {
                assert(v@ =~= pre.update(j - 1, pre[j as int]).update(j as int, pre[j - 1]));
                lemma_swap_to_multiset(pre, j - 1, j as int);
                lemma_sum64_update(pre, j - 1, x);
                lemma_sum64_update(pre.update(j - 1, x), j as int, y);
            }
            j = j - 1;
        }
        proof {
            assert forall|a: int, b: int| 0 <= a < b <= i implies v@[a] <= v@[b] by {
                if b == j {
                    assert(v@[j - 1] <= v@[j as int]);
                    if a < j - 1 {
                        assert(v@[a] <= v@[j - 1]);
                    }
                }
            }
            assert forall|a: int, b: int| 0 <= a < b < i + 1 implies #[trigger] v@.take(
                i + 1,
            )[a] <= #[trigger] v@.take(i + 1)[b] by {
                assert(v@.take(i + 1)[a] == v@[a]);
                assert(v@.take(i + 1)[b] == v@[b]);
            }
        }
        i = i + 1;
    }
    proof {
        assert(v@.take(v@.len() as int) =~= v@);
    }
}

/// Insertion sort over quality samples.
fn sort_u8(v: &mut Vec<u8>)
    ensures
        sorted8(final(v)@),
        final(v)@.to_multiset() == old(v)@.to_multiset(),
        final(v)@.len() == old(v)@.len(),
{
    let ghost orig = v@;
    if v.len() <= 1 {
        return;
    }
    let mut i: usize = 1;
    while i < v.len()
        invariant
            1 <= i <= v@.len(),
            v@.len() == orig.len(),
            v@.to_multiset() == orig.to_multiset(),
            sorted8(v@.take(i as int)),
        decreases v@.len() - i,
    {
        let mut j: usize = i;
        proof {
            assert forall|a: int, b: int| 0 <= a < b <= i && b != j implies v@[a] <= v@[b] by {
                assert(v@.take(i as int)[a] == v@[a]);
                assert(v@.take(i as int)[b] == v@[b]);
            }
        }
        while j > 0 && v[j - 1] > v[j]
            invariant
                j <= i < v@.len(),
                v@.len() == orig.len(),
                v@.to_multiset() == orig.to_multiset(),
                forall|a: int, b: int| 0 <= a < b <= i && b != j ==> v@[a] <= v@[b],
                forall|b: int| j < b <= i ==> v@[j as int] <= v@[b],
            decreases j,
        {
            let ghost pre = v@;
            let x = v[j];
            let y = v[j - 1];
            v[j - 1] = x;
            v[j] = y;
            proof {
                assert(v@ =~= pre.update(j - 1, pre[j as int]).update(j as int, pre[j - 1]));
                lemma_swap_to_multiset(pre, j - 1, j as int);
            }
            j = j - 1;
        }
        proof {
            assert forall|a: int, b: int| 0 <= a < b <= i implies v@[a] <= v@[b] by {
                if b == j {
                    assert(v@[j - 1] <= v@[j as int]);
                    if a < j - 1 {
                        assert(v@[a] <= v@[j - 1]);
                    }
                }
            }
            assert forall|a: int, b: int| 0 <= a < b < i + 1 implies #[trigger] v@.take(
                i + 1,
            )[a] <= #[trigger] v@.take(i + 1)[b] by {
                assert(v@.take(i + 1)[a] == v@[a]);
                assert(v@.take(i + 1)[b] == v@[b]);
            }
        }
        i = i + 1;
    }
    proof {
        assert(v@.take(v@.len() as int) =~= v@);
    }
}

/// Generalized Nx of a list of read lengths for the fraction
/// `frac_num / frac_den`.
///
/// Sorts the list ascending and returns the length at the first position
/// whose cumulative sum strictly exceeds `total * frac_num / frac_den`;
/// ties between equal cumulative sums therefore resolve toward the lower
/// position, as a strictly sequential left-to-right scan would. An empty
/// list has no order statistic and is rejected with `EmptyInput`.
///
/// The fraction must lie strictly between zero and one, and a non-empty
/// list must have a positive total: with a fraction of exactly one, or an
/// all-zero list, no cumulative sum strictly exceeds the threshold and no
/// result exists.
pub fn get_nx(numbers: &mut Vec<u64>, frac_num: u64, frac_den: u64) -> (r: Result<
    u64,
    StatsError,
>)
    requires
        0 < frac_num < frac_den,
        sum64(old(numbers)@) <= u64::MAX,
        old(numbers)@.len() > 0 ==> sum64(old(numbers)@) > 0,
    ensures
        final(numbers)@.to_multiset() == old(numbers)@.to_multiset(),
        final(numbers)@.len() == old(numbers)@.len(),
        sum64(final(numbers)@) == sum64(old(numbers)@),
        sorted64(final(numbers)@),
        old(numbers)@.len() == 0 <==> r is Err,
        r matches Err(e) ==> e == StatsError::EmptyInput,
        r matches Ok(v) ==> exists|i: int|
            0 <= i < final(numbers)@.len() && final(numbers)@[i] == v && sum64(
                final(numbers)@.take(i + 1),
            ) * frac_den > sum64(final(numbers)@) * frac_num && sum64(final(numbers)@.take(i))
                * frac_den <= sum64(final(numbers)@) * frac_num,
{
    if numbers.len() == 0 {
        return Err(StatsError::EmptyInput);
    }
    sort_u64(numbers);
    let ghost snap = numbers@;
    let mut total: u64 = 0;
    let mut i: usize = 0;
    while i < numbers.len()
        invariant
            numbers@ == snap,
            snap.to_multiset() == old(numbers)@.to_multiset(),
            snap.len() == old(numbers)@.len(),
            sum64(snap) == sum64(old(numbers)@),
            sorted64(snap),
            i <= numbers@.len(),
            total == sum64(numbers@.take(i as int)),
            sum64(numbers@) <= u64::MAX,
        decreases numbers@.len() - i,
    {
        proof {
            lemma_sum64_take_succ(numbers@, i as int);
            lemma_sum64_take_le(numbers@, i + 1);
        }
        total = total + numbers[i];
        i = i + 1;
    }
    proof {
        assert(numbers@.take(numbers@.len() as int) =~= numbers@);
    }
    let mut cum: u64 = 0;
    let mut i: usize = 0;
    while i < numbers.len()
        invariant
            numbers@ == snap,
            snap.to_multiset() == old(numbers)@.to_multiset(),
            snap.len() == old(numbers)@.len(),
            sum64(snap) == sum64(old(numbers)@),
            sorted64(snap),
            snap.len() > 0,
            sum64(snap) > 0,
            0 < frac_num < frac_den,
            i <= numbers@.len(),
            cum == sum64(numbers@.take(i as int)),
            total == sum64(numbers@),
            total <= u64::MAX,
            forall|j: int| 0 <= j < i ==> sum64(#[trigger] numbers@.take(j + 1)) * frac_den
                <= sum64(numbers@) * frac_num,
        decreases numbers@.len() - i,
    {
        proof {
            lemma_sum64_take_succ(numbers@, i as int);
            lemma_sum64_take_le(numbers@, i + 1);
            lemma_mul_le(sum64(numbers@.take(i + 1)), frac_den as int, u64::MAX as int,
                u64::MAX as int);
            lemma_mul_le(sum64(numbers@) as int, frac_num as int, u64::MAX as int,
                u64::MAX as int);
        }
        cum = cum + numbers[i];
        if (cum as u128) * (frac_den as u128) > (total as u128) * (frac_num as u128) {
            proof {
                lemma_mul_le(0, 0, sum64(numbers@), frac_num as int);
                if i > 0 {
                    assert(sum64(numbers@.take(i - 1 + 1)) * frac_den <= sum64(numbers@)
                        * frac_num);
                }
                assert(0 <= i < numbers@.len() && numbers@[i as int] == numbers@[i as int]
                    && sum64(numbers@.take(i + 1)) * frac_den > sum64(numbers@) * frac_num
                    && sum64(numbers@.take(i as int)) * frac_den <= sum64(numbers@) * frac_num);
            }
            return Ok(numbers[i]);
        }
        i = i + 1;
    }
    proof {
        assert(numbers@.take(numbers@.len() as int) =~= numbers@);
        let n = numbers@.len() as int;
        assert(sum64(numbers@.take(n - 1 + 1)) * frac_den <= sum64(numbers@) * frac_num);
        let t = sum64(numbers@);
        assert(false) by (nonlinear_arith)
            requires t > 0 && frac_den > frac_num >= 0 && t * frac_den <= t * frac_num;
    }
    unreached()
}

/// Median of a list of per-record mean qualities.
///
/// Sorts the list ascending; for an odd count the middle element, for an
/// even count the truncating integer mean of the two middle elements. An
/// empty list has no median and is rejected with `EmptyInput`.
pub fn median(numbers: &mut Vec<u8>) -> (r: Result<u8, StatsError>)
    ensures
        final(numbers)@.to_multiset() == old(numbers)@.to_multiset(),
        final(numbers)@.len() == old(numbers)@.len(),
        sorted8(final(numbers)@),
        old(numbers)@.len() == 0 <==> r is Err,
        r matches Err(e) ==> e == StatsError::EmptyInput,
        r matches Ok(v) ==> ({
            let s = final(numbers)@;
            let mid = s.len() as int / 2;
            v == if s.len() % 2 == 0 {
                (s[mid - 1] + s[mid]) / 2
            } else {
                s[mid] as int
            }
        }),
{
    if numbers.len() == 0 {
        return Err(StatsError::EmptyInput);
    }
    sort_u8(numbers);
    let mid = numbers.len() / 2;
    if numbers.len() % 2 == 0 {
        let lo = numbers[mid - 1];
        let hi = numbers[mid];
        Ok(((lo as u16 + hi as u16) / 2) as u8)
    } else {
        Ok(numbers[mid])
    }
}

} // verus!
