//! Input validation for every predicate, with exact success conditions:
//! each function returns `Ok` precisely on the inputs its predicate admits.

use vstd::prelude::*;
use crate::errors::{ZkpError, ZkpResult};

verus! {

/// Mathematical sum of a `u64` sequence.
pub open spec fn spec_sum(values: Seq<u64>) -> int
    decreases values.len(),
{
    if values.len() == 0 {
        0
    } else {
        values[0] + spec_sum(values.drop_first())
    }
}

pub proof fn lemma_sum_push(values: Seq<u64>, x: u64)
    ensures
        spec_sum(values.push(x)) == spec_sum(values) + x,
    decreases values.len(),
{
    if values.len() == 0 {
        let p = values.push(x);
        assert(p[0] == x);
        assert(p.drop_first() =~= Seq::<u64>::empty());
        assert(spec_sum(p) == x + spec_sum(p.drop_first()));
    } else {
        assert(values.push(x)[0] == values[0]);
        assert(values.push(x).drop_first() =~= values.drop_first().push(x));
        lemma_sum_push(values.drop_first(), x);
    }
}

pub proof fn lemma_sum_nonneg(values: Seq<u64>)
    ensures
        spec_sum(values) >= 0,
    decreases values.len(),
{
    if values.len() > 0 {
        lemma_sum_nonneg(values.drop_first());
    }
}

/// Whether a sequence is monotone nondecreasing.
pub open spec fn spec_ascending(data: Seq<u64>) -> bool {
    forall|i: int| 0 <= i < data.len() - 1 ==> #[trigger] data[i] <= data[i + 1]
}

/// Validates `min <= value <= max` (which entails `min <= max`).
pub fn validate_range_params(value: u64, min: u64, max: u64) -> (r: ZkpResult<()>)
    ensures
        r is Ok <==> min <= value <= max,
{
    if min > max {
        return Err(ZkpError::InvalidInput("min cannot be greater than max".to_string()));
    }
    if value < min || value > max {
        return Err(ZkpError::InvalidInput("value is not in range".to_string()));
    }
    Ok(())
}

/// Validates that the two values are equal.
pub fn validate_equality_params(val1: u64, val2: u64) -> (r: ZkpResult<()>)
    ensures
        r is Ok <==> val1 == val2,
{
    if val1 != val2 {
        return Err(ZkpError::InvalidInput("values are not equal".to_string()));
    }
    Ok(())
}

/// Computes the overflow-checked sum of a non-empty value list and
/// validates that it reaches the threshold. Returns the sum.
pub fn validate_threshold_params(values: &[u64], threshold: u64) -> (r: ZkpResult<u64>)
    ensures
        r is Ok <==> values@.len() > 0 && spec_sum(values@) <= u64::MAX && spec_sum(values@)
            >= threshold,
        r matches Ok(s) ==> s == spec_sum(values@),
{
    if values.len() == 0 {
        return Err(ZkpError::InvalidInput("values cannot be empty".to_string()));
    }
    let sum = checked_sum(values)?;
    if sum < threshold {
        return Err(ZkpError::InvalidInput("sum is less than threshold".to_string()));
    }
    Ok(sum)
}

/// Sums a value list, failing exactly when the mathematical sum overflows.
fn checked_sum(values: &[u64]) -> (r: ZkpResult<u64>)
    ensures
        r is Ok <==> spec_sum(values@) <= u64::MAX,
        r matches Ok(s) ==> s == spec_sum(values@),
{
    let mut acc: u64 = 0;
    let mut i: usize = 0;
    while i < values.len()
        invariant
            i <= values@.len(),
            acc == spec_sum(values@.take(i as int)),
        decreases values@.len() - i,
    {
        let v = *vstd::slice::slice_index_get(values, i);
        proof {
            assert(values@.take(i + 1) =~= values@.take(i as int).push(values@[i as int]));
            lemma_sum_push(values@.take(i as int), values@[i as int]);
        }
        acc = match acc.checked_add(v) {
            Some(s) => s,
            None => {
                proof {
                    lemma_sum_take_monotonic(values@, i + 1);
                }
                return Err(ZkpError::InvalidInput(
                    "integer overflow in sum calculation".to_string(),
                ));
            },
        };
        i = i + 1;
    }
    proof {
        assert(values@.take(values@.len() as int) =~= values@);
    }
    Ok(acc)
}

/// A prefix sum never exceeds the total sum.
proof fn lemma_sum_take_monotonic(values: Seq<u64>, i: int)
    requires
        0 <= i <= values.len(),
    ensures
        spec_sum(values.take(i)) <= spec_sum(values),
    decreases values.len() - i,
{
    if i < values.len() {
        assert(values.take(i + 1) =~= values.take(i).push(values[i]));
        lemma_sum_push(values.take(i), values[i]);
        lemma_sum_take_monotonic(values, i + 1);
    } else {
        assert(values.take(i) =~= values);
    }
}

/// Validates that the set is non-empty and holds the value.
pub fn validate_membership_params(value: u64, set: &[u64]) -> (r: ZkpResult<()>)
    ensures
        r is Ok <==> set@.len() > 0 && set@.contains(value),
{
    if set.len() == 0 {
        return Err(ZkpError::InvalidInput("set cannot be empty".to_string()));
    }
    if find_index(set, value).is_none() {
        return Err(ZkpError::InvalidInput("value is not in the provided set".to_string()));
    }
    Ok(())
}

/// Returns the first index of `value` in `set`, if any.
pub fn find_index(set: &[u64], value: u64) -> (r: Option<usize>)
    ensures
        r is Some <==> set@.contains(value),
        r matches Some(i) ==> i < set@.len() && set@[i as int] == value && forall|j: int|
            0 <= j < i ==> set@[j] != value,
{
    let mut i: usize = 0;
    while i < set.len()
        invariant
            i <= set@.len(),
            forall|j: int| 0 <= j < i ==> set@[j] != value,
        decreases set@.len() - i,
    {
        if *vstd::slice::slice_index_get(set, i) == value {
            return Some(i);
        }
        i = i + 1;
    }
    None
}

/// Validates that `new` strictly improves on `old`; returns the difference.
pub fn validate_improvement_params(old_value: u64, new_value: u64) -> (r: ZkpResult<u64>)
    ensures
        r is Ok <==> new_value > old_value,
        r matches Ok(d) ==> d == new_value - old_value,
{
    if new_value <= old_value {
        return Err(ZkpError::InvalidInput(
            "new value must be greater than old value".to_string(),
        ));
    }
    Ok(new_value - old_value)
}

/// Validates that the data is non-empty and monotone nondecreasing.
pub fn validate_consistency_params(data: &[u64]) -> (r: ZkpResult<()>)
    ensures
        r is Ok <==> data@.len() > 0 && spec_ascending(data@),
{
    if data.len() == 0 {
        return Err(ZkpError::InvalidInput("data cannot be empty".to_string()));
    }
    if !is_ascending_order(data) {
        return Err(ZkpError::InvalidInput("data is not in ascending order".to_string()));
    }
    Ok(())
}

/// Whether the values are in nondecreasing order.
pub fn is_ascending_order(values: &[u64]) -> (r: bool)
    ensures
        r == spec_ascending(values@),
{
    if values.len() < 2 {
        return true;
    }
    let mut i: usize = 0;
    while i < values.len() - 1
        invariant
            values@.len() >= 2,
            i <= values@.len() - 1,
            forall|j: int| 0 <= j < i ==> #[trigger] values@[j] <= values@[j + 1],
        decreases values@.len() - i,
    {
        if *vstd::slice::slice_index_get(values, i) > *vstd::slice::slice_index_get(values, i + 1) {
            proof {
                assert(values@[i as int] > values@[i + 1]);
            }
            return false;
        }
        i = i + 1;
    }
    true
}

/// Validates a minimum proof-blob size.
pub fn validate_proof_data(data: &[u8], min_size: usize) -> (r: ZkpResult<()>)
    ensures
        r is Ok <==> data@.len() >= min_size,
{
    if data.len() < min_size {
        return Err(ZkpError::InvalidProofFormat("proof data too short".to_string()));
    }
    Ok(())
}

/// Validates an exact commitment size.
pub fn validate_commitment_format(commitment: &[u8], expected_size: usize) -> (r: ZkpResult<()>)
    ensures
        r is Ok <==> commitment@.len() == expected_size,
{
    if commitment.len() != expected_size {
        return Err(ZkpError::InvalidProofFormat("invalid commitment size".to_string()));
    }
    Ok(())
}

/// Validates that a set holds no duplicate value.
pub fn validate_unique_set(set: &[u64]) -> (r: ZkpResult<()>)
    ensures
        r is Ok <==> (forall|i: int, j: int| 0 <= i < j < set@.len() ==> set@[i] != set@[j]),
{
    let mut i: usize = 0;
    while i < set.len()
        invariant
            i <= set@.len(),
            forall|p: int, q: int| 0 <= p < q < set@.len() && p < i ==> set@[p] != set@[q],
        decreases set@.len() - i,
    {
        let vi = *vstd::slice::slice_index_get(set, i);
        let mut j: usize = i + 1;
        while j < set.len()
            invariant
                i < j || i == j,
                i < set@.len(),
                i + 1 <= j <= set@.len(),
                vi == set@[i as int],
                forall|q: int| i < q < j ==> set@[i as int] != set@[q],
            decreases set@.len() - j,
        {
            if *vstd::slice::slice_index_get(set, j) == vi {
                proof {
                    assert(set@[i as int] == set@[j as int]);
                }
                return Err(ZkpError::InvalidInput("duplicate value found in set".to_string()));
            }
            j = j + 1;
        }
        i = i + 1;
    }
    Ok(())
}

/// Validates a maximum set size.
pub fn validate_set_size(set: &[u64], max_size: usize) -> (r: ZkpResult<()>)
    ensures
        r is Ok <==> set@.len() <= max_size,
{
    if set.len() > max_size {
        return Err(ZkpError::InvalidInput("set size exceeds maximum allowed size".to_string()));
    }
    Ok(())
}

/// Validates an upper bound on a value.
pub fn validate_value_bounds(value: u64, max_value: u64) -> (r: ZkpResult<()>)
    ensures
        r is Ok <==> value <= max_value,
{
    if value > max_value {
        return Err(ZkpError::InvalidInput("value exceeds maximum allowed value".to_string()));
    }
    Ok(())
}

/// Validates that a range is properly ordered.
pub fn validate_range(min: u64, max: u64) -> (r: ZkpResult<()>)
    ensures
        r is Ok <==> min <= max,
{
    if min > max {
        return Err(ZkpError::InvalidInput("min cannot be greater than max".to_string()));
    }
    Ok(())
}

/// Validates that a value lies within an ordered range.
pub fn validate_value_in_range(value: u64, min: u64, max: u64) -> (r: ZkpResult<()>)
    ensures
        r is Ok <==> min <= value <= max,
{
    validate_range(min, max)?;
    if value < min || value > max {
        return Err(ZkpError::InvalidInput("value is outside the valid range".to_string()));
    }
    Ok(())
}

/// Validates that a slice is non-empty, naming it in the error.
pub fn validate_non_empty_slice<T>(slice: &[T], name: &str) -> (r: ZkpResult<()>)
    ensures
        r is Ok <==> slice@.len() > 0,
{
    if slice.len() == 0 {
        let msg = name.to_string();
        return Err(ZkpError::InvalidInput(crate::errors::concat_message(
            "empty input: ",
            &msg,
        )));
    }
    Ok(())
}

/// Validates a strict improvement and returns the difference.
pub fn validate_improvement(old_value: u64, new_value: u64) -> (r: ZkpResult<u64>)
    ensures
        r is Ok <==> new_value > old_value,
        r matches Ok(d) ==> d == new_value - old_value,
{
    if new_value <= old_value {
        return Err(ZkpError::InvalidInput(
            "new value must be greater than old value".to_string(),
        ));
    }
    Ok(new_value - old_value)
}

/// Validates an exact commitment size.
pub fn validate_commitment_size(commitment: &[u8], expected_size: usize) -> (r: ZkpResult<()>)
    ensures
        r is Ok <==> commitment@.len() == expected_size,
{
    if commitment.len() != expected_size {
        return Err(ZkpError::InvalidProofFormat("invalid commitment size".to_string()));
    }
    Ok(())
}

/// Validates a minimum proof size.
pub fn validate_proof_size(proof_bytes: &[u8], min_size: usize) -> (r: ZkpResult<()>)
    ensures
        r is Ok <==> proof_bytes@.len() >= min_size,
{
    if proof_bytes.len() < min_size {
        return Err(ZkpError::InvalidProofFormat("proof too small".to_string()));
    }
    Ok(())
}

/// Finds the index of a value in a set, failing when it is absent.
pub fn validate_set_membership(value: u64, set: &[u64]) -> (r: ZkpResult<usize>)
    ensures
        r is Ok <==> set@.contains(value),
        r matches Ok(i) ==> i < set@.len() && set@[i as int] == value,
{
    match find_index(set, value) {
        Some(i) => Ok(i),
        None => Err(ZkpError::InvalidInput(
            "value is not a member of the provided set".to_string(),
        )),
    }
}

/// Overflow-checked addition.
pub fn safe_add(a: u64, b: u64) -> (r: ZkpResult<u64>)
    ensures
        r is Ok <==> a + b <= u64::MAX,
        r matches Ok(s) ==> s == a + b,
{
    match a.checked_add(b) {
        Some(s) => Ok(s),
        None => Err(ZkpError::IntegerOverflow("integer overflow in addition".to_string())),
    }
}

/// Overflow-checked multiplication.
pub fn safe_mul(a: u64, b: u64) -> (r: ZkpResult<u64>)
    ensures
        r is Ok <==> a * b <= u64::MAX,
        r matches Ok(s) ==> s == a * b,
{
    match a.checked_mul(b) {
        Some(s) => Ok(s),
        None => Err(ZkpError::IntegerOverflow("integer overflow in multiplication".to_string())),
    }
}

/// Overflow-checked sum of a value list.
pub fn safe_sum(values: &[u64]) -> (r: ZkpResult<u64>)
    ensures
        r is Ok <==> spec_sum(values@) <= u64::MAX,
        r matches Ok(s) ==> s == spec_sum(values@),
{
    checked_sum(values)
}

} // verus!
