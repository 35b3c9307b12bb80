//! Small numeric helpers.
use vstd::prelude::*;

verus! {

/// The values `min`, `min + step`, ... up to and including the last one not above `max`;
/// just `[min]` when `min > max`.
pub fn min_max_range(min: i64, max: i64, step: i64) -> (v: Vec<i64>)
    requires
        step > 0,
    ensures
        v@.len() == if min <= max {
            (max - min) / (step as int) + 1
        } else {
            1
        },
        forall|k: int| 0 <= k < v@.len() ==> #[trigger] v@[k] == min + k * step,
{
    let mut nums: Vec<i64> = vec![min];
    let mut counter: i64 = min;
    loop
        invariant
            step > 0,
            nums@.len() >= 1,
            counter == min + (nums@.len() - 1) * step,
            min <= max ==> counter <= max,
            min > max ==> nums@.len() == 1,
            forall|k: int| 0 <= k < nums@.len() ==> #[trigger] nums@[k] == min + k * step,
        ensures
            nums@.len() >= 1,
            counter == min + (nums@.len() - 1) * step,
            min <= max ==> counter <= max < counter + step,
            min > max ==> nums@.len() == 1,
            forall|k: int| 0 <= k < nums@.len() ==> #[trigger] nums@[k] == min + k * step,
        decreases max - counter,
    {
        let next = match counter.checked_add(step) {
            Some(c) => c,
            None => {
                break;
            },
        };
        if next > max {
            break;
        }
        counter = next;
        nums.push(counter);
        proof {
            assert(counter == min + (nums@.len() - 1) * step) by (nonlinear_arith)
                requires
                    counter == min + (nums@.len() - 2) * step + step,
            ;
        }
    }
    proof {
        if min <= max {
            let n = nums@.len() - 1;
            assert((max - min) / (step as int) == n) by (nonlinear_arith)
                requires
                    n * step <= max - min < n * step + step,
                    step > 0,
            ;
        }
    }
    nums
}

} // verus!
