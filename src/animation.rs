use vstd::prelude::*;

verus! {

/// The rate of the first step whose seconds `start .. end` hold `t`, or `idle`
/// where none does.
pub open spec fn rate_at<T>(steps: Seq<((i32, i32), T)>, t: int, idle: T) -> T
    decreases steps.len(),
{
    if steps.len() == 0 {
        idle
    } else if steps[0].0.0 <= t < steps[0].0.1 {
        steps[0].1
    } else {
        rate_at(steps.drop_first(), t, idle)
    }
}

/// The rotation rate in force `elapsed_seconds` into an animation that repeats
/// every `total_duration` seconds: the rate of the first step whose interval
/// of seconds (start included, end excluded) holds the time within the
/// current round, or `idle` where no step does.
pub fn rotation_at<T: Copy>(
    steps: &Vec<((i32, i32), T)>,
    elapsed_seconds: u32,
    total_duration: u32,
    idle: T,
) -> (r: T)
    requires
        total_duration > 0,
    ensures
        r == rate_at(steps@, (elapsed_seconds % total_duration) as int, idle),
{
    let t: u32 = elapsed_seconds % total_duration;
    let mut k: usize = 0;
    assert(steps@.skip(0) =~= steps@);
    while k < steps.len()
        invariant
            k <= steps@.len(),
            t == elapsed_seconds % total_duration,
            rate_at(steps@, t as int, idle) == rate_at(steps@.skip(k as int), t as int, idle),
        decreases steps@.len() - k,
    {
        let ((start, end), rate) = steps[k];
        assert(steps@.skip(k as int)[0] == steps@[k as int]);
        assert(steps@.skip(k as int).drop_first() =~= steps@.skip(k + 1));
        if start as i64 <= t as i64 && (t as i64) < end as i64 {
            assert(rate_at(steps@.skip(k as int), t as int, idle) == rate);
            return rate;
        }
        k = k + 1;
    }
    assert(steps@.skip(k as int).len() == 0);
    idle
}

} // verus!
