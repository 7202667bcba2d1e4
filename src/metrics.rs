//! Metrics derived from the raw values that the host reports.
use vstd::prelude::*;
use vstd::string::StringExecFns;

verus! {

/// A temperature sensor: its label and its reading in tenths of a degree Celsius.
pub struct Component {
    pub label: String,
    pub temperature: i32,
}

/// The reading of the first sensor labelled `CPU`, if there is one.
pub open spec fn cpu_temperature_of(cs: Seq<Component>) -> Option<i32>
    decreases cs.len(),
{
    if cs.len() == 0 {
        None
    } else if cs[0].label@ == "CPU"@ {
        Some(cs[0].temperature)
    } else {
        cpu_temperature_of(cs.drop_first())
    }
}

/// The CPU temperature: the reading of the first sensor labelled `CPU`, or
/// `None` where no sensor has that label.
pub fn get_cpu_temperature(components: &Vec<Component>) -> (r: Option<i32>)
    ensures
        r == cpu_temperature_of(components@),
{
    let cpu = String::from_str("CPU");
    let mut i: usize = 0;
    assert(components@.skip(0) =~= components@);
    while i < components.len()
        invariant
            0 <= i <= components.len(),
            cpu@ == "CPU"@,
            cpu_temperature_of(components@) == cpu_temperature_of(components@.skip(i as int)),
        decreases components.len() - i,
    {
        let c = &components[i];
        proof {
            let rest = components@.skip(i as int);
            assert(rest.drop_first() =~= components@.skip(i as int + 1));
            assert(rest[0] == *c);
        }
        if c.label == cpu {
            return Some(c.temperature);
        }
        i = i + 1;
    }
    None
}

/// Memory in use as tenths of a percent of the total, rounded down and at
/// most one hundred percent; zero where the total is zero.
pub open spec fn mem_percentage_of(used: nat, total: nat) -> nat {
    if total == 0 {
        0
    } else if used >= total {
        1000
    } else {
        used * 1000 / total
    }
}

proof fn lemma_share_bound(used: int, total: int)
    requires
        0 <= used < total,
    ensures
        used * 1000 / total <= 1000,
{
    assert(used * 1000 < total * 1000) by (nonlinear_arith)
        requires
            0 <= used < total,
    ;
    assert(used * 1000 / total <= 1000) by (nonlinear_arith)
        requires
            0 <= used * 1000 < total * 1000,
            total > 0,
    ;
}

/// The share of memory in use, in tenths of a percent.
pub fn get_mem_percentage(used: u64, total: u64) -> (r: u32)
    ensures
        r == mem_percentage_of(used as nat, total as nat),
        r <= 1000,
{
    if total == 0 {
        0
    } else if used >= total {
        1000
    } else {
        let scaled: u128 = (used as u128) * 1000;
        let p: u128 = scaled / (total as u128);
        proof {
            lemma_share_bound(used as int, total as int);
        }
        p as u32
    }
}

} // verus!
