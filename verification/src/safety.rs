//! Affordability and solvency guards: a spend is allowed only when it keeps a
//! cash reserve plus a few rounds of running costs.

use vstd::prelude::*;

verus! {

/// Buffer kept when hiring a worker for a net-positive building.
pub const STAFF_RESERVE: i64 = 20;

/// A spend is affordable when the raw resources suffice (`has_enough`) and the money left
/// after the spend (`money + cost_money`, the cost's money entry being
/// negative) still covers `reserve` plus 5 rounds of `drain`.
pub open spec fn spec_affords(has_enough: bool, money: int, cost_money: int, drain: int, reserve: int) -> bool {
    has_enough && money + cost_money >= reserve + drain * 5
}

/// Whether a spend is affordable: no resource goes negative and `reserve` plus
/// five rounds of drain stay buffered.
pub fn affords(has_enough: bool, money: i64, cost_money: i64, drain: i128, reserve: i64) -> (r: bool)
    requires
        i64::MIN <= money + cost_money <= i64::MAX,
    ensures
        r == spec_affords(has_enough, money as int, cost_money as int, drain as int, reserve as int),
{
    if !has_enough {
        return false;
    }
    let after = (money + cost_money) as i128;
    if drain >= 0x1_0000_0000_0000_0000_0000 {
        // five rounds of such a drain exceed any 64-bit treasury
        return false;
    }
    if drain <= -0x1_0000_0000_0000_0000_0000 {
        return true;
    }
    after >= (reserve as i128) + drain * 5
}

/// Income builds only need raw resources + a money floor.
pub fn affords_income_build(has_enough: bool, money: i64, cost_money: i64, floor: i64) -> (r: bool)
    requires
        i64::MIN <= money + cost_money <= i64::MAX,
    ensures
        r == (has_enough && money + cost_money >= floor),
{
    if !has_enough {
        return false;
    }
    money + cost_money >= floor
}

/// Taking on one more salaried unit (`salary`) keeps the net
/// money per round (`net_q`, in quarter-units) non-negative.
pub fn can_afford_upkeep(net_q: i128, salary: i64) -> (r: bool)
    ensures
        r == (net_q - 4 * salary >= 0),
{
    net_q >= 4 * (salary as i128)
}

/// The wood left after a spend of `need` must cover a buffer of 5 rounds of
/// wood upkeep (at least 100) whenever there is any upkeep.
pub open spec fn spec_has_wood_buffer(cost_wood: int, wood: int, upkeep: int) -> bool {
    let need = -cost_wood;
    if need <= 0 {
        true
    } else {
        let buffer = if upkeep > 0 {
            if upkeep * 5 > 100 {
                upkeep * 5
            } else {
                100
            }
        } else {
            0
        };
        wood - need >= buffer
    }
}

/// A spend without wood always keeps the buffer; one with wood keeps it
/// exactly when the wood left covers five rounds of upkeep and at least 100
/// (nothing when there is no upkeep); more wood never loses the buffer.
/// An affordable spend needs the raw resources and leaves the reserve plus
/// five rounds of drain; more money never makes it unaffordable.
pub proof fn lemma_guards(cost_wood: int, wood: int, more_wood: int, upkeep: int, has_enough: bool, money: int, more_money: int, cost_money: int, drain: int, reserve: int)
    requires
        wood <= more_wood,
        money <= more_money,
    ensures
        cost_wood >= 0 ==> spec_has_wood_buffer(cost_wood, wood, upkeep),
        cost_wood < 0 && upkeep > 0 ==> (spec_has_wood_buffer(cost_wood, wood, upkeep) <==> (wood + cost_wood
            >= 5 * upkeep && wood + cost_wood >= 100)),
        cost_wood < 0 && upkeep <= 0 ==> (spec_has_wood_buffer(cost_wood, wood, upkeep) <==> wood + cost_wood
            >= 0),
        spec_has_wood_buffer(cost_wood, wood, upkeep) ==> spec_has_wood_buffer(cost_wood, more_wood, upkeep),
        spec_affords(has_enough, money, cost_money, drain, reserve) <==> (has_enough && money + cost_money
            >= reserve + 5 * drain),
        spec_affords(has_enough, money, cost_money, drain, reserve) ==> spec_affords(
            has_enough,
            more_money,
            cost_money,
            drain,
            reserve,
        ),
{
}

/// Spending the cost's wood (`cost_wood`, negative) doesn't
/// risk a wood death given the current `wood` and per-round wood `upkeep`.
pub fn has_wood_buffer(cost_wood: i64, wood: i64, upkeep: i128) -> (r: bool)
    requires
        cost_wood > i64::MIN,
        i64::MIN <= wood + cost_wood <= i64::MAX,
    ensures
        r == spec_has_wood_buffer(cost_wood as int, wood as int, upkeep as int),
{
    let need = -cost_wood;
    if need <= 0 {
        return true;
    }
    let left = (wood - need) as i128;
    if upkeep <= 0 {
        return left >= 0;
    }
    if upkeep >= 0x1_0000_0000_0000_0000_0000 {
        return false;
    }
    let five = upkeep * 5;
    let buffer: i128 = if five > 100 {
        five
    } else {
        100
    };
    left >= buffer
}

} // verus!
