use vstd::prelude::*;
use vstd::set_lib::lemma_int_range;
use vstd::set_lib::set_int_range;

verus! {

/// The requested chance clamped into the percentage range [0, 100]:
/// values below 0 count as 0, values above 100 as 100.
pub open spec fn clamped(chance: int) -> int {
    if chance < 0 {
        0
    } else if chance > 100 {
        100
    } else {
        chance
    }
}

/// The acceptance predicate: a uniform draw from [0, 100) accepts
/// exactly when it falls below the clamped chance.
pub open spec fn accepts(chance: int, draw: int) -> bool {
    draw < clamped(chance)
}

/// Decide acceptance for one draw. Deterministic on its two arguments, so
/// tests can inject the draw; `gate_accepts` supplies a random one.
pub fn decide(chance: i32, draw: i32) -> (accept: bool)
    requires
        0 <= draw < 100,
    ensures
        accept == accepts(chance as int, draw as int),
{
    let lo: i32 = if chance < 0 {
        0
    } else {
        chance
    };
    let cl: i32 = if lo > 100 {
        100
    } else {
        lo
    };
    draw < cl
}

/// Relies on rand::random_range: the result of sampling `0..100` lies in
/// [0, 100), uniformly distributed; the range is non-empty, so it does not
/// panic. Nothing more can be said of a random value.
#[verifier::external_body]
fn random_draw() -> (r: i32)
    ensures
        0 <= r < 100,
{
    rand::random_range(0..100i32)
}

/// Draw once, uniformly from [0, 100), and decide acceptance. The draw is
/// random, so only what holds of every draw is promised: a chance clamping
/// to 0 is certain rejection, one clamping to 100 certain acceptance, and
/// either outcome witnesses a draw for which `accepts` says the same.
pub fn gate_accepts(chance: i32) -> (accept: bool)
    ensures
        exists|draw: int| 0 <= draw < 100 && accept == accepts(chance as int, draw),
        chance <= 0 ==> !accept,
        chance >= 100 ==> accept,
{
    let draw = random_draw();
    let accept = decide(chance, draw);
    proof {
        let d: int = draw as int;
        assert(0 <= d < 100 && accept == accepts(chance as int, d));
    }
    accept
}

/// A chance of zero or below always rejects, whatever the draw.
pub proof fn lemma_low_chance_always_rejects(chance: int, draw: int)
    requires
        chance <= 0,
        0 <= draw < 100,
    ensures
        !accepts(chance, draw),
{
}

/// A chance of a hundred or above always accepts, whatever the draw.
pub proof fn lemma_full_chance_always_accepts(chance: int, draw: int)
    requires
        chance >= 100,
        0 <= draw < 100,
    ensures
        accepts(chance, draw),
{
}

/// Of the 100 equally likely draws, exactly `clamped(chance)` are accepted:
/// under a uniform draw the acceptance frequency is `clamped(chance)` per
/// hundred.
pub proof fn lemma_acceptance_frequency(chance: int)
    ensures
        Set::new(|draw: int| 0 <= draw < 100 && accepts(chance, draw)).finite(),
        Set::new(|draw: int| 0 <= draw < 100 && accepts(chance, draw)).len() == clamped(chance),
{
    let s = Set::new(|draw: int| 0 <= draw < 100 && accepts(chance, draw));
    lemma_int_range(0, clamped(chance));
    assert(s =~= set_int_range(0, clamped(chance)));
}

} // verus!
