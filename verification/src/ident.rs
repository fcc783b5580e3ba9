//! Request identifiers: a counter that hands out each value once and wraps
//! around at the end of the range.

use vstd::prelude::*;

verus! {

/// The smallest first identifier that [`UniqueCommandId::new`] picks.
pub const FIRST_ID_FROM: i32 = 15;

/// The bound below which [`UniqueCommandId::new`] picks the first identifier.
pub const FIRST_ID_BELOW: i32 = 1500;

/// The identifier after `id`: the next integer, and the smallest one after
/// the largest.
pub open spec fn following(id: i32) -> i32 {
    if id == i32::MAX {
        i32::MIN
    } else {
        (id + 1) as i32
    }
}

/// The identifier that a generator starting at `first` hands out on the call
/// that `count` calls came before.
pub open spec fn issued(first: i32, count: nat) -> i32
    decreases count,
{
    if count == 0 {
        first
    } else {
        following(issued(first, (count - 1) as nat))
    }
}

/// The integer in the range of `i32` that differs from `value` by a multiple
/// of two to the power of 32.
pub open spec fn wrapped(value: int) -> i32 {
    ((value - i32::MIN) % 0x1_0000_0000 + i32::MIN) as i32
}

/// The identifier generator of one connection.
pub struct UniqueCommandId {
    id: i32,
}

impl View for UniqueCommandId {
    type V = i32;

    /// The identifier that the next call hands out.
    closed spec fn view(&self) -> i32 {
        self.id
    }
}

impl UniqueCommandId {
    /// A generator whose first identifier is picked at random, at least
    /// [`FIRST_ID_FROM`] and below [`FIRST_ID_BELOW`].
    pub fn new() -> (generator: UniqueCommandId)
        ensures
            FIRST_ID_FROM <= generator@ < FIRST_ID_BELOW,
    {
        UniqueCommandId { id: random_between(FIRST_ID_FROM, FIRST_ID_BELOW) }
    }

    /// A generator whose first identifier is `first`.
    pub fn starting_at(first: i32) -> (generator: UniqueCommandId)
        ensures
            generator@ == first,
    {
        UniqueCommandId { id: first }
    }

    /// Hands out an identifier and steps to the one after it. It never
    /// fails: behind the largest identifier comes the smallest.
    pub fn next(&mut self) -> (id: i32)
        ensures
            id == old(self)@,
            final(self)@ == following(id),
    {
        let id = self.id;
        self.id = if id == i32::MAX {
            i32::MIN
        } else {
            id + 1
        };
        id
    }
}

/// The identifier of the call that `count` calls came before is the first
/// one plus `count`, wrapped into the range.
pub proof fn lemma_issued_wraps(first: i32, count: nat)
    ensures
        issued(first, count) == wrapped(first + count),
    decreases count,
{
    if count == 0 {
        assert(wrapped(first as int) == first) by {
            vstd::arithmetic::div_mod::lemma_small_mod(
                (first - i32::MIN) as nat,
                0x1_0000_0000,
            );
        }
    } else {
        lemma_issued_wraps(first, (count - 1) as nat);
        let before = first + count - 1 - i32::MIN;
        let modulus = 0x1_0000_0000int;
        vstd::arithmetic::div_mod::lemma_fundamental_div_mod(before, modulus);
        vstd::arithmetic::div_mod::lemma_mod_bound(before, modulus);
        let quotient = before / modulus;
        let remainder = before % modulus;
        if remainder == modulus - 1 {
            assert(before + 1 == modulus * (quotient + 1) + 0) by (nonlinear_arith)
                requires
                    before == modulus * quotient + remainder,
                    remainder == modulus - 1,
            ;
            vstd::arithmetic::div_mod::lemma_fundamental_div_mod_converse(
                before + 1,
                modulus,
                quotient + 1,
                0,
            );
        } else {
            assert(before + 1 == modulus * quotient + (remainder + 1));
            vstd::arithmetic::div_mod::lemma_fundamental_div_mod_converse(
                before + 1,
                modulus,
                quotient,
                remainder + 1,
            );
        }
    }
}

/// Two calls with fewer than two to the power of 32 calls between them get
/// different identifiers: no identifier comes back before the whole range
/// was handed out.
pub proof fn lemma_identifiers_distinct(first: i32, earlier: nat, later: nat)
    requires
        earlier < later < earlier + 0x1_0000_0000,
    ensures
        issued(first, earlier) != issued(first, later),
{
    lemma_issued_wraps(first, earlier);
    lemma_issued_wraps(first, later);
    let modulus = 0x1_0000_0000int;
    let low = first + earlier - i32::MIN;
    let high = first + later - i32::MIN;
    if low % modulus == high % modulus {
        vstd::arithmetic::div_mod::lemma_fundamental_div_mod(low, modulus);
        vstd::arithmetic::div_mod::lemma_fundamental_div_mod(high, modulus);
        let gap = high / modulus - low / modulus;
        assert(high - low == modulus * gap) by (nonlinear_arith)
            requires
                low == modulus * (low / modulus) + low % modulus,
                high == modulus * (high / modulus) + high % modulus,
                low % modulus == high % modulus,
                gap == high / modulus - low / modulus,
        ;
        assert(false) by (nonlinear_arith)
            requires
                high - low == modulus * gap,
                0 < high - low < modulus,
        ;
    }
    vstd::arithmetic::div_mod::lemma_mod_bound(low, modulus);
    vstd::arithmetic::div_mod::lemma_mod_bound(high, modulus);
}

/// Calls `rand::thread_rng` and, on the generator it gives,
/// `rand::Rng::gen_range` with the half-open range from `low` to `high`.
/// The number that comes back is at least `low` and below `high`; which one
/// it is depends on chance. An empty range is left out: on it `gen_range`
/// panics.
#[verifier::external_body]
fn random_between(low: i32, high: i32) -> (number: i32)
    requires
        low < high,
    ensures
        low <= number < high,
{
    rand::Rng::gen_range(&mut rand::thread_rng(), low..high)
}

} // verus!
