//! Random picks.
use vstd::prelude::*;
use rand::Rng;

verus! {

/// Relies on rand::random: a `usize` drawn from the thread-local
/// generator; nothing is known of which.
#[verifier::external_body]
pub(crate) fn random_usize() -> (r: usize) {
    rand::random::<usize>()
}

/// Relies on rand::Rng::gen_range on the thread-local generator: a number
/// in `[low, high)`, which it panics on when empty.
#[verifier::external_body]
pub(crate) fn random_in(low: usize, high: usize) -> (r: usize)
    requires
        low < high,
    ensures
        low <= r < high,
{
    rand::thread_rng().gen_range(low, high)
}

/// Relies on rand::Rng::gen on the thread-local generator: a coin flip;
/// nothing is known of which side.
#[verifier::external_body]
pub(crate) fn random_bool() -> (r: bool) {
    rand::thread_rng().gen::<bool>()
}

/// Picks from a slice.
pub trait SliceExt<T> {
    /// The values that can be picked.
    spec fn choices(&self) -> Seq<T>;

    /// One of the values, picked at random.
    fn random(&self) -> (r: T)
        requires
            self.choices().len() > 0,
        ensures
            self.choices().contains(r),
    ;
}

impl<T: Copy> SliceExt<T> for [T] {
    open spec fn choices(&self) -> Seq<T> {
        self@
    }

    fn random(&self) -> (r: T) {
        let i = random_usize() % self.len();
        let r = self[i];
        assert(self@[i as int] == r);
        r
    }
}

} // verus!
