//! The random source that the world draws from.

use crate::catalog::{is_catalog_key, DECOR_KEYS};
use crate::model::Error;
use spacetimedb::rand::rngs::StdRng;
use spacetimedb::rand::seq::{IteratorRandom, SliceRandom};
use spacetimedb::rand::Rng;
use vstd::prelude::*;

verus! {

/// The generator `rand::rngs::StdRng`; nothing is known of its state.
#[verifier::external_type_specification]
#[verifier::external_body]
pub struct ExStdRng(StdRng);

/// `Rng::gen_range` on the half-open range `low..high`: the value drawn lies
/// in that range. The call panics on an empty range, which `requires` excludes.
#[verifier::external_body]
pub(crate) fn draw_in_range(rng: &mut StdRng, low: u32, high: u32) -> (r: u32)
    requires
        low < high,
    ensures
        low <= r < high,
{
    rng.gen_range(low..high)
}

/// `IteratorRandom::choose` over the positions `0..n`: `None` exactly when
/// there is no position, else one of them.
#[verifier::external_body]
pub(crate) fn choose_position(rng: &mut StdRng, n: usize) -> (r: Option<usize>)
    ensures
        r is None <==> n == 0,
        r matches Some(i) ==> i < n,
{
    (0..n).choose(rng)
}

/// `SliceRandom::choose` on a slice of names: `None` exactly when the slice
/// is empty, else one of its elements.
#[verifier::external_body]
pub(crate) fn choose_name(rng: &mut StdRng, names: &[&'static str]) -> (r: Option<&'static str>)
    ensures
        r is None <==> names@.len() == 0,
        r matches Some(s) ==> names@.contains(s),
{
    names.choose(rng).copied()
}

/// What one drawn package must look like: three to five keys, each from
/// the catalog.
pub open spec fn package_drawn(keys: Seq<String>) -> bool {
    &&& 3 <= keys.len() <= 5
    &&& forall|j: int| 0 <= j < keys.len() ==> is_catalog_key(#[trigger] keys[j]@)
}

/// What the packages drawn for a door must look like: one or two packages,
/// each as `package_drawn` says.
pub open spec fn packages_drawn(plan: Seq<Vec<String>>) -> bool {
    &&& 1 <= plan.len() <= 2
    &&& forall|p: int| 0 <= p < plan.len() ==> package_drawn(#[trigger] plan[p]@)
}

/// Turns what the draw from the catalog gave into a key: the name chosen,
/// or `Internal` where the catalog had nothing to choose from.
pub fn key_of_choice(choice: Option<&'static str>) -> (r: Result<String, Error>)
    ensures
        match choice {
            Some(name) => r matches Ok(key) && key@ == name@,
            None => r == Err::<String, Error>(Error::Internal),
        },
{
    match choice {
        Some(name) => Ok(name.to_string()),
        None => Err(Error::Internal),
    }
}

/// Draws one key from the catalog, each entry being as likely as any other.
/// The catalog is not empty, so the draw always yields a key.
pub fn random_decor_key(rng: &mut StdRng) -> (r: Result<String, Error>)
    ensures
        r matches Ok(key) && is_catalog_key(key@),
{
    let choice = choose_name(rng, DECOR_KEYS.as_slice());
    key_of_choice(choice)
}

/// Draws the contents of one package: three to five keys, each drawn from
/// the catalog on its own.
pub fn draw_package(rng: &mut StdRng) -> (keys: Vec<String>)
    ensures
        package_drawn(keys@),
{
    let count: u32 = draw_in_range(rng, 3, 6);
    let mut keys: Vec<String> = Vec::new();
    let mut drawn: u32 = 0;
    while drawn < count
        invariant
            drawn <= count,
            keys@.len() == drawn,
            forall|j: int| 0 <= j < keys@.len() ==> is_catalog_key(#[trigger] keys@[j]@),
        decreases count - drawn,
    {
        match random_decor_key(rng) {
            Ok(key) => {
                keys.push(key);
            },
            Err(_) => {},
        }
        drawn += 1;
    }
    keys
}

/// Draws the packages with which a door is seeded: one or two of them.
pub fn draw_initial_packages(rng: &mut StdRng) -> (plan: Vec<Vec<String>>)
    ensures
        packages_drawn(plan@),
{
    let count: u32 = draw_in_range(rng, 1, 3);
    let mut plan: Vec<Vec<String>> = Vec::new();
    let mut drawn: u32 = 0;
    while drawn < count
        invariant
            drawn <= count,
            plan@.len() == drawn,
            forall|p: int| 0 <= p < plan@.len() ==> package_drawn(#[trigger] plan@[p]@),
        decreases count - drawn,
    {
        let keys = draw_package(rng);
        plan.push(keys);
        drawn += 1;
    }
    plan
}

} // verus!
