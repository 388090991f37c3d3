//! The reference model of one table: a map from the user descriptors in use
//! to the kernel descriptors behind them, and how the replay reads it.

use crate::repro::keys::{key_rank, nth_key};
use crate::vfs::fdtable::{user_floor, FIRST_USER_FD};
use std::collections::BTreeMap;
use vstd::prelude::*;

verus! {

/// The absolute value of `x`, as a natural number.
pub open spec fn magnitude(x: i32) -> nat {
    if x < 0 {
        (-x) as nat
    } else {
        x as nat
    }
}

/// The absolute value of `x`, without overflow at `i32::MIN`.
pub fn unsigned_abs(x: i32) -> (abs: u32)
    ensures
        abs == magnitude(x),
{
    if x >= 0 {
        x as u32
    } else if x == i32::MIN {
        2147483648u32
    } else {
        (-x) as u32
    }
}

/// `vfd` is the lowest descriptor at or above `floor` that is not a key of
/// `model`.
pub open spec fn is_lowest_unused(model: Map<i32, i32>, floor: i32, vfd: i32) -> bool {
    &&& floor <= vfd
    &&& !model.contains_key(vfd)
    &&& forall|u: i32| floor <= u < vfd ==> #[trigger] model.contains_key(u)
}

/// Some descriptor at or above `floor` is not a key of `model`.
pub open spec fn has_unused_from(model: Map<i32, i32>, floor: i32) -> bool {
    exists|u: i32| floor <= u && !#[trigger] model.contains_key(u)
}

/// The lowest descriptor at or above `floor` that is not a key of `model`,
/// where there is one.
pub open spec fn lowest_unused(model: Map<i32, i32>, floor: i32) -> i32 {
    choose|vfd: i32| is_lowest_unused(model, floor, vfd)
}

/// The model and the floor determine the lowest unused descriptor.
pub proof fn lemma_lowest_unused_is_unique(model: Map<i32, i32>, floor: i32, vfd: i32)
    requires
        is_lowest_unused(model, floor, vfd),
    ensures
        lowest_unused(model, floor) == vfd,
        has_unused_from(model, floor),
{
    let chosen = lowest_unused(model, floor);
    assert(is_lowest_unused(model, floor, chosen));
    if chosen < vfd {
        assert(model.contains_key(chosen));
    } else if vfd < chosen {
        assert(model.contains_key(vfd));
    }
}

/// What a lookup of `vfd` in `model` yields.
pub open spec fn model_at(model: Map<i32, i32>, vfd: i32) -> Option<i32> {
    if model.contains_key(vfd) {
        Some(model[vfd])
    } else {
        None
    }
}

/// Scan upwards from `floor` for the first descriptor that is not a key of
/// the model. `None` means that every descriptor from there on is a key.
pub fn first_unused_from(allocated: &BTreeMap<i32, i32>, floor: i32) -> (found: Option<i32>)
    ensures
        match found {
            Some(vfd) => is_lowest_unused(allocated@, floor, vfd),
            None => !has_unused_from(allocated@, floor),
        },
{
    let mut fd: i32 = floor;
    loop
        invariant
            floor <= fd,
            forall|u: i32| floor <= u < fd ==> #[trigger] allocated@.contains_key(u),
        decreases i32::MAX - fd,
    {
        if !allocated.contains_key(&fd) {
            return Some(fd);
        }
        if fd == i32::MAX {
            return None;
        }
        fd = fd + 1;
    }
}

/// The descriptor that the model expects a plain allocation to yield: the
/// lowest one from `FIRST_USER_FD` up that is not in use.
pub fn lowest_available(allocated: &BTreeMap<i32, i32>) -> (vfd: i32)
    requires
        has_unused_from(allocated@, FIRST_USER_FD),
    ensures
        is_lowest_unused(allocated@, FIRST_USER_FD, vfd),
{
    match first_unused_from(allocated, FIRST_USER_FD) {
        Some(vfd) => vfd,
        None => vstd::pervasive::unreached(),
    }
}

/// The descriptor that the model expects an allocation at or above `min_fd`
/// to yield: the lowest one that is not in use, from `min_fd` or from
/// `FIRST_USER_FD`, whichever is higher.
pub fn lowest_available_min(allocated: &BTreeMap<i32, i32>, min_fd: i32) -> (vfd: i32)
    requires
        has_unused_from(allocated@, user_floor(min_fd)),
    ensures
        is_lowest_unused(allocated@, user_floor(min_fd), vfd),
{
    let floor: i32 = if min_fd < FIRST_USER_FD {
        FIRST_USER_FD
    } else {
        min_fd
    };
    match first_unused_from(allocated, floor) {
        Some(vfd) => vfd,
        None => vstd::pervasive::unreached(),
    }
}

/// The key of `model` that has `rank` keys below it, where there is one.
pub open spec fn key_of_rank(model: Map<i32, i32>, rank: nat) -> i32 {
    choose|key: i32| model.contains_key(key) && key_rank(model, key) == rank
}

/// Of two keys of a finite model, the higher one has the higher rank.
pub proof fn lemma_rank_is_increasing(model: Map<i32, i32>, low: i32, high: i32)
    requires
        model.dom().finite(),
        model.contains_key(low),
        low < high,
    ensures
        key_rank(model, low) < key_rank(model, high),
{
    let below_low = model.dom().filter(|other: i32| other < low);
    let below_high = model.dom().filter(|other: i32| other < high);
    assert(below_high.contains(low));
    assert(!below_low.contains(low));
    assert(below_low.insert(low).subset_of(below_high));
    vstd::set_lib::lemma_len_subset(below_high, model.dom());
    vstd::set_lib::lemma_len_subset(below_low, model.dom());
    vstd::set_lib::lemma_len_subset(below_low.insert(low), below_high);
}

/// A key of a finite model is the only key of its rank.
pub proof fn lemma_key_of_rank_is_unique(model: Map<i32, i32>, key: i32)
    requires
        model.dom().finite(),
        model.contains_key(key),
    ensures
        key_of_rank(model, key_rank(model, key)) == key,
{
    let chosen = key_of_rank(model, key_rank(model, key));
    assert(model.contains_key(chosen) && key_rank(model, chosen) == key_rank(model, key));
    if chosen < key {
        lemma_rank_is_increasing(model, chosen, key);
    } else if key < chosen {
        lemma_rank_is_increasing(model, key, chosen);
    }
}

/// The descriptor that the replay aims an operation at. Where the model is
/// not empty and the magnitude of `seed` is a multiple of three, it is one of
/// the model's keys, picked by the seed: the key whose rank is the seed's
/// magnitude modulo the number of keys. Otherwise it is `fallback`, which
/// keeps the paths for unmapped descriptors exercised.
pub open spec fn chosen_existing(model: Map<i32, i32>, seed: i32, fallback: i32) -> i32 {
    if model.dom().len() == 0 || magnitude(seed) % 3 != 0 {
        fallback
    } else {
        key_of_rank(model, magnitude(seed) % model.dom().len())
    }
}

/// Pick the descriptor that an operation is aimed at; see `chosen_existing`.
pub fn choose_existing(model: &BTreeMap<i32, i32>, seed: i32, fallback: i32) -> (vfd: i32)
    ensures
        vfd == chosen_existing(model@, seed, fallback),
        vfd == fallback || model@.contains_key(vfd),
{
    if model.is_empty() {
        return fallback;
    }
    let abs: u32 = unsigned_abs(seed);
    if abs % 3 != 0 {
        return fallback;
    }
    let idx: usize = (abs as usize) % model.len();
    match nth_key(model, idx) {
        Some(key) => {
            proof {
                lemma_key_of_rank_is_unique(model@, key);
            }
            key
        },
        None => vstd::pervasive::unreached(),
    }
}

} // verus!
