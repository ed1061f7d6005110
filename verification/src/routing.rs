//! Which size class serves a request, and which one a returned allocation may join.

use vstd::prelude::*;
use vstd::std_specs::bits::{axiom_u64_leading_zeros, u64_leading_zeros};

verus! {

/// Number of size classes.
pub const NUM_CLASSES: usize = 8;

/// Size class boundaries, from 4 KiB to 64 MiB.
pub const CLASS_SIZES: [usize; 8] = [
    4096,
    16384,
    65536,
    262144,
    1048576,
    4194304,
    16777216,
    67108864,
];

/// Bit width of the smallest boundary.
const MIN_CLASS_BITS: u32 = 12;

/// Classes are two bits apart.
const BITS_PER_STEP: u32 = 2;

/// The boundary of class `i`: the first class holds 4 KiB, each next one four times as much.
pub open spec fn class_boundary(i: int) -> int
    decreases i,
{
    if i <= 0 {
        4096
    } else {
        4 * class_boundary(i - 1)
    }
}

/// The first class, counted from `from`, whose boundary is at least `size`.
pub open spec fn first_fit(size: int, from: int) -> Option<int>
    decreases NUM_CLASSES - from,
{
    if from >= NUM_CLASSES {
        None
    } else if size <= class_boundary(from) {
        Some(from)
    } else {
        first_fit(size, from + 1)
    }
}

/// The class that serves a request of `size` bytes: the smallest one that is large enough.
pub open spec fn class_for_size(size: int) -> Option<int> {
    first_fit(size, 0)
}

/// The last class, counted down from `from`, whose boundary is at most `capacity`.
pub open spec fn last_fit(capacity: int, from: int) -> Option<int>
    decreases from + 1,
{
    if from < 0 {
        None
    } else if class_boundary(from) <= capacity {
        Some(from)
    } else {
        last_fit(capacity, from - 1)
    }
}

/// The class that an allocation of `capacity` bytes may join: the largest one it can serve.
pub open spec fn class_for_capacity(capacity: int) -> Option<int> {
    last_fit(capacity, NUM_CLASSES - 1)
}

/// The boundaries as numbers.
pub proof fn lemma_boundaries()
    ensures
        class_boundary(0) == 4096,
        class_boundary(1) == 16384,
        class_boundary(2) == 65536,
        class_boundary(3) == 262144,
        class_boundary(4) == 1048576,
        class_boundary(5) == 4194304,
        class_boundary(6) == 16777216,
        class_boundary(7) == 67108864,
        forall|i: int| 0 <= i < NUM_CLASSES ==> #[trigger] class_boundary(i) == CLASS_SIZES[i],
{
    reveal_with_fuel(class_boundary, 8);
}

/// The boundaries grow strictly, and every class has one between 4 KiB and 64 MiB.
pub proof fn lemma_boundaries_increase(i: int, j: int)
    requires
        0 <= i < j < NUM_CLASSES,
    ensures
        class_boundary(i) < class_boundary(j),
        4 * class_boundary(i) <= class_boundary(j),
        4096 <= class_boundary(i),
        class_boundary(j) <= 67108864,
{
    lemma_boundaries();
}

/// `first_fit` by its defining property.
proof fn lemma_first_fit(size: int, from: int)
    requires
        0 <= from <= NUM_CLASSES,
    ensures
        match first_fit(size, from) {
            Some(i) => {
                &&& from <= i < NUM_CLASSES
                &&& size <= class_boundary(i)
                &&& forall|j: int| from <= j < i ==> #[trigger] class_boundary(j) < size
            },
            None => forall|j: int| from <= j < NUM_CLASSES ==> #[trigger] class_boundary(j) < size,
        },
    decreases NUM_CLASSES - from,
{
    if from < NUM_CLASSES && size > class_boundary(from) {
        lemma_first_fit(size, from + 1);
    }
}

/// `last_fit` by its defining property.
proof fn lemma_last_fit(capacity: int, from: int)
    requires
        -1 <= from < NUM_CLASSES,
    ensures
        match last_fit(capacity, from) {
            Some(i) => {
                &&& 0 <= i <= from
                &&& class_boundary(i) <= capacity
                &&& forall|j: int| i < j <= from ==> capacity < #[trigger] class_boundary(j)
            },
            None => forall|j: int| 0 <= j <= from ==> capacity < #[trigger] class_boundary(j),
        },
    decreases from + 1,
{
    if from >= 0 && class_boundary(from) > capacity {
        lemma_last_fit(capacity, from - 1);
    }
}

/// A request is served by the smallest class that is large enough, and by none exactly when it
/// exceeds the largest boundary.
pub proof fn lemma_class_for_size(size: int)
    ensures
        match class_for_size(size) {
            Some(i) => {
                &&& 0 <= i < NUM_CLASSES
                &&& size <= class_boundary(i)
                &&& forall|j: int| 0 <= j < i ==> #[trigger] class_boundary(j) < size
            },
            None => size > class_boundary(NUM_CLASSES - 1),
        },
        size <= class_boundary(NUM_CLASSES - 1) ==> class_for_size(size) is Some,
{
    lemma_first_fit(size, 0);
    lemma_boundaries();
    if class_for_size(size) is None {
        assert(class_boundary(NUM_CLASSES - 1) < size);
    }
}

/// An allocation joins the largest class it can serve, and none exactly when it is smaller than
/// the smallest boundary.
pub proof fn lemma_class_for_capacity(capacity: int)
    ensures
        match class_for_capacity(capacity) {
            Some(i) => {
                &&& 0 <= i < NUM_CLASSES
                &&& class_boundary(i) <= capacity
                &&& forall|j: int|
                    i < j < NUM_CLASSES ==> capacity < #[trigger] class_boundary(j)
            },
            None => capacity < class_boundary(0),
        },
        capacity >= class_boundary(0) ==> class_for_capacity(capacity) is Some,
{
    lemma_last_fit(capacity, NUM_CLASSES - 1);
    lemma_boundaries();
    if class_for_capacity(capacity) is None {
        assert(capacity < class_boundary(0));
    }
}

/// Both routes agree on the boundaries: a boundary is served by its own class, and an allocation
/// of exactly a boundary joins that class.
pub proof fn law_boundaries_route_to_their_class(i: int)
    requires
        0 <= i < NUM_CLASSES,
    ensures
        class_for_size(class_boundary(i)) == Some(i),
        class_for_capacity(class_boundary(i)) == Some(i),
{
    lemma_boundaries();
    lemma_class_for_size(class_boundary(i));
    lemma_class_for_capacity(class_boundary(i));
    let s = class_for_size(class_boundary(i))->Some_0;
    let c = class_for_capacity(class_boundary(i))->Some_0;
    if s < i {
        lemma_boundaries_increase(s, i);
    } else if i < s {
        assert(class_boundary(i) < class_boundary(i));
    }
    if i < c {
        lemma_boundaries_increase(i, c);
    } else if c < i {
        assert(class_boundary(i) < class_boundary(i));
    }
}

/// One byte more than a boundary needs the next class, and no class beyond the last.
pub proof fn law_next_byte_needs_the_next_class(i: int)
    requires
        0 <= i < NUM_CLASSES,
    ensures
        class_for_size(class_boundary(i) + 1) == (if i + 1 < NUM_CLASSES {
            Some(i + 1)
        } else {
            None
        }),
{
    lemma_boundaries();
    reveal_with_fuel(first_fit, 9);
}

/// Whatever an allocation joined can serve every request that is routed to its class or a
/// smaller one.
pub proof fn law_stored_allocations_fit_requests(size: int, capacity: int)
    requires
        class_for_size(size) is Some,
        class_for_capacity(capacity) is Some,
        class_for_size(size)->Some_0 <= class_for_capacity(capacity)->Some_0,
    ensures
        size <= capacity,
{
    lemma_class_for_size(size);
    lemma_class_for_capacity(capacity);
    let s = class_for_size(size)->Some_0;
    let c = class_for_capacity(capacity)->Some_0;
    if s < c {
        lemma_boundaries_increase(s, c);
    }
}

/// Rounding a request up to its class never takes four times what was asked for, except below
/// the smallest boundary.
pub proof fn law_rounding_is_bounded(size: int)
    requires
        class_for_size(size) is Some,
    ensures
        ({
            let i = class_for_size(size)->Some_0;
            i > 0 ==> class_boundary(i) < 4 * size
        }),
{
    lemma_class_for_size(size);
    let i = class_for_size(size)->Some_0;
    if i > 0 {
        assert(class_boundary(i - 1) < size);
    }
}

/// Larger requests never go to smaller classes.
pub proof fn law_routing_is_monotonic(small: int, large: int)
    requires
        small <= large,
        class_for_size(large) is Some,
    ensures
        class_for_size(small) is Some,
        class_for_size(small)->Some_0 <= class_for_size(large)->Some_0,
{
    lemma_class_for_size(small);
    lemma_class_for_size(large);
    let l = class_for_size(large)->Some_0;
    if l < NUM_CLASSES - 1 {
        lemma_boundaries_increase(l, NUM_CLASSES - 1);
    }
    let s = class_for_size(small)->Some_0;
    if l < s {
        assert(class_boundary(l) < small);
    }
}

/// The bit width of a number tells between which powers of two it lies.
proof fn lemma_bit_width(x: u64)
    requires
        x != 0,
    ensures
        ({
            let bits = 64 - u64_leading_zeros(x);
            &&& 1 <= bits <= 64
            &&& bits <= 12 <==> x < 0x1000
            &&& bits <= 14 <==> x < 0x4000
            &&& bits <= 16 <==> x < 0x1_0000
            &&& bits <= 18 <==> x < 0x4_0000
            &&& bits <= 20 <==> x < 0x10_0000
            &&& bits <= 22 <==> x < 0x40_0000
            &&& bits <= 24 <==> x < 0x100_0000
            &&& bits <= 26 <==> x < 0x400_0000
        }),
{
    axiom_u64_leading_zeros(x);
    let top: u64 = (63 - u64_leading_zeros(x)) as u64;
    assert((x >> top) & 1 != 0);
    assert(top < 63 ==> x >> ((top + 1) as u64) == 0);
    let next: u64 = (top + 1) as u64;
    assert({
        &&& top < 12 <==> x < 0x1000
        &&& top < 14 <==> x < 0x4000
        &&& top < 16 <==> x < 0x1_0000
        &&& top < 18 <==> x < 0x4_0000
        &&& top < 20 <==> x < 0x10_0000
        &&& top < 22 <==> x < 0x40_0000
        &&& top < 24 <==> x < 0x100_0000
        &&& top < 26 <==> x < 0x400_0000
    }) by (bit_vector)
        requires
            (x >> top) & 1 != 0,
            top <= 63,
            next == top + 1,
            top < 63 ==> x >> next == 0,
    ;
}

/// Maps a requested size to the smallest class that can hold it.
pub fn route_size(size: usize) -> (class: Option<usize>)
    ensures
        match class {
            Some(i) => class_for_size(size as int) == Some(i as int),
            None => class_for_size(size as int) is None,
        },
{
    proof {
        lemma_class_for_size(size as int);
        lemma_boundaries();
        reveal_with_fuel(first_fit, 9);
    }
    if size <= 1 {
        return Some(0);
    }
    let last: u64 = (size - 1) as u64;
    proof {
        lemma_bit_width(last);
    }
    let bits: u32 = 64 - last.leading_zeros();
    if bits <= MIN_CLASS_BITS {
        return Some(0);
    }
    let class: usize = ((bits - MIN_CLASS_BITS + (BITS_PER_STEP - 1)) / BITS_PER_STEP) as usize;
    if class < NUM_CLASSES {
        Some(class)
    } else {
        None
    }
}

/// Maps an allocation's capacity to the largest class it can serve.
pub fn route_capacity(capacity: usize) -> (class: Option<usize>)
    ensures
        match class {
            Some(i) => class_for_capacity(capacity as int) == Some(i as int),
            None => class_for_capacity(capacity as int) is None,
        },
{
    proof {
        lemma_class_for_capacity(capacity as int);
        lemma_boundaries();
        reveal_with_fuel(last_fit, 9);
    }
    if capacity < CLASS_SIZES[0] {
        return None;
    }
    let whole: u64 = capacity as u64;
    proof {
        lemma_bit_width(whole);
    }
    let bits: u32 = 64 - whole.leading_zeros();
    let class: usize = ((bits - 1 - MIN_CLASS_BITS) / BITS_PER_STEP) as usize;
    if class < NUM_CLASSES {
        Some(class)
    } else {
        Some(NUM_CLASSES - 1)
    }
}

} // verus!
