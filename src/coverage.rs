use vstd::prelude::*;

verus! {

/// The bucket that a raw hit count falls into: 0, 1, 2 and 3 map to
/// 0, 1, 2 and 4; then 4-7 to 8, 8-15 to 16, 16-31 to 32, 32-127 to 64
/// and 128-255 to 128.
pub open spec fn bucket(c: u8) -> u8 {
    if c <= 2 {
        c
    } else if c == 3 {
        4
    } else if c <= 7 {
        8
    } else if c <= 15 {
        16
    } else if c <= 31 {
        32
    } else if c <= 127 {
        64
    } else {
        128
    }
}

/// The bucketed form of a whole coverage map, slot by slot.
pub open spec fn bucketed(m: Seq<u8>) -> Seq<u8> {
    Seq::new(m.len(), |i: int| bucket(m[i]))
}

/// Hit-count bucketing of one counter.
pub fn classify_count(c: u8) -> (r: u8)
    ensures
        r == bucket(c),
{
    if c <= 2 {
        c
    } else if c == 3 {
        4
    } else if c <= 7 {
        8
    } else if c <= 15 {
        16
    } else if c <= 31 {
        32
    } else if c <= 127 {
        64
    } else {
        128
    }
}

/// Applies hit-count bucketing to every slot of a coverage map in place.
pub fn classify_map(map: &mut Vec<u8>)
    ensures
        final(map)@ == bucketed(old(map)@),
{
    let ghost orig = map@;
    let n = map.len();
    let mut i: usize = 0;
    while i < n
        invariant
            n == orig.len(),
            map@.len() == n,
            i <= n,
            forall|j: int| 0 <= j < i ==> map@[j] == bucket(orig[j]),
            forall|j: int| i <= j < n ==> map@[j] == orig[j],
        decreases n - i,
    {
        let b = classify_count(map[i]);
        map.set(i, b);
        i = i + 1;
    }
    assert(map@ =~= bucketed(orig));
}

} // verus!
