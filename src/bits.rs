use vstd::prelude::*;

verus! {

// A bitboard is a `u64` whose bit `s` stands for square `s` (file `s % 8`,
// rank `s / 8`).

/// Square `s` is a member of bitboard `b`.
pub open spec fn bit_set(b: u64, s: u64) -> bool {
    b & (1u64 << s) != 0
}

pub open spec fn on_board(f: int, r: int) -> bool {
    0 <= f < 8 && 0 <= r < 8
}

/// The square index of file `f` and rank `r`.
pub open spec fn sq(f: int, r: int) -> u64 {
    (r * 8 + f) as u64
}

pub open spec fn file_of(s: u64) -> int {
    (s % 8) as int
}

pub open spec fn rank_of(s: u64) -> int {
    (s / 8) as int
}

/// The one-square bitboard of (`f`, `r`), or the empty one off the board.
pub open spec fn square_bit(f: int, r: int) -> u64 {
    if on_board(f, r) {
        1u64 << sq(f, r)
    } else {
        0
    }
}

pub proof fn lemma_or_assoc(a: u64, b: u64, c: u64)
    ensures
        a | (b | c) == (a | b) | c,
        a | b == b | a,
        a | 0 == a,
        0 | a == a,
        a | a == a,
{
    assert(a | (b | c) == (a | b) | c && a | b == b | a && a | 0 == a && 0 | a == a && a | a == a)
        by (bit_vector);
}

pub proof fn lemma_has_or(a: u64, b: u64, s: u64)
    requires
        s < 64,
    ensures
        bit_set(a | b, s) == (bit_set(a, s) || bit_set(b, s)),
        bit_set(a & b, s) == (bit_set(a, s) && bit_set(b, s)),
        bit_set(a & !b, s) == (bit_set(a, s) && !bit_set(b, s)),
        !bit_set(0, s),
{
    assert((a | b) & (1u64 << s) != 0 <==> (a & (1u64 << s) != 0 || b & (1u64 << s) != 0))
        by (bit_vector)
        requires
            s < 64,
    ;
    assert((a & b) & (1u64 << s) != 0 <==> (a & (1u64 << s) != 0 && b & (1u64 << s) != 0))
        by (bit_vector)
        requires
            s < 64,
    ;
    assert((a & !b) & (1u64 << s) != 0 <==> (a & (1u64 << s) != 0 && !(b & (1u64 << s) != 0)))
        by (bit_vector)
        requires
            s < 64,
    ;
    assert(0u64 & (1u64 << s) == 0) by (bit_vector);
}

/// Membership in a one-square bitboard.
pub proof fn lemma_has_single(t: u64, s: u64)
    requires
        s < 64,
        t < 64,
    ensures
        bit_set(1u64 << t, s) == (s == t),
        1u64 << t != 0,
{
    assert((1u64 << t) & (1u64 << s) != 0 <==> s == t) by (bit_vector)
        requires
            s < 64,
            t < 64,
    ;
    assert(1u64 << t != 0) by (bit_vector)
        requires
            t < 64,
    ;
}

/// Two bitboards with the same squares are equal.
pub proof fn lemma_bits_ext(a: u64, b: u64)
    requires
        forall|s: u64| s < 64 ==> #[trigger] bit_set(a, s) == bit_set(b, s),
    ensures
        a == b,
{
    assert(bit_set(a, 0u64) == bit_set(b, 0u64));
    assert(bit_set(a, 1u64) == bit_set(b, 1u64));
    assert(bit_set(a, 2u64) == bit_set(b, 2u64));
    assert(bit_set(a, 3u64) == bit_set(b, 3u64));
    assert(bit_set(a, 4u64) == bit_set(b, 4u64));
    assert(bit_set(a, 5u64) == bit_set(b, 5u64));
    assert(bit_set(a, 6u64) == bit_set(b, 6u64));
    assert(bit_set(a, 7u64) == bit_set(b, 7u64));
    assert(bit_set(a, 8u64) == bit_set(b, 8u64));
    assert(bit_set(a, 9u64) == bit_set(b, 9u64));
    assert(bit_set(a, 10u64) == bit_set(b, 10u64));
    assert(bit_set(a, 11u64) == bit_set(b, 11u64));
    assert(bit_set(a, 12u64) == bit_set(b, 12u64));
    assert(bit_set(a, 13u64) == bit_set(b, 13u64));
    assert(bit_set(a, 14u64) == bit_set(b, 14u64));
    assert(bit_set(a, 15u64) == bit_set(b, 15u64));
    assert(bit_set(a, 16u64) == bit_set(b, 16u64));
    assert(bit_set(a, 17u64) == bit_set(b, 17u64));
    assert(bit_set(a, 18u64) == bit_set(b, 18u64));
    assert(bit_set(a, 19u64) == bit_set(b, 19u64));
    assert(bit_set(a, 20u64) == bit_set(b, 20u64));
    assert(bit_set(a, 21u64) == bit_set(b, 21u64));
    assert(bit_set(a, 22u64) == bit_set(b, 22u64));
    assert(bit_set(a, 23u64) == bit_set(b, 23u64));
    assert(bit_set(a, 24u64) == bit_set(b, 24u64));
    assert(bit_set(a, 25u64) == bit_set(b, 25u64));
    assert(bit_set(a, 26u64) == bit_set(b, 26u64));
    assert(bit_set(a, 27u64) == bit_set(b, 27u64));
    assert(bit_set(a, 28u64) == bit_set(b, 28u64));
    assert(bit_set(a, 29u64) == bit_set(b, 29u64));
    assert(bit_set(a, 30u64) == bit_set(b, 30u64));
    assert(bit_set(a, 31u64) == bit_set(b, 31u64));
    assert(bit_set(a, 32u64) == bit_set(b, 32u64));
    assert(bit_set(a, 33u64) == bit_set(b, 33u64));
    assert(bit_set(a, 34u64) == bit_set(b, 34u64));
    assert(bit_set(a, 35u64) == bit_set(b, 35u64));
    assert(bit_set(a, 36u64) == bit_set(b, 36u64));
    assert(bit_set(a, 37u64) == bit_set(b, 37u64));
    assert(bit_set(a, 38u64) == bit_set(b, 38u64));
    assert(bit_set(a, 39u64) == bit_set(b, 39u64));
    assert(bit_set(a, 40u64) == bit_set(b, 40u64));
    assert(bit_set(a, 41u64) == bit_set(b, 41u64));
    assert(bit_set(a, 42u64) == bit_set(b, 42u64));
    assert(bit_set(a, 43u64) == bit_set(b, 43u64));
    assert(bit_set(a, 44u64) == bit_set(b, 44u64));
    assert(bit_set(a, 45u64) == bit_set(b, 45u64));
    assert(bit_set(a, 46u64) == bit_set(b, 46u64));
    assert(bit_set(a, 47u64) == bit_set(b, 47u64));
    assert(bit_set(a, 48u64) == bit_set(b, 48u64));
    assert(bit_set(a, 49u64) == bit_set(b, 49u64));
    assert(bit_set(a, 50u64) == bit_set(b, 50u64));
    assert(bit_set(a, 51u64) == bit_set(b, 51u64));
    assert(bit_set(a, 52u64) == bit_set(b, 52u64));
    assert(bit_set(a, 53u64) == bit_set(b, 53u64));
    assert(bit_set(a, 54u64) == bit_set(b, 54u64));
    assert(bit_set(a, 55u64) == bit_set(b, 55u64));
    assert(bit_set(a, 56u64) == bit_set(b, 56u64));
    assert(bit_set(a, 57u64) == bit_set(b, 57u64));
    assert(bit_set(a, 58u64) == bit_set(b, 58u64));
    assert(bit_set(a, 59u64) == bit_set(b, 59u64));
    assert(bit_set(a, 60u64) == bit_set(b, 60u64));
    assert(bit_set(a, 61u64) == bit_set(b, 61u64));
    assert(bit_set(a, 62u64) == bit_set(b, 62u64));
    assert(bit_set(a, 63u64) == bit_set(b, 63u64));
    assert(a == b) by (bit_vector)
        requires
            bit_set(a, 0u64) == bit_set(b, 0u64),
            bit_set(a, 1u64) == bit_set(b, 1u64),
            bit_set(a, 2u64) == bit_set(b, 2u64),
            bit_set(a, 3u64) == bit_set(b, 3u64),
            bit_set(a, 4u64) == bit_set(b, 4u64),
            bit_set(a, 5u64) == bit_set(b, 5u64),
            bit_set(a, 6u64) == bit_set(b, 6u64),
            bit_set(a, 7u64) == bit_set(b, 7u64),
            bit_set(a, 8u64) == bit_set(b, 8u64),
            bit_set(a, 9u64) == bit_set(b, 9u64),
            bit_set(a, 10u64) == bit_set(b, 10u64),
            bit_set(a, 11u64) == bit_set(b, 11u64),
            bit_set(a, 12u64) == bit_set(b, 12u64),
            bit_set(a, 13u64) == bit_set(b, 13u64),
            bit_set(a, 14u64) == bit_set(b, 14u64),
            bit_set(a, 15u64) == bit_set(b, 15u64),
            bit_set(a, 16u64) == bit_set(b, 16u64),
            bit_set(a, 17u64) == bit_set(b, 17u64),
            bit_set(a, 18u64) == bit_set(b, 18u64),
            bit_set(a, 19u64) == bit_set(b, 19u64),
            bit_set(a, 20u64) == bit_set(b, 20u64),
            bit_set(a, 21u64) == bit_set(b, 21u64),
            bit_set(a, 22u64) == bit_set(b, 22u64),
            bit_set(a, 23u64) == bit_set(b, 23u64),
            bit_set(a, 24u64) == bit_set(b, 24u64),
            bit_set(a, 25u64) == bit_set(b, 25u64),
            bit_set(a, 26u64) == bit_set(b, 26u64),
            bit_set(a, 27u64) == bit_set(b, 27u64),
            bit_set(a, 28u64) == bit_set(b, 28u64),
            bit_set(a, 29u64) == bit_set(b, 29u64),
            bit_set(a, 30u64) == bit_set(b, 30u64),
            bit_set(a, 31u64) == bit_set(b, 31u64),
            bit_set(a, 32u64) == bit_set(b, 32u64),
            bit_set(a, 33u64) == bit_set(b, 33u64),
            bit_set(a, 34u64) == bit_set(b, 34u64),
            bit_set(a, 35u64) == bit_set(b, 35u64),
            bit_set(a, 36u64) == bit_set(b, 36u64),
            bit_set(a, 37u64) == bit_set(b, 37u64),
            bit_set(a, 38u64) == bit_set(b, 38u64),
            bit_set(a, 39u64) == bit_set(b, 39u64),
            bit_set(a, 40u64) == bit_set(b, 40u64),
            bit_set(a, 41u64) == bit_set(b, 41u64),
            bit_set(a, 42u64) == bit_set(b, 42u64),
            bit_set(a, 43u64) == bit_set(b, 43u64),
            bit_set(a, 44u64) == bit_set(b, 44u64),
            bit_set(a, 45u64) == bit_set(b, 45u64),
            bit_set(a, 46u64) == bit_set(b, 46u64),
            bit_set(a, 47u64) == bit_set(b, 47u64),
            bit_set(a, 48u64) == bit_set(b, 48u64),
            bit_set(a, 49u64) == bit_set(b, 49u64),
            bit_set(a, 50u64) == bit_set(b, 50u64),
            bit_set(a, 51u64) == bit_set(b, 51u64),
            bit_set(a, 52u64) == bit_set(b, 52u64),
            bit_set(a, 53u64) == bit_set(b, 53u64),
            bit_set(a, 54u64) == bit_set(b, 54u64),
            bit_set(a, 55u64) == bit_set(b, 55u64),
            bit_set(a, 56u64) == bit_set(b, 56u64),
            bit_set(a, 57u64) == bit_set(b, 57u64),
            bit_set(a, 58u64) == bit_set(b, 58u64),
            bit_set(a, 59u64) == bit_set(b, 59u64),
            bit_set(a, 60u64) == bit_set(b, 60u64),
            bit_set(a, 61u64) == bit_set(b, 61u64),
            bit_set(a, 62u64) == bit_set(b, 62u64),
            bit_set(a, 63u64) == bit_set(b, 63u64),
    ;
}

} // verus!
