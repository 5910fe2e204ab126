use vstd::prelude::*;
use crate::bits::{bit_set, on_board, sq, file_of, rank_of, square_bit, lemma_has_or, lemma_has_single, lemma_or_assoc};

verus! {

// Board geometry: rays, relevance masks and single-step reach, all as
// bitboards.

/// The squares a sliding piece on (`f`, `r`) reaches in direction
/// (`df`, `dr`) over the blockers `occ`: every square up to and including
/// the first occupied one, or up to the edge; `n` bounds the number of steps.
pub open spec fn ray(f: int, r: int, df: int, dr: int, occ: u64, n: nat) -> u64
    decreases n,
{
    if n == 0 || !on_board(f + df, r + dr) {
        0
    } else if bit_set(occ, sq(f + df, r + dr)) {
        1u64 << sq(f + df, r + dr)
    } else {
        (1u64 << sq(f + df, r + dr)) | ray(f + df, r + dr, df, dr, occ, (n - 1) as nat)
    }
}

/// The squares along the same ray that can hold a relevant blocker: the ray
/// over an empty board, without its last square on the edge.
pub open spec fn mask_ray(f: int, r: int, df: int, dr: int, n: nat) -> u64
    decreases n,
{
    if n == 0 || !on_board(f + 2 * df, r + 2 * dr) {
        0
    } else {
        (1u64 << sq(f + df, r + dr)) | mask_ray(f + df, r + dr, df, dr, (n - 1) as nat)
    }
}

/// The reach of a rook on `s` over the blockers `occ`.
pub open spec fn rook_attacks(s: u64, occ: u64) -> u64 {
    let f = file_of(s);
    let r = rank_of(s);
    ray(f, r, 0, 1, occ, 7) | ray(f, r, 0, -1, occ, 7) | ray(f, r, -1, 0, occ, 7) | ray(
        f,
        r,
        1,
        0,
        occ,
        7,
    )
}

/// The reach of a bishop on `s` over the blockers `occ`.
pub open spec fn bishop_attacks(s: u64, occ: u64) -> u64 {
    let f = file_of(s);
    let r = rank_of(s);
    ray(f, r, 1, 1, occ, 7) | ray(f, r, 1, -1, occ, 7) | ray(f, r, -1, -1, occ, 7) | ray(
        f,
        r,
        -1,
        1,
        occ,
        7,
    )
}

/// The squares whose occupancy can change the reach of a rook on `s`.
pub open spec fn rook_mask(s: u64) -> u64 {
    let f = file_of(s);
    let r = rank_of(s);
    mask_ray(f, r, 0, 1, 7) | mask_ray(f, r, 0, -1, 7) | mask_ray(f, r, -1, 0, 7) | mask_ray(
        f,
        r,
        1,
        0,
        7,
    )
}

/// The squares whose occupancy can change the reach of a bishop on `s`.
pub open spec fn bishop_mask(s: u64) -> u64 {
    let f = file_of(s);
    let r = rank_of(s);
    mask_ray(f, r, 1, 1, 7) | mask_ray(f, r, 1, -1, 7) | mask_ray(f, r, -1, -1, 7) | mask_ray(
        f,
        r,
        -1,
        1,
        7,
    )
}

/// The squares a knight on `s` reaches.
pub open spec fn knight_attacks(s: u64) -> u64 {
    let f = file_of(s);
    let r = rank_of(s);
    square_bit(f + 1, r + 2) | square_bit(f + 2, r + 1) | square_bit(f + 2, r - 1) | square_bit(
        f + 1,
        r - 2,
    ) | square_bit(f - 1, r - 2) | square_bit(f - 2, r - 1) | square_bit(f - 2, r + 1)
        | square_bit(f - 1, r + 2)
}

/// The squares a king on `s` reaches.
pub open spec fn king_attacks(s: u64) -> u64 {
    let f = file_of(s);
    let r = rank_of(s);
    square_bit(f + 1, r + 1) | square_bit(f + 1, r) | square_bit(f + 1, r - 1) | square_bit(
        f,
        r - 1,
    ) | square_bit(f - 1, r - 1) | square_bit(f - 1, r) | square_bit(f - 1, r + 1) | square_bit(
        f,
        r + 1,
    )
}

/// The squares a pawn on `s` attacks; `dir` is +1 for White and -1 for Black.
pub open spec fn pawn_attacks(dir: int, s: u64) -> u64 {
    let f = file_of(s);
    let r = rank_of(s);
    square_bit(f + 1, r + dir) | square_bit(f - 1, r + dir)
}

/// A ray's reach depends on the blockers only at the squares of its mask.
pub proof fn lemma_ray_relevant(f: int, r: int, df: int, dr: int, occ: u64, occ2: u64, n: nat)
    requires
        on_board(f, r),
        -1 <= df <= 1,
        -1 <= dr <= 1,
        forall|t: u64|
            t < 64 && #[trigger] bit_set(mask_ray(f, r, df, dr, n), t) ==> bit_set(occ, t)
                == bit_set(occ2, t),
    ensures
        ray(f, r, df, dr, occ, n) == ray(f, r, df, dr, occ2, n),
    decreases n,
{
    if n == 0 || !on_board(f + df, r + dr) {
    } else {
        let t = sq(f + df, r + dr);
        if !on_board(f + 2 * df, r + 2 * dr) {
            assert(ray(f + df, r + dr, df, dr, occ, (n - 1) as nat) == 0);
            assert(ray(f + df, r + dr, df, dr, occ2, (n - 1) as nat) == 0);
            lemma_or_assoc(1u64 << t, 0, 0);
        } else {
            let rest = mask_ray(f + df, r + dr, df, dr, (n - 1) as nat);
            assert(mask_ray(f, r, df, dr, n) == (1u64 << t) | rest);
            lemma_has_or(1u64 << t, rest, t);
            lemma_has_single(t, t);
            assert(bit_set(occ, t) == bit_set(occ2, t));
            assert forall|u: u64| u < 64 && #[trigger] bit_set(rest, u) implies bit_set(occ, u)
                == bit_set(occ2, u) by {
                lemma_has_or(1u64 << t, rest, u);
            }
            lemma_ray_relevant(f + df, r + dr, df, dr, occ, occ2, (n - 1) as nat);
        }
    }
}

proof fn lemma_in_union4(m1: u64, m2: u64, m3: u64, m4: u64, t: u64)
    requires
        t < 64,
    ensures
        bit_set(m1 | m2 | m3 | m4, t) == (bit_set(m1, t) || bit_set(m2, t) || bit_set(m3, t)
            || bit_set(m4, t)),
{
    lemma_has_or(m1, m2, t);
    lemma_has_or(m1 | m2, m3, t);
    lemma_has_or(m1 | m2 | m3, m4, t);
}

/// One ray of a slider sees the same blockers through any mask that covers
/// the ray's relevance mask.
proof fn lemma_ray_masked(f: int, r: int, df: int, dr: int, occ: u64, m: u64)
    requires
        on_board(f, r),
        -1 <= df <= 1,
        -1 <= dr <= 1,
        forall|t: u64| t < 64 && #[trigger] bit_set(mask_ray(f, r, df, dr, 7), t) ==> bit_set(m, t),
    ensures
        ray(f, r, df, dr, occ, 7) == ray(f, r, df, dr, occ & m, 7),
{
    assert forall|t: u64|
        t < 64 && #[trigger] bit_set(mask_ray(f, r, df, dr, 7), t) implies bit_set(occ, t)
        == bit_set(occ & m, t) by {
        lemma_has_or(occ, m, t);
    }
    lemma_ray_relevant(f, r, df, dr, occ, occ & m, 7);
}

/// A rook's reach depends only on the blockers inside its relevance mask.
pub proof fn lemma_rook_relevant(s: u64, occ: u64)
    requires
        s < 64,
    ensures
        rook_attacks(s, occ) == rook_attacks(s, occ & rook_mask(s)),
{
    let f = file_of(s);
    let r = rank_of(s);
    let m1 = mask_ray(f, r, 0, 1, 7);
    let m2 = mask_ray(f, r, 0, -1, 7);
    let m3 = mask_ray(f, r, -1, 0, 7);
    let m4 = mask_ray(f, r, 1, 0, 7);
    assert forall|t: u64| t < 64 implies #[trigger] bit_set(rook_mask(s), t) == (bit_set(m1, t)
        || bit_set(m2, t) || bit_set(m3, t) || bit_set(m4, t)) by {
        lemma_in_union4(m1, m2, m3, m4, t);
    }
    lemma_ray_masked(f, r, 0, 1, occ, rook_mask(s));
    lemma_ray_masked(f, r, 0, -1, occ, rook_mask(s));
    lemma_ray_masked(f, r, -1, 0, occ, rook_mask(s));
    lemma_ray_masked(f, r, 1, 0, occ, rook_mask(s));
}

/// A bishop's reach depends only on the blockers inside its relevance mask.
pub proof fn lemma_bishop_relevant(s: u64, occ: u64)
    requires
        s < 64,
    ensures
        bishop_attacks(s, occ) == bishop_attacks(s, occ & bishop_mask(s)),
{
    let f = file_of(s);
    let r = rank_of(s);
    let m1 = mask_ray(f, r, 1, 1, 7);
    let m2 = mask_ray(f, r, 1, -1, 7);
    let m3 = mask_ray(f, r, -1, -1, 7);
    let m4 = mask_ray(f, r, -1, 1, 7);
    assert forall|t: u64| t < 64 implies #[trigger] bit_set(bishop_mask(s), t) == (bit_set(m1, t)
        || bit_set(m2, t) || bit_set(m3, t) || bit_set(m4, t)) by {
        lemma_in_union4(m1, m2, m3, m4, t);
    }
    lemma_ray_masked(f, r, 1, 1, occ, bishop_mask(s));
    lemma_ray_masked(f, r, 1, -1, occ, bishop_mask(s));
    lemma_ray_masked(f, r, -1, -1, occ, bishop_mask(s));
    lemma_ray_masked(f, r, -1, 1, occ, bishop_mask(s));
}

} // verus!
