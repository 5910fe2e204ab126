use vstd::prelude::*;
use crate::bits::{on_board, sq, square_bit, lemma_or_assoc};
use crate::geometry::{
    ray, mask_ray, rook_attacks, bishop_attacks, rook_mask, bishop_mask, knight_attacks,
    king_attacks, pawn_attacks, lemma_rook_relevant, lemma_bishop_relevant,
};
use crate::subsets::{generate_all_possible_configurations, is_subset, lemma_masked_subset};
use crate::position::{BitBoard, generate_start_board, is_start_position};
use rustc_hash::{FxHashMap, FxHasher};
use std::hash::BuildHasherDefault;

verus! {

#[verifier::external_type_specification]
#[verifier::external_body]
#[verifier::reject_recursive_types(H)]
pub struct ExBuildHasherDefault<H>(BuildHasherDefault<H>);

#[verifier::external_type_specification]
#[verifier::external_body]
pub struct ExFxHasher(FxHasher);

/// Reach sets of one square, keyed by the blockers on its relevance mask.
pub type ReachMap = FxHashMap<u64, u64>;

/// Relies on `HashMap::insert` of an `FxHashMap`: the key now maps to the value.
#[verifier::external_body]
fn reach_map_insert(m: &mut ReachMap, k: u64, v: u64)
    ensures
        final(m)@ == old(m)@.insert(k, v),
{
    m.insert(k, v);
}

/// Relies on `HashMap::get` of an `FxHashMap`: the value stored under the key, if any.
#[verifier::external_body]
fn reach_map_get(m: &ReachMap, k: u64) -> (r: Option<u64>)
    ensures
        r == (if m@.contains_key(k) {
            Some(m@[k])
        } else {
            None::<u64>
        }),
{
    m.get(&k).copied()
}

/// The one-square bitboard of (`f`, `r`), or 0 off the board.
fn step_bit(f: i64, r: i64) -> (b: u64)
    requires
        -8 <= f <= 16,
        -8 <= r <= 16,
    ensures
        b == square_bit(f as int, r as int),
{
    if 0 <= f && f < 8 && 0 <= r && r < 8 {
        let t: u64 = (r * 8 + f) as u64;
        1u64 << t
    } else {
        0
    }
}

/// Walks from (`f`, `r`) in direction (`df`, `dr`) up to the first blocker
/// in `occ` or the edge.
fn walk_ray(f: i64, r: i64, df: i64, dr: i64, occ: u64) -> (b: u64)
    requires
        on_board(f as int, r as int),
        -1 <= df <= 1,
        -1 <= dr <= 1,
    ensures
        b == ray(f as int, r as int, df as int, dr as int, occ, 7),
{
    let mut acc: u64 = 0;
    let mut cf = f;
    let mut cr = r;
    let mut n: u64 = 7;
    proof {
        lemma_or_assoc(ray(f as int, r as int, df as int, dr as int, occ, 7), 0, 0);
    }
    while n > 0 && 0 <= cf + df && cf + df < 8 && 0 <= cr + dr && cr + dr < 8
        invariant
            on_board(cf as int, cr as int),
            -1 <= df <= 1,
            -1 <= dr <= 1,
            n <= 7,
            acc | ray(cf as int, cr as int, df as int, dr as int, occ, n as nat) == ray(
                f as int,
                r as int,
                df as int,
                dr as int,
                occ,
                7,
            ),
        decreases n,
    {
        let nf = cf + df;
        let nr = cr + dr;
        let t: u64 = (nr * 8 + nf) as u64;
        let tb: u64 = 1u64 << t;
        let ghost rest = ray(nf as int, nr as int, df as int, dr as int, occ, (n - 1) as nat);
        assert(t == sq(nf as int, nr as int));
        proof {
            lemma_or_assoc(acc, tb, rest);
            lemma_or_assoc(acc | tb, 0, 0);
        }
        acc = acc | tb;
        if occ & tb != 0 {
            n = 0;
        } else {
            cf = nf;
            cr = nr;
            n = n - 1;
        }
    }
    proof {
        lemma_or_assoc(acc, 0, 0);
    }
    acc
}

/// The relevance mask of one ray from (`f`, `r`) in direction (`df`, `dr`).
fn walk_mask(f: i64, r: i64, df: i64, dr: i64) -> (b: u64)
    requires
        on_board(f as int, r as int),
        -1 <= df <= 1,
        -1 <= dr <= 1,
    ensures
        b == mask_ray(f as int, r as int, df as int, dr as int, 7),
{
    let mut acc: u64 = 0;
    let mut cf = f;
    let mut cr = r;
    let mut n: u64 = 7;
    proof {
        lemma_or_assoc(mask_ray(f as int, r as int, df as int, dr as int, 7), 0, 0);
    }
    while n > 0 && 0 <= cf + 2 * df && cf + 2 * df < 8 && 0 <= cr + 2 * dr && cr + 2 * dr < 8
        invariant
            on_board(cf as int, cr as int),
            -1 <= df <= 1,
            -1 <= dr <= 1,
            n <= 7,
            acc | mask_ray(cf as int, cr as int, df as int, dr as int, n as nat) == mask_ray(
                f as int,
                r as int,
                df as int,
                dr as int,
                7,
            ),
        decreases n,
    {
        let nf = cf + df;
        let nr = cr + dr;
        let t: u64 = (nr * 8 + nf) as u64;
        let tb: u64 = 1u64 << t;
        proof {
            lemma_or_assoc(
                acc,
                tb,
                mask_ray(nf as int, nr as int, df as int, dr as int, (n - 1) as nat),
            );
        }
        acc = acc | tb;
        cf = nf;
        cr = nr;
        n = n - 1;
    }
    proof {
        lemma_or_assoc(acc, 0, 0);
    }
    acc
}

/// The precomputed attack tables, built once and then only read.
pub struct Constants {
    pub start_board: BitBoard,
    /// Rook relevance mask per square.
    pub row_and_column_mask: Vec<u64>,
    /// Bishop relevance mask per square.
    pub diagonal_mask: Vec<u64>,
    /// Pawn attacks per color (White first) and square.
    pub pawn_reach: Vec<Vec<u64>>,
    /// Rook reach per square, keyed by the blockers on its relevance mask.
    pub rook_reach: Vec<ReachMap>,
    pub knight_reach: Vec<u64>,
    /// Bishop reach per square, keyed by the blockers on its relevance mask.
    pub bishop_reach: Vec<ReachMap>,
    pub king_reach: Vec<u64>,
}

impl Constants {
    /// Every table holds exactly what board geometry gives.
    pub open spec fn wf(&self) -> bool {
        &&& is_start_position(self.start_board@)
        &&& self.row_and_column_mask@.len() == 64
        &&& self.diagonal_mask@.len() == 64
        &&& self.pawn_reach@.len() == 2
        &&& self.pawn_reach@[0]@.len() == 64
        &&& self.pawn_reach@[1]@.len() == 64
        &&& self.rook_reach@.len() == 64
        &&& self.knight_reach@.len() == 64
        &&& self.bishop_reach@.len() == 64
        &&& self.king_reach@.len() == 64
        &&& forall|s: int|
            0 <= s < 64 ==> #[trigger] self.row_and_column_mask@[s] == rook_mask(s as u64)
        &&& forall|s: int| 0 <= s < 64 ==> #[trigger] self.diagonal_mask@[s] == bishop_mask(s as u64)
        &&& forall|s: int|
            0 <= s < 64 ==> #[trigger] self.pawn_reach@[0]@[s] == pawn_attacks(1, s as u64)
        &&& forall|s: int|
            0 <= s < 64 ==> #[trigger] self.pawn_reach@[1]@[s] == pawn_attacks(-1, s as u64)
        &&& forall|s: int| 0 <= s < 64 ==> #[trigger] self.knight_reach@[s] == knight_attacks(s as u64)
        &&& forall|s: int| 0 <= s < 64 ==> #[trigger] self.king_reach@[s] == king_attacks(s as u64)
        &&& forall|s: int|
            0 <= s < 64 ==> reach_map_exact(#[trigger] self.rook_reach@[s]@, true, s as u64)
        &&& forall|s: int|
            0 <= s < 64 ==> reach_map_exact(#[trigger] self.bishop_reach@[s]@, false, s as u64)
    }

    /// Builds every table from board geometry.
    pub fn new() -> (r: Constants)
        ensures
            r.wf(),
    {
        let r = Constants {
            start_board: generate_start_board(),
            row_and_column_mask: generate_row_and_column_mask(),
            diagonal_mask: generate_diagonal_mask(),
            pawn_reach: generate_pawn_reach(),
            rook_reach: generate_rook_reach(),
            knight_reach: generate_knight_reach(),
            bishop_reach: generate_bishop_reach(),
            king_reach: generate_king_reach(),
        };
        r
    }

    /// The reach of a rook on `s` over the blockers `occ`, by table lookup.
    pub fn rook_lookup(&self, s: u64, occ: u64) -> (r: u64)
        requires
            self.wf(),
            s < 64,
        ensures
            r == rook_attacks(s, occ),
    {
        let key = occ & self.row_and_column_mask[s as usize];
        proof {
            lemma_masked_subset(occ, rook_mask(s));
            lemma_rook_relevant(s, occ);
            assert(reach_map_exact(self.rook_reach@[s as int]@, true, s));
        }
        match reach_map_get(&self.rook_reach[s as usize], key) {
            Some(v) => v,
            None => rook_reach_from(s, occ),
        }
    }

    /// The reach of a bishop on `s` over the blockers `occ`, by table lookup.
    pub fn bishop_lookup(&self, s: u64, occ: u64) -> (r: u64)
        requires
            self.wf(),
            s < 64,
        ensures
            r == bishop_attacks(s, occ),
    {
        let key = occ & self.diagonal_mask[s as usize];
        proof {
            lemma_masked_subset(occ, bishop_mask(s));
            lemma_bishop_relevant(s, occ);
            assert(reach_map_exact(self.bishop_reach@[s as int]@, false, s));
        }
        match reach_map_get(&self.bishop_reach[s as usize], key) {
            Some(v) => v,
            None => bishop_reach_from(s, occ),
        }
    }
}

/// Building the tables is deterministic: any two well-formed tables (and
/// `Constants::new` only returns such) hold the same values in every entry.
pub proof fn lemma_tables_deterministic(t1: &Constants, t2: &Constants)
    requires
        t1.wf(),
        t2.wf(),
    ensures
        t1.start_board@ == t2.start_board@,
        t1.row_and_column_mask@ == t2.row_and_column_mask@,
        t1.diagonal_mask@ == t2.diagonal_mask@,
        t1.pawn_reach@.len() == t2.pawn_reach@.len(),
        t1.pawn_reach@[0]@ == t2.pawn_reach@[0]@,
        t1.pawn_reach@[1]@ == t2.pawn_reach@[1]@,
        t1.knight_reach@ == t2.knight_reach@,
        t1.king_reach@ == t2.king_reach@,
        t1.rook_reach@.len() == t2.rook_reach@.len(),
        t1.bishop_reach@.len() == t2.bishop_reach@.len(),
        forall|s: int| 0 <= s < 64 ==> #[trigger] t1.rook_reach@[s]@ == t2.rook_reach@[s]@,
        forall|s: int| 0 <= s < 64 ==> #[trigger] t1.bishop_reach@[s]@ == t2.bishop_reach@[s]@,
{
    assert(t1.start_board@ =~= t2.start_board@);
    assert(t1.row_and_column_mask@ =~= t2.row_and_column_mask@);
    assert(t1.diagonal_mask@ =~= t2.diagonal_mask@);
    assert(t1.pawn_reach@[0]@ =~= t2.pawn_reach@[0]@);
    assert(t1.pawn_reach@[1]@ =~= t2.pawn_reach@[1]@);
    assert(t1.knight_reach@ =~= t2.knight_reach@);
    assert(t1.king_reach@ =~= t2.king_reach@);
    assert forall|s: int| 0 <= s < 64 implies #[trigger] t1.rook_reach@[s]@ == t2.rook_reach@[s]@ by {
        let m1 = t1.rook_reach@[s]@;
        let m2 = t2.rook_reach@[s]@;
        assert(reach_map_exact(m1, true, s as u64));
        assert(reach_map_exact(m2, true, s as u64));
        assert forall|p: u64| #[trigger] m1.contains_key(p) == m2.contains_key(p) by {}
        assert forall|p: u64| m1.contains_key(p) implies #[trigger] m1[p] == m2[p] by {}
        assert(m1 =~= m2);
    }
    assert forall|s: int| 0 <= s < 64 implies #[trigger] t1.bishop_reach@[s]@ == t2.bishop_reach@[s]@ by {
        let m1 = t1.bishop_reach@[s]@;
        let m2 = t2.bishop_reach@[s]@;
        assert(reach_map_exact(m1, false, s as u64));
        assert(reach_map_exact(m2, false, s as u64));
        assert forall|p: u64| #[trigger] m1.contains_key(p) == m2.contains_key(p) by {}
        assert forall|p: u64| m1.contains_key(p) implies #[trigger] m1[p] == m2[p] by {}
        assert(m1 =~= m2);
    }
}

/// The reach of a rook on `s` over the blockers `occ`, by walking its rays.
pub fn rook_reach_from(s: u64, occ: u64) -> (b: u64)
    requires
        s < 64,
    ensures
        b == rook_attacks(s, occ),
{
    let f = (s % 8) as i64;
    let r = (s / 8) as i64;
    walk_ray(f, r, 0, 1, occ) | walk_ray(f, r, 0, -1, occ) | walk_ray(f, r, -1, 0, occ) | walk_ray(
        f,
        r,
        1,
        0,
        occ,
    )
}

/// The reach of a bishop on `s` over the blockers `occ`, by walking its rays.
pub fn bishop_reach_from(s: u64, occ: u64) -> (b: u64)
    requires
        s < 64,
    ensures
        b == bishop_attacks(s, occ),
{
    let f = (s % 8) as i64;
    let r = (s / 8) as i64;
    walk_ray(f, r, 1, 1, occ) | walk_ray(f, r, 1, -1, occ) | walk_ray(f, r, -1, -1, occ)
        | walk_ray(f, r, -1, 1, occ)
}

fn rook_mask_at(s: u64) -> (b: u64)
    requires
        s < 64,
    ensures
        b == rook_mask(s),
{
    let f = (s % 8) as i64;
    let r = (s / 8) as i64;
    walk_mask(f, r, 0, 1) | walk_mask(f, r, 0, -1) | walk_mask(f, r, -1, 0) | walk_mask(f, r, 1, 0)
}

fn bishop_mask_at(s: u64) -> (b: u64)
    requires
        s < 64,
    ensures
        b == bishop_mask(s),
{
    let f = (s % 8) as i64;
    let r = (s / 8) as i64;
    walk_mask(f, r, 1, 1) | walk_mask(f, r, 1, -1) | walk_mask(f, r, -1, -1) | walk_mask(
        f,
        r,
        -1,
        1,
    )
}

fn knight_reach_at(s: u64) -> (b: u64)
    requires
        s < 64,
    ensures
        b == knight_attacks(s),
{
    let f = (s % 8) as i64;
    let r = (s / 8) as i64;
    step_bit(f + 1, r + 2) | step_bit(f + 2, r + 1) | step_bit(f + 2, r - 1) | step_bit(f + 1, r - 2)
        | step_bit(f - 1, r - 2) | step_bit(f - 2, r - 1) | step_bit(f - 2, r + 1) | step_bit(
        f - 1,
        r + 2,
    )
}

fn king_reach_at(s: u64) -> (b: u64)
    requires
        s < 64,
    ensures
        b == king_attacks(s),
{
    let f = (s % 8) as i64;
    let r = (s / 8) as i64;
    step_bit(f + 1, r + 1) | step_bit(f + 1, r) | step_bit(f + 1, r - 1) | step_bit(f, r - 1)
        | step_bit(f - 1, r - 1) | step_bit(f - 1, r) | step_bit(f - 1, r + 1) | step_bit(f, r + 1)
}

fn pawn_reach_at(dir: i64, s: u64) -> (b: u64)
    requires
        s < 64,
        dir == 1 || dir == -1,
    ensures
        b == pawn_attacks(dir as int, s),
{
    let f = (s % 8) as i64;
    let r = (s / 8) as i64;
    step_bit(f + 1, r + dir) | step_bit(f - 1, r + dir)
}

/// Per square, the relevance mask of a rook: its rank and file without the
/// edge squares at the ends of its rays.
pub fn generate_row_and_column_mask() -> (masks: Vec<u64>)
    ensures
        masks@.len() == 64,
        forall|s: int| 0 <= s < 64 ==> #[trigger] masks@[s] == rook_mask(s as u64),
{
    let mut masks: Vec<u64> = Vec::new();
    let mut s: u64 = 0;
    while s < 64
        invariant
            s <= 64,
            masks@.len() == s,
            forall|k: int| 0 <= k < s ==> #[trigger] masks@[k] == rook_mask(k as u64),
        decreases 64 - s,
    {
        masks.push(rook_mask_at(s));
        s = s + 1;
    }
    masks
}

/// Per square, the relevance mask of a bishop: its diagonals without the
/// edge squares at their ends.
pub fn generate_diagonal_mask() -> (masks: Vec<u64>)
    ensures
        masks@.len() == 64,
        forall|s: int| 0 <= s < 64 ==> #[trigger] masks@[s] == bishop_mask(s as u64),
{
    let mut masks: Vec<u64> = Vec::new();
    let mut s: u64 = 0;
    while s < 64
        invariant
            s <= 64,
            masks@.len() == s,
            forall|k: int| 0 <= k < s ==> #[trigger] masks@[k] == bishop_mask(k as u64),
        decreases 64 - s,
    {
        masks.push(bishop_mask_at(s));
        s = s + 1;
    }
    masks
}

/// Per square, the squares a knight reaches.
pub fn generate_knight_reach() -> (reach: Vec<u64>)
    ensures
        reach@.len() == 64,
        forall|s: int| 0 <= s < 64 ==> #[trigger] reach@[s] == knight_attacks(s as u64),
{
    let mut reach: Vec<u64> = Vec::new();
    let mut s: u64 = 0;
    while s < 64
        invariant
            s <= 64,
            reach@.len() == s,
            forall|k: int| 0 <= k < s ==> #[trigger] reach@[k] == knight_attacks(k as u64),
        decreases 64 - s,
    {
        reach.push(knight_reach_at(s));
        s = s + 1;
    }
    reach
}

/// Per square, the squares a king reaches.
pub fn generate_king_reach() -> (reach: Vec<u64>)
    ensures
        reach@.len() == 64,
        forall|s: int| 0 <= s < 64 ==> #[trigger] reach@[s] == king_attacks(s as u64),
{
    let mut reach: Vec<u64> = Vec::new();
    let mut s: u64 = 0;
    while s < 64
        invariant
            s <= 64,
            reach@.len() == s,
            forall|k: int| 0 <= k < s ==> #[trigger] reach@[k] == king_attacks(k as u64),
        decreases 64 - s,
    {
        reach.push(king_reach_at(s));
        s = s + 1;
    }
    reach
}

fn pawn_reach_for(dir: i64) -> (reach: Vec<u64>)
    requires
        dir == 1 || dir == -1,
    ensures
        reach@.len() == 64,
        forall|s: int| 0 <= s < 64 ==> #[trigger] reach@[s] == pawn_attacks(dir as int, s as u64),
{
    let mut reach: Vec<u64> = Vec::new();
    let mut s: u64 = 0;
    while s < 64
        invariant
            s <= 64,
            dir == 1 || dir == -1,
            reach@.len() == s,
            forall|k: int| 0 <= k < s ==> #[trigger] reach@[k] == pawn_attacks(dir as int, k as u64),
        decreases 64 - s,
    {
        reach.push(pawn_reach_at(dir, s));
        s = s + 1;
    }
    reach
}

/// Per color (White first) and square, the squares a pawn attacks.
pub fn generate_pawn_reach() -> (reach: Vec<Vec<u64>>)
    ensures
        reach@.len() == 2,
        reach@[0]@.len() == 64,
        reach@[1]@.len() == 64,
        forall|s: int| 0 <= s < 64 ==> #[trigger] reach@[0]@[s] == pawn_attacks(1, s as u64),
        forall|s: int| 0 <= s < 64 ==> #[trigger] reach@[1]@[s] == pawn_attacks(-1, s as u64),
{
    let mut reach: Vec<Vec<u64>> = Vec::new();
    reach.push(pawn_reach_for(1));
    reach.push(pawn_reach_for(-1));
    reach
}

/// The reach of a slider (a rook when `rook`, else a bishop) on `s`.
pub open spec fn slider_attacks(rook: bool, s: u64, occ: u64) -> u64 {
    if rook {
        rook_attacks(s, occ)
    } else {
        bishop_attacks(s, occ)
    }
}

pub open spec fn slider_mask(rook: bool, s: u64) -> u64 {
    if rook {
        rook_mask(s)
    } else {
        bishop_mask(s)
    }
}

/// The map of one square: keyed by exactly the subsets of the relevance
/// mask, each mapped to the reach over those blockers.
pub open spec fn reach_map_exact(m: Map<u64, u64>, rook: bool, s: u64) -> bool {
    &&& forall|p: u64| #[trigger] m.contains_key(p) <==> is_subset(p, slider_mask(rook, s))
    &&& forall|p: u64| #[trigger] m.contains_key(p) ==> m[p] == slider_attacks(rook, s, p)
}

fn slider_map(rook: bool, s: u64) -> (m: ReachMap)
    requires
        s < 64,
    ensures
        reach_map_exact(m@, rook, s),
{
    let mask = if rook {
        rook_mask_at(s)
    } else {
        bishop_mask_at(s)
    };
    let configurations = generate_all_possible_configurations(mask);
    let mut m = ReachMap::default();
    let mut k: usize = 0;
    while k < configurations.len()
        invariant
            s < 64,
            mask == slider_mask(rook, s),
            k <= configurations@.len(),
            forall|j: int|
                0 <= j < configurations@.len() ==> is_subset(#[trigger] configurations@[j], mask),
            forall|p: u64| is_subset(p, mask) ==> #[trigger] configurations@.contains(p),
            forall|p: u64| #[trigger]
                m@.contains_key(p) ==> is_subset(p, mask) && m@[p] == slider_attacks(rook, s, p),
            forall|j: int| 0 <= j < k ==> m@.contains_key(#[trigger] configurations@[j]),
        decreases configurations@.len() - k,
    {
        let p = configurations[k];
        let reach = if rook {
            rook_reach_from(s, p)
        } else {
            bishop_reach_from(s, p)
        };
        reach_map_insert(&mut m, p, reach);
        k = k + 1;
    }
    proof {
        assert forall|p: u64| is_subset(p, mask) implies #[trigger] m@.contains_key(p) by {
            assert(configurations@.contains(p));
            let j = choose|j: int| 0 <= j < configurations@.len() && configurations@[j] == p;
            assert(m@.contains_key(configurations@[j]));
        }
    }
    m
}

fn generate_slider_reach(rook: bool) -> (reach: Vec<ReachMap>)
    ensures
        reach@.len() == 64,
        forall|s: int| 0 <= s < 64 ==> reach_map_exact(#[trigger] reach@[s]@, rook, s as u64),
{
    let mut reach: Vec<ReachMap> = Vec::new();
    let mut s: u64 = 0;
    while s < 64
        invariant
            s <= 64,
            reach@.len() == s,
            forall|k: int| 0 <= k < s ==> reach_map_exact(#[trigger] reach@[k]@, rook, k as u64),
        decreases 64 - s,
    {
        reach.push(slider_map(rook, s));
        s = s + 1;
    }
    reach
}

/// Per square, the reach of a rook for every blocker configuration on its
/// relevance mask.
pub fn generate_rook_reach() -> (reach: Vec<ReachMap>)
    ensures
        reach@.len() == 64,
        forall|s: int| 0 <= s < 64 ==> reach_map_exact(#[trigger] reach@[s]@, true, s as u64),
{
    generate_slider_reach(true)
}

/// Per square, the reach of a bishop for every blocker configuration on its
/// relevance mask.
pub fn generate_bishop_reach() -> (reach: Vec<ReachMap>)
    ensures
        reach@.len() == 64,
        forall|s: int| 0 <= s < 64 ==> reach_map_exact(#[trigger] reach@[s]@, false, s as u64),
{
    generate_slider_reach(false)
}

} // verus!
