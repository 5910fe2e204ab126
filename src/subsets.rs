use vstd::prelude::*;
use crate::bits::bit_set;

verus! {

/// The squares of `m` below square `i`.
pub open spec fn low_part(m: u64, i: u64) -> u64 {
    if i >= 64 {
        m
    } else {
        m & !(0xffff_ffff_ffff_ffffu64 << i)
    }
}

/// `p` holds no square outside `m`.
pub open spec fn is_subset(p: u64, m: u64) -> bool {
    p & !m == 0
}

/// Masking with `m` leaves a subset of `m`.
pub proof fn lemma_masked_subset(p: u64, m: u64)
    ensures
        is_subset(p & m, m),
{
    assert((p & m) & !m == 0) by (bit_vector);
}

proof fn lemma_low_zero(m: u64, p: u64)
    ensures
        low_part(m, 0) == 0,
        is_subset(p, 0) == (p == 0),
        is_subset(0, m),
{
    assert(m & !(0xffff_ffff_ffff_ffffu64 << 0u64) == 0) by (bit_vector);
    assert((p & !0u64 == 0) == (p == 0)) by (bit_vector);
    assert(0u64 & !m == 0) by (bit_vector);
}

proof fn lemma_low_step(m: u64, i: u64, j: u64, p: u64)
    requires
        i < 64,
        j == i + 1,
    ensures
        !bit_set(m, i) ==> low_part(m, j) == low_part(m, i),
        is_subset(p, low_part(m, i)) ==> is_subset(p, low_part(m, j)),
        bit_set(m, i) && is_subset(p, low_part(m, i)) ==> is_subset(
            p | (1u64 << i),
            low_part(m, j),
        ),
        is_subset(p, low_part(m, j)) && !bit_set(p, i) ==> is_subset(p, low_part(m, i)),
        is_subset(p, low_part(m, j)) && bit_set(p, i) ==> is_subset(
            p & !(1u64 << i),
            low_part(m, i),
        ) && (p & !(1u64 << i)) | (1u64 << i) == p,
{
    let lo_i = m & !(0xffff_ffff_ffff_ffffu64 << i);
    let lo_j = if j >= 64 {
        m
    } else {
        m & !(0xffff_ffff_ffff_ffffu64 << j)
    };
    assert(lo_i == low_part(m, i));
    assert(lo_j == low_part(m, j));
    assert(m & (1u64 << i) == 0 ==> lo_j == lo_i) by (bit_vector)
        requires
            i < 64,
            j == i + 1,
            lo_i == m & !(0xffff_ffff_ffff_ffffu64 << i),
            lo_j == if j >= 64 {
                m
            } else {
                m & !(0xffff_ffff_ffff_ffffu64 << j)
            },
    ;
    assert(p & !lo_i == 0 ==> p & !lo_j == 0) by (bit_vector)
        requires
            i < 64,
            j == i + 1,
            lo_i == m & !(0xffff_ffff_ffff_ffffu64 << i),
            lo_j == if j >= 64 {
                m
            } else {
                m & !(0xffff_ffff_ffff_ffffu64 << j)
            },
    ;
    assert(m & (1u64 << i) != 0 && p & !lo_i == 0 ==> (p | (1u64 << i)) & !lo_j == 0)
        by (bit_vector)
        requires
            i < 64,
            j == i + 1,
            lo_i == m & !(0xffff_ffff_ffff_ffffu64 << i),
            lo_j == if j >= 64 {
                m
            } else {
                m & !(0xffff_ffff_ffff_ffffu64 << j)
            },
    ;
    assert(p & !lo_j == 0 && p & (1u64 << i) == 0 ==> p & !lo_i == 0) by (bit_vector)
        requires
            i < 64,
            j == i + 1,
            lo_i == m & !(0xffff_ffff_ffff_ffffu64 << i),
            lo_j == if j >= 64 {
                m
            } else {
                m & !(0xffff_ffff_ffff_ffffu64 << j)
            },
    ;
    assert(p & !lo_j == 0 && p & (1u64 << i) != 0 ==> (p & !(1u64 << i)) & !lo_i == 0 && (p & !(
    1u64 << i)) | (1u64 << i) == p) by (bit_vector)
        requires
            i < 64,
            j == i + 1,
            lo_i == m & !(0xffff_ffff_ffff_ffffu64 << i),
            lo_j == if j >= 64 {
                m
            } else {
                m & !(0xffff_ffff_ffff_ffffu64 << j)
            },
    ;
}

/// Adding square `i` to subsets of the squares below `i` puts them above
/// all such subsets and keeps their order.
proof fn lemma_add_bit_order(m: u64, i: u64, p: u64, q: u64)
    requires
        i < 64,
        is_subset(p, low_part(m, i)),
        is_subset(q, low_part(m, i)),
    ensures
        q < p | (1u64 << i),
        q < p ==> q | (1u64 << i) < p | (1u64 << i),
{
    let lo = m & !(0xffff_ffff_ffff_ffffu64 << i);
    assert(lo == low_part(m, i));
    assert(p & !lo == 0 && q & !lo == 0 ==> q < p | (1u64 << i) && (q < p ==> q | (1u64 << i) < p
        | (1u64 << i))) by (bit_vector)
        requires
            i < 64,
            lo == m & !(0xffff_ffff_ffff_ffffu64 << i),
    ;
}

/// The number of subsets of the squares of `m` below square `n`: two to the
/// number of those squares.
pub open spec fn subset_count(m: u64, n: nat) -> nat
    decreases n,
{
    if n == 0 {
        1
    } else if bit_set(m, (n - 1) as u64) {
        2 * subset_count(m, (n - 1) as nat)
    } else {
        subset_count(m, (n - 1) as nat)
    }
}

/// The sequence is strictly ascending.
pub open spec fn ascending(s: Seq<u64>) -> bool {
    forall|x: int, y: int| 0 <= x < y < s.len() ==> #[trigger] s[x] < #[trigger] s[y]
}

/// Every blocker configuration over the squares of `input_board`: each
/// subset of it once and nothing else, in ascending order (so 0 first and
/// `input_board` last), two to the number of its squares in all.
pub fn generate_all_possible_configurations(input_board: u64) -> (configurations: Vec<u64>)
    ensures
        forall|k: int|
            0 <= k < configurations@.len() ==> is_subset(#[trigger] configurations@[k], input_board),
        forall|p: u64| is_subset(p, input_board) ==> #[trigger] configurations@.contains(p),
        configurations@.no_duplicates(),
        ascending(configurations@),
        configurations@.len() == subset_count(input_board, 64),
{
    let mut configurations: Vec<u64> = Vec::new();
    configurations.push(0);
    proof {
        lemma_low_zero(input_board, 0);
        assert forall|p: u64| is_subset(p, low_part(input_board, 0)) implies #[trigger] configurations@.contains(p) by {
            lemma_low_zero(input_board, p);
            assert(configurations@[0] == p);
        }
    }
    let mut i: u64 = 0;
    while i < 64
        invariant
            i <= 64,
            forall|k: int|
                0 <= k < configurations@.len() ==> is_subset(
                    #[trigger] configurations@[k],
                    low_part(input_board, i),
                ),
            forall|p: u64|
                is_subset(p, low_part(input_board, i)) ==> #[trigger] configurations@.contains(p),
            ascending(configurations@),
            configurations@.len() == subset_count(input_board, i as nat),
        decreases 64 - i,
    {
        let b: u64 = 1u64 << i;
        let ghost old_configs = configurations@;
        if input_board & b != 0 {
            let n = configurations.len();
            let mut k: usize = 0;
            while k < n
                invariant
                    i < 64,
                    b == 1u64 << i,
                    n == old_configs.len(),
                    k <= n,
                    configurations@.len() == n + k,
                    configurations@.subrange(0, n as int) == old_configs,
                    forall|x: int|
                        0 <= x < k ==> #[trigger] configurations@[n + x] == old_configs[x] | b,
                    forall|x: int|
                        0 <= x < n ==> is_subset(
                            #[trigger] old_configs[x],
                            low_part(input_board, i),
                        ),
                    ascending(old_configs),
                    ascending(configurations@),
                decreases n - k,
            {
                let c = configurations[k] | b;
                proof {
                    assert forall|x: int| 0 <= x < configurations@.len() implies #[trigger] configurations@[x] < c by {
                        if x < n {
                            lemma_add_bit_order(input_board, i, old_configs[k as int], old_configs[x]);
                        } else {
                            assert(configurations@[n + (x - n)] == old_configs[x - n] | b);
                            lemma_add_bit_order(input_board, i, old_configs[k as int], old_configs[x - n]);
                        }
                    }
                }
                let ghost before = configurations@;
                configurations.push(c);
                proof {
                    assert(configurations@.subrange(0, n as int) =~= old_configs);
                    assert forall|x: int, y: int|
                        0 <= x < y < configurations@.len() implies #[trigger] configurations@[x]
                        < #[trigger] configurations@[y] by {
                        if y < before.len() {
                            assert(before[x] < before[y]);
                        } else {
                            assert(before[x] < c);
                        }
                    }
                }
                k = k + 1;
            }
            proof {
                assert forall|x: int|
                    0 <= x < configurations@.len() implies is_subset(
                    #[trigger] configurations@[x],
                    low_part(input_board, (i + 1) as u64),
                ) by {
                    if x < n {
                        assert(configurations@[x] == old_configs[x]);
                        lemma_low_step(input_board, i, (i + 1) as u64, old_configs[x]);
                    } else {
                        assert(configurations@[n + (x - n)] == old_configs[x - n] | b);
                        lemma_low_step(input_board, i, (i + 1) as u64, old_configs[x - n]);
                    }
                }
                assert forall|p: u64|
                    is_subset(p, low_part(input_board, (i + 1) as u64)) implies #[trigger] configurations@.contains(p) by {
                    lemma_low_step(input_board, i, (i + 1) as u64, p);
                    if bit_set(p, i) {
                        let q = p & !b;
                        assert(old_configs.contains(q));
                        let x = choose|x: int| 0 <= x < old_configs.len() && old_configs[x] == q;
                        assert(configurations@[n + x] == old_configs[x] | b);
                    } else {
                        assert(old_configs.contains(p));
                        let x = choose|x: int| 0 <= x < old_configs.len() && old_configs[x] == p;
                        assert(configurations@[x] == old_configs[x]);
                    }
                }
            }
        } else {
            proof {
                assert forall|x: int|
                    0 <= x < configurations@.len() implies is_subset(
                    #[trigger] configurations@[x],
                    low_part(input_board, (i + 1) as u64),
                ) by {
                    lemma_low_step(input_board, i, (i + 1) as u64, configurations@[x]);
                }
                assert forall|p: u64|
                    is_subset(p, low_part(input_board, (i + 1) as u64)) implies #[trigger] configurations@.contains(p) by {
                    lemma_low_step(input_board, i, (i + 1) as u64, p);
                }
            }
        }
        i = i + 1;
    }
    proof {
        assert forall|x: int, y: int|
            0 <= x < configurations@.len() && 0 <= y < configurations@.len() && x != y implies configurations@[x]
            != configurations@[y] by {
            if x < y {
                assert(configurations@[x] < configurations@[y]);
            } else {
                assert(configurations@[y] < configurations@[x]);
            }
        }
    }
    configurations
}

} // verus!
