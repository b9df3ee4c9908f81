use vstd::prelude::*;
use crate::byteseq::{read_u32_at, u32_at};

verus! {

/// `offsets` lists, in ascending order, exactly the positions `o` that are
/// multiples of `alignment`, leave room for four bytes, and hold `target` as
/// a little-endian 32-bit value.
pub open spec fn is_match_list(data: Seq<u8>, target: u32, alignment: nat, offsets: Seq<usize>) -> bool {
    &&& forall|a: int, b: int| 0 <= a < b < offsets.len() ==> offsets[a] < offsets[b]
    &&& forall|k: int|
        0 <= k < offsets.len() ==> {
            let o = #[trigger] offsets[k] as int;
            &&& o % alignment as int == 0
            &&& o + 4 <= data.len()
            &&& u32_at(data, o) == target
        }
    &&& forall|o: int|
        0 <= o && o % alignment as int == 0 && o + 4 <= data.len() && #[trigger] u32_at(data, o)
            == target ==> offsets.contains(o as usize)
}

/// The positions of `target` in `data`, stepping by `alignment` from 0.
fn scan_u32_bits(data: &[u8], target: u32, alignment: usize) -> (r: Vec<usize>)
    requires
        alignment > 0,
    ensures
        is_match_list(data@, target, alignment as nat, r@),
{
    let mut results: Vec<usize> = Vec::new();
    let mut offset: usize = 0;
    let n = data.len();
    if n < 4 {
        return results;
    }
    while offset <= n - 4
        invariant
            n == data@.len(),
            n >= 4,
            alignment > 0,
            offset % alignment == 0,
            forall|a: int, b: int| 0 <= a < b < results@.len() ==> results@[a] < results@[b],
            forall|k: int| 0 <= k < results@.len() ==> results@[k] < offset,
            forall|k: int|
                0 <= k < results@.len() ==> {
                    let o = #[trigger] results@[k] as int;
                    &&& o % alignment as int == 0
                    &&& o + 4 <= data@.len()
                    &&& u32_at(data@, o) == target
                },
            forall|o: int|
                0 <= o < offset && o % alignment as int == 0 && o + 4 <= data@.len()
                    && #[trigger] u32_at(data@, o) == target ==> results@.contains(o as usize),
        decreases n + alignment - offset,
    {
        let value = read_u32_at(data, offset);
        if value == target {
            let ghost before = results@;
            results.push(offset);
            proof {
                assert forall|o: int|
                    0 <= o < offset && o % alignment as int == 0 && o + 4 <= data@.len()
                        && #[trigger] u32_at(data@, o) == target implies results@.contains(
                    o as usize,
                ) by {
                    assert(before.contains(o as usize));
                    let j = choose|j: int| 0 <= j < before.len() && before[j] == o as usize;
                    assert(results@[j] == o as usize);
                }
                assert(results@[results@.len() - 1] == offset);
            }
        }
        proof {
            assert forall|o: int|
                0 <= o < offset + alignment && o % alignment as int == 0 && o + 4 <= data@.len()
                    && #[trigger] u32_at(data@, o) == target implies results@.contains(
                o as usize,
            ) by {
                if o >= offset {
                    lemma_next_multiple(o, offset as int, alignment as int);
                    assert(results@[results@.len() - 1] == offset);
                }
            }
            vstd::arithmetic::div_mod::lemma_mod_adds(offset as int, alignment as int, alignment as int);
            vstd::arithmetic::div_mod::lemma_mod_self_0(alignment as int);
        }
        if alignment > usize::MAX - offset {
            proof {
                assert forall|o: int|
                    0 <= o && o % alignment as int == 0 && o + 4 <= data@.len()
                        && #[trigger] u32_at(data@, o) == target implies results@.contains(
                    o as usize,
                ) by {}
            }
            return results;
        }
        offset = offset + alignment;
    }
    proof {
        assert forall|o: int|
            0 <= o && o % alignment as int == 0 && o + 4 <= data@.len() && #[trigger] u32_at(data@, o)
                == target implies results@.contains(o as usize) by {}
    }
    results
}

/// Between two consecutive multiples of `a` there is none.
proof fn lemma_next_multiple(o: int, m: int, a: int)
    requires
        a > 0,
        m >= 0,
        o % a == 0,
        m % a == 0,
        m <= o < m + a,
    ensures
        o == m,
{
    vstd::arithmetic::div_mod::lemma_fundamental_div_mod(o, a);
    vstd::arithmetic::div_mod::lemma_fundamental_div_mod(m, a);
    let qo = o / a;
    let qm = m / a;
    assert(o == a * qo);
    assert(m == a * qm);
    assert(a * (qm + 1) == a * qm + a) by (nonlinear_arith);
    assert(a * (qm - 1) == a * qm - a) by (nonlinear_arith);
    if qo > qm {
        assert(a * qo >= a * (qm + 1)) by (nonlinear_arith)
            requires
                qo > qm,
                a > 0,
        ;
    } else if qo < qm {
        assert(a * qo <= a * (qm - 1)) by (nonlinear_arith)
            requires
                qo < qm,
                a > 0,
        ;
    }
}

/// Scalar scan for an `i32`: every aligned offset whose little-endian value
/// equals `target`, ascending.
pub fn scalar_scan_i32(data: &[u8], target: i32, alignment: usize) -> (r: Vec<usize>)
    requires
        alignment > 0,
    ensures
        is_match_list(data@, target as u32, alignment as nat, r@),
{
    scan_u32_bits(data, target as u32, alignment)
}

/// Scalar scan for an `f32` given by its bit pattern: every aligned offset
/// holding exactly those bits, ascending.
pub fn scalar_scan_f32(data: &[u8], target: u32, alignment: usize) -> (r: Vec<usize>)
    requires
        alignment > 0,
    ensures
        is_match_list(data@, target, alignment as nat, r@),
{
    scan_u32_bits(data, target, alignment)
}

/// Scan for an `i32`; same result as the scalar scan.
pub fn scan_i32(data: &[u8], target: i32, alignment: usize) -> (r: Vec<usize>)
    requires
        alignment > 0,
    ensures
        is_match_list(data@, target as u32, alignment as nat, r@),
{
    scalar_scan_i32(data, target, alignment)
}

/// Scan for an `f32` bit pattern; same result as the scalar scan.
pub fn scan_f32(data: &[u8], target: u32, alignment: usize) -> (r: Vec<usize>)
    requires
        alignment > 0,
    ensures
        is_match_list(data@, target, alignment as nat, r@),
{
    scalar_scan_f32(data, target, alignment)
}

} // verus!
