//! Carving an untyped region down to a target physical address.
//!
//! seL4 places each object retyped from an untyped at the next address that
//! is aligned to the object's size. To make a later retype land exactly at
//! `target`, the memory between the untyped's start and `target` is first
//! used up by untyped children whose sizes are the binary digits of the
//! distance, largest first.

use vstd::prelude::*;
use vstd::arithmetic::power2::{pow2, lemma_pow2_pos, lemma_pow2_unfold, lemma_pow2_adds,
    lemma_pow2_strictly_increases};
use vstd::arithmetic::div_mod::{lemma_mod_multiples_basic, lemma_fundamental_div_mod};
use crate::bits::{floor_log2, is_floor_log2, lemma_floor_log2, ilog2, pow2_usize};
use crate::invocation::{Invocation, ObjectBlueprint};

verus! {

/// The size exponents of the untyped children that use up `remaining`
/// bytes: the largest power of two that fits, then the same for the rest.
pub open spec fn trim_chunks(remaining: nat) -> Seq<nat>
    decreases remaining,
{
    if remaining == 0 {
        Seq::empty()
    } else {
        proof {
            lemma_floor_log2(remaining);
            lemma_pow2_pos(floor_log2(remaining));
        }
        seq![floor_log2(remaining)] + trim_chunks(
            (remaining - pow2(floor_log2(remaining))) as nat,
        )
    }
}

/// The number of bytes that children of the given size exponents take up.
pub open spec fn chunk_total(chunks: Seq<nat>) -> nat
    decreases chunks.len(),
{
    if chunks.len() == 0 {
        0
    } else {
        pow2(chunks[0]) + chunk_total(chunks.drop_first())
    }
}

/// The invocations of one step: make a child of `2^k` bytes in slot `b`,
/// drop the previous child held in slot `a`, and keep the new one in `a`.
pub open spec fn trim_step(ut: usize, a: usize, b: usize, k: nat) -> Seq<Invocation> {
    seq![
        Invocation::Retype {
            untyped: ut,
            blueprint: ObjectBlueprint::Untyped { size_bits: k as usize },
            dest_slot: b,
        },
        Invocation::Delete { slot: a },
        Invocation::Move { dest: a, src: b },
    ]
}

/// The invocations of all steps, one per size exponent, in order.
pub open spec fn trim_plan(ut: usize, a: usize, b: usize, chunks: Seq<nat>) -> Seq<Invocation>
    decreases chunks.len(),
{
    if chunks.len() == 0 {
        Seq::empty()
    } else {
        trim_step(ut, a, b, chunks[0]) + trim_plan(ut, a, b, chunks.drop_first())
    }
}

proof fn lemma_trim_chunks_unfold(r: nat)
    requires
        r > 0,
    ensures
        is_floor_log2(floor_log2(r), r),
        trim_chunks(r).len() > 0,
        trim_chunks(r)[0] == floor_log2(r),
        trim_chunks(r).drop_first() == trim_chunks((r - pow2(floor_log2(r))) as nat),
{
    lemma_floor_log2(r);
    let rest = trim_chunks((r - pow2(floor_log2(r))) as nat);
    assert((seq![floor_log2(r)] + rest).drop_first() =~= rest);
}

/// The children together take up exactly the distance: after trimming, the
/// untyped's next free byte is the target.
pub proof fn lemma_trim_chunks_total(r: nat)
    ensures
        chunk_total(trim_chunks(r)) == r,
    decreases r,
{
    if r > 0 {
        lemma_trim_chunks_unfold(r);
        lemma_pow2_pos(floor_log2(r));
        lemma_trim_chunks_total((r - pow2(floor_log2(r))) as nat);
    }
}

/// Every child of a distance below `2^m` is smaller than `2^m`.
pub proof fn lemma_trim_chunks_bounded(r: nat, m: nat)
    requires
        r < pow2(m),
    ensures
        forall|i: int| 0 <= i < trim_chunks(r).len() ==> trim_chunks(r)[i] < m,
    decreases r,
{
    if r > 0 {
        lemma_trim_chunks_unfold(r);
        let k = floor_log2(r);
        lemma_pow2_pos(k);
        if k >= m {
            if k > m {
                lemma_pow2_strictly_increases(m, k);
            }
        }
        let rest = (r - pow2(k)) as nat;
        lemma_pow2_unfold(k + 1);
        lemma_trim_chunks_bounded(rest, m);
        assert forall|i: int| 0 <= i < trim_chunks(r).len() implies trim_chunks(r)[i] < m by {
            if i > 0 {
                assert(trim_chunks(r)[i] == trim_chunks(r).drop_first()[i - 1]);
            }
        }
    }
}

/// The children's sizes strictly decrease: each size is used at most once.
pub proof fn lemma_trim_chunks_decreasing(r: nat)
    ensures
        forall|i: int, j: int|
            0 <= i < j < trim_chunks(r).len() ==> trim_chunks(r)[i] > trim_chunks(r)[j],
    decreases r,
{
    if r > 0 {
        lemma_trim_chunks_unfold(r);
        let k = floor_log2(r);
        let rest = (r - pow2(k)) as nat;
        lemma_pow2_unfold(k + 1);
        lemma_trim_chunks_bounded(rest, k);
        lemma_trim_chunks_decreasing(rest);
        let s = trim_chunks(r);
        assert forall|i: int, j: int| 0 <= i < j < s.len() implies s[i] > s[j] by {
            assert(s[j] == s.drop_first()[j - 1]);
            if i > 0 {
                assert(s[i] == s.drop_first()[i - 1]);
            }
        }
    }
}

/// Alignment to a power of two carries down to every smaller power of two.
pub proof fn lemma_aligned_to_smaller(base: nat, k: nat, m: nat)
    requires
        k <= m,
        base % pow2(m) == 0,
    ensures
        base % pow2(k) == 0,
{
    lemma_pow2_pos(k);
    lemma_pow2_pos(m);
    lemma_pow2_pos((m - k) as nat);
    lemma_pow2_adds(k, (m - k) as nat);
    lemma_fundamental_div_mod(base as int, pow2(m) as int);
    let q = base as int / pow2(m) as int;
    let f = pow2((m - k) as nat) as int;
    assert(base as int == (q * f) * pow2(k) as int) by (nonlinear_arith)
        requires
            base as int == pow2(m) as int * q + base as int % pow2(m) as int,
            base as int % pow2(m) as int == 0,
            pow2(m) as int == pow2(k) as int * f,
    ;
    lemma_mod_multiples_basic(q * f, pow2(k) as int);
}

proof fn lemma_chunk_total_cons(k: nat, t: Seq<nat>)
    ensures
        chunk_total(seq![k] + t) == pow2(k) + chunk_total(t),
{
    assert((seq![k] + t).drop_first() =~= t);
}

/// When the untyped starts on a `2^m` boundary and the distance is below
/// `2^m`, every child starts on a boundary of its own size. No retype skips
/// bytes to reach an aligned address, so the children cover the distance
/// exactly.
pub proof fn lemma_trim_chunks_aligned(base: nat, r: nat, m: nat)
    requires
        base % pow2(m) == 0,
        r < pow2(m),
    ensures
        forall|i: int|
            0 <= i < trim_chunks(r).len() ==> #[trigger] ((base + chunk_total(
                trim_chunks(r).take(i),
            )) % pow2(trim_chunks(r)[i])) == 0,
    decreases r,
{
    if r > 0 {
        lemma_trim_chunks_unfold(r);
        let s = trim_chunks(r);
        let k = floor_log2(r);
        let rest_r = (r - pow2(k)) as nat;
        let rest = s.drop_first();
        lemma_pow2_pos(k);
        lemma_pow2_unfold(k + 1);
        if k >= m {
            if k > m {
                lemma_pow2_strictly_increases(m, k);
            }
        }
        lemma_aligned_to_smaller(base, k, m);
        let base2 = base + pow2(k);
        assert(base2 % pow2(k) == 0) by {
            vstd::arithmetic::div_mod::lemma_mod_add_multiples_vanish(base as int, pow2(k) as int);
        }
        lemma_trim_chunks_aligned(base2, rest_r, k);
        assert forall|i: int| 0 <= i < s.len() implies #[trigger] ((base + chunk_total(s.take(i)))
            % pow2(s[i])) == 0 by {
            if i == 0 {
                assert(s.take(0) =~= Seq::<nat>::empty());
            } else {
                assert(s.take(i) =~= seq![k] + rest.take(i - 1));
                lemma_chunk_total_cons(k, rest.take(i - 1));
                assert(s[i] == rest[i - 1]);
                assert((base2 + chunk_total(rest.take(i - 1))) % pow2(rest[i - 1]) == 0);
            }
        }
    }
}

/// Each step of a carving plan makes the child in slot `b`, deletes the
/// previous child in slot `a`, and moves the new child from `b` into `a`;
/// the steps follow the size exponents in order.
pub proof fn lemma_trim_plan_steps(ut: usize, a: usize, b: usize, chunks: Seq<nat>)
    ensures
        trim_plan(ut, a, b, chunks).len() == 3 * chunks.len(),
        forall|i: int|
            #![trigger chunks[i]]
            0 <= i < chunks.len() ==> {
                &&& trim_plan(ut, a, b, chunks)[3 * i] == Invocation::Retype {
                    untyped: ut,
                    blueprint: ObjectBlueprint::Untyped { size_bits: chunks[i] as usize },
                    dest_slot: b,
                }
                &&& trim_plan(ut, a, b, chunks)[3 * i + 1] == Invocation::Delete { slot: a }
                &&& trim_plan(ut, a, b, chunks)[3 * i + 2] == Invocation::Move { dest: a, src: b }
            },
    decreases chunks.len(),
{
    if chunks.len() > 0 {
        let rest = chunks.drop_first();
        lemma_trim_plan_steps(ut, a, b, rest);
        let p = trim_plan(ut, a, b, chunks);
        let step = trim_step(ut, a, b, chunks[0]);
        assert(p == step + trim_plan(ut, a, b, rest));
        assert forall|i: int| #![trigger chunks[i]] 0 <= i < chunks.len() implies {
            &&& p[3 * i] == Invocation::Retype {
                untyped: ut,
                blueprint: ObjectBlueprint::Untyped { size_bits: chunks[i] as usize },
                dest_slot: b,
            }
            &&& p[3 * i + 1] == Invocation::Delete { slot: a }
            &&& p[3 * i + 2] == Invocation::Move { dest: a, src: b }
        } by {
            if i > 0 {
                assert(chunks[i] == rest[i - 1]);
                assert(3 * i == 3 + 3 * (i - 1));
            }
        }
    }
}

/// Plans the carving of the untyped in slot `ut`, whose free memory begins
/// at `ut_paddr`, so that its next object begins at `target_paddr`. Slots
/// `free_slot_a` and `free_slot_b` must be empty; afterwards `free_slot_a`
/// holds the last child made.
pub fn trim_untyped(
    ut: usize,
    ut_paddr: usize,
    target_paddr: usize,
    free_slot_a: usize,
    free_slot_b: usize,
) -> (plan: Vec<Invocation>)
    requires
        ut_paddr <= target_paddr,
    ensures
        plan@ == trim_plan(ut, free_slot_a, free_slot_b, trim_chunks((target_paddr - ut_paddr) as nat)),
        ({
            let chunks = trim_chunks((target_paddr - ut_paddr) as nat);
            &&& plan@.len() == 3 * chunks.len()
            &&& forall|i: int|
                #![trigger chunks[i]]
                0 <= i < chunks.len() ==> {
                    &&& plan@[3 * i] == Invocation::Retype {
                        untyped: ut,
                        blueprint: ObjectBlueprint::Untyped { size_bits: chunks[i] as usize },
                        dest_slot: free_slot_b,
                    }
                    &&& plan@[3 * i + 1] == Invocation::Delete { slot: free_slot_a }
                    &&& plan@[3 * i + 2] == Invocation::Move { dest: free_slot_a, src: free_slot_b }
                }
            &&& chunk_total(chunks) == target_paddr - ut_paddr
            &&& forall|i: int, j: int| 0 <= i < j < chunks.len() ==> chunks[i] > chunks[j]
        }),
{
    let mut plan: Vec<Invocation> = Vec::new();
    let mut cur_paddr: usize = ut_paddr;
    let ghost full = trim_plan(ut, free_slot_a, free_slot_b, trim_chunks((target_paddr - ut_paddr) as nat));
    while cur_paddr != target_paddr
        invariant
            ut_paddr <= cur_paddr <= target_paddr,
            plan@ + trim_plan(ut, free_slot_a, free_slot_b, trim_chunks((target_paddr - cur_paddr) as nat)) == full,
        decreases target_paddr - cur_paddr,
    {
        let remaining: usize = target_paddr - cur_paddr;
        let size_bits: u32 = ilog2(remaining);
        let chunk: usize = pow2_usize(size_bits);
        proof {
            let r = remaining as nat;
            lemma_trim_chunks_unfold(r);
            let s = trim_chunks(r);
            let tail = trim_plan(ut, free_slot_a, free_slot_b, s.drop_first());
            assert(trim_plan(ut, free_slot_a, free_slot_b, s)
                == trim_step(ut, free_slot_a, free_slot_b, size_bits as nat) + tail);
            assert(plan@ + trim_step(ut, free_slot_a, free_slot_b, size_bits as nat) + tail
                =~= plan@ + (trim_step(ut, free_slot_a, free_slot_b, size_bits as nat) + tail));
        }
        let ghost before = plan@;
        plan.push(Invocation::Retype {
            untyped: ut,
            blueprint: ObjectBlueprint::Untyped { size_bits: size_bits as usize },
            dest_slot: free_slot_b,
        });
        plan.push(Invocation::Delete { slot: free_slot_a });
        plan.push(Invocation::Move { dest: free_slot_a, src: free_slot_b });
        proof {
            assert(plan@ =~= before + trim_step(ut, free_slot_a, free_slot_b, size_bits as nat));
        }
        cur_paddr = cur_paddr + chunk;
    }
    proof {
        assert(plan@ + Seq::<Invocation>::empty() =~= plan@);
        let d = (target_paddr - ut_paddr) as nat;
        lemma_trim_plan_steps(ut, free_slot_a, free_slot_b, trim_chunks(d));
        lemma_trim_chunks_total(d);
        lemma_trim_chunks_decreasing(d);
    }
    plan
}

} // verus!
