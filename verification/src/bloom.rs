//! The bloom effect's plan: the sizes of its blur chain and the order of
//! its render passes. The GPU work itself is done by the renderer.

use vstd::prelude::*;

verus! {

/// Number of intermediate textures in the blur chain (1/2, 1/4, 1/8).
pub const BLOOM_LEVELS: usize = 3;

/// `x` halved, but at least 1.
pub open spec fn half_at_least_one(x: u32) -> u32 {
    if x / 2 > 0 {
        x / 2
    } else {
        1
    }
}

/// Size of blur level `i` for a `size.0` by `size.1` target: each level
/// halves both sides of the previous one (the target for level 0), never
/// going below 1.
pub open spec fn mip_size(size: (u32, u32), i: nat) -> (u32, u32)
    decreases i,
{
    let prev = if i == 0 {
        size
    } else {
        mip_size(size, (i - 1) as nat)
    };
    (half_at_least_one(prev.0), half_at_least_one(prev.1))
}

/// Sizes of the three blur textures for a `width` by `height` target.
pub fn bloom_mip_sizes(width: u32, height: u32) -> (r: Vec<(u32, u32)>)
    ensures
        r@.len() == BLOOM_LEVELS,
        forall|i: int| 0 <= i < BLOOM_LEVELS ==> #[trigger] r@[i] == mip_size((width, height), i as nat),
{
    let mut sizes: Vec<(u32, u32)> = Vec::new();
    let mut w: u32 = if width / 2 > 0 { width / 2 } else { 1 };
    let mut h: u32 = if height / 2 > 0 { height / 2 } else { 1 };
    let mut i: usize = 0;
    while i < BLOOM_LEVELS
        invariant
            i <= BLOOM_LEVELS,
            sizes@.len() == i,
            (w, h) == mip_size((width, height), i as nat),
            forall|k: int| 0 <= k < i ==> #[trigger] sizes@[k] == mip_size((width, height), k as nat),
        decreases BLOOM_LEVELS - i,
    {
        sizes.push((w, h));
        w = if w / 2 > 0 { w / 2 } else { 1 };
        h = if h / 2 > 0 { h / 2 } else { 1 };
        i = i + 1;
    }
    sizes
}

/// One render pass of the bloom effect.
#[derive(Debug, Clone, Copy, PartialEq, Eq, Structural)]
pub enum BloomPass {
    /// Extract the bright pixels of the input into blur level `target`.
    Threshold { target: usize },
    /// Blur level `source` into the next smaller level `target`.
    Blur { source: usize, target: usize },
    /// Add level `source` back into the next larger level `target`.
    Upsample { source: usize, target: usize },
    /// Add the finished bloom (level 0) to the input, writing the output.
    Combine,
}

/// The passes for a chain of `n` levels: threshold into level 0, blur down
/// the chain (0 into 1, 1 into 2, ...), upsample back up it (from the last
/// level into the one before, down to 1 into 0), then combine. No passes
/// at all without levels.
pub open spec fn bloom_pass_plan(n: nat) -> Seq<BloomPass> {
    if n == 0 {
        Seq::empty()
    } else {
        seq![BloomPass::Threshold { target: 0 }] + Seq::new(
            (n - 1) as nat,
            |i: int| BloomPass::Blur { source: i as usize, target: (i + 1) as usize },
        ) + Seq::new(
            (n - 1) as nat,
            |i: int| BloomPass::Upsample { source: (n - 1 - i) as usize, target: (n - 2 - i) as usize },
        ) + seq![BloomPass::Combine]
    }
}

/// The bloom passes to record, in order, for a chain of `levels` textures.
pub fn bloom_passes(levels: usize) -> (r: Vec<BloomPass>)
    requires
        levels < usize::MAX,
    ensures
        r@ == bloom_pass_plan(levels as nat),
{
    let mut passes: Vec<BloomPass> = Vec::new();
    if levels == 0 {
        proof {
            assert(passes@ =~= bloom_pass_plan(0));
        }
        return passes;
    }
    passes.push(BloomPass::Threshold { target: 0 });
    // Downsample blur chain: level i -> level i + 1.
    let mut i: usize = 0;
    while i < levels - 1
        invariant
            0 < levels < usize::MAX,
            i <= levels - 1,
            passes@ =~= seq![BloomPass::Threshold { target: 0 }] + Seq::new(
                i as nat,
                |k: int| BloomPass::Blur { source: k as usize, target: (k + 1) as usize },
            ),
        decreases levels - 1 - i,
    {
        passes.push(BloomPass::Blur { source: i, target: i + 1 });
        i = i + 1;
    }
    let ghost down = passes@;
    // Upsample chain (additive): level i -> level i - 1, from the smallest.
    let mut j: usize = levels - 1;
    while j > 0
        invariant
            0 < levels < usize::MAX,
            j <= levels - 1,
            passes@ =~= down + Seq::new(
                (levels - 1 - j) as nat,
                |k: int| BloomPass::Upsample {
                    source: (levels - 1 - k) as usize,
                    target: (levels - 2 - k) as usize,
                },
            ),
        decreases j,
    {
        passes.push(BloomPass::Upsample { source: j, target: j - 1 });
        j = j - 1;
    }
    passes.push(BloomPass::Combine);
    proof {
        assert(passes@ =~= bloom_pass_plan(levels as nat));
    }
    passes
}

/// Every blur level is at least 1 by 1 and no larger than the level before
/// it (the target itself for level 0).
pub proof fn law_mip_sizes_shrink(size: (u32, u32), i: nat)
    ensures
        mip_size(size, i).0 >= 1,
        mip_size(size, i).1 >= 1,
        i == 0 ==> mip_size(size, i).0 <= size.0 || size.0 == 0,
        i == 0 ==> mip_size(size, i).1 <= size.1 || size.1 == 0,
        i > 0 ==> mip_size(size, i).0 <= mip_size(size, (i - 1) as nat).0,
        i > 0 ==> mip_size(size, i).1 <= mip_size(size, (i - 1) as nat).1,
    decreases i,
{
    if i > 0 {
        law_mip_sizes_shrink(size, (i - 1) as nat);
    }
}

/// A chain of `n` levels takes `2 * n` passes: a threshold, `n - 1` blurs,
/// `n - 1` upsamples and the final combine.
pub proof fn law_pass_count(n: nat)
    requires
        n > 0,
    ensures
        bloom_pass_plan(n).len() == 2 * n,
        bloom_pass_plan(n)[0] == (BloomPass::Threshold { target: 0 }),
        bloom_pass_plan(n).last() == BloomPass::Combine,
{
}

/// The pass plan walks the chain one level at a time: each blur goes from a
/// level to the next smaller one (0 into 1, 1 into 2, ...), each upsample
/// from a level back into the next larger one, in the order the levels
/// come, and every level named exists.
pub proof fn law_pass_plan_steps(n: nat)
    requires
        0 < n < usize::MAX,
    ensures
        forall|k: int|
            1 <= k < n ==> #[trigger] bloom_pass_plan(n)[k] == (BloomPass::Blur {
                source: (k - 1) as usize,
                target: k as usize,
            }),
        forall|k: int|
            0 <= k < n - 1 ==> #[trigger] bloom_pass_plan(n)[n + k] == (BloomPass::Upsample {
                source: (n - 1 - k) as usize,
                target: (n - 2 - k) as usize,
            }),
        forall|k: int|
            0 < k < 2 * n - 1 ==> match #[trigger] bloom_pass_plan(n)[k] {
                BloomPass::Blur { source, target } => target == source + 1 && target < n,
                BloomPass::Upsample { source, target } => source == target + 1 && source < n,
                _ => false,
            },
{
    let p = bloom_pass_plan(n);
    assert forall|k: int| 0 < k < 2 * n - 1 implies match #[trigger] p[k] {
        BloomPass::Blur { source, target } => target == source + 1 && target < n,
        BloomPass::Upsample { source, target } => source == target + 1 && source < n,
        _ => false,
    } by {
        if k < n {
            assert(p[k] == (BloomPass::Blur { source: (k - 1) as usize, target: k as usize }));
        } else {
            let j = k - n;
            assert(p[k] == (BloomPass::Upsample {
                source: (n - 1 - j) as usize,
                target: (n - 2 - j) as usize,
            }));
        }
    }
}

/// Each blur level halves the one before (the target for level 0): its
/// sides are at least half of the previous sides, rounded down, and at
/// most half rounded up, and never below 1.
pub proof fn law_mip_sizes_halve(size: (u32, u32), i: nat)
    ensures
        ({
            let prev = if i == 0 {
                size
            } else {
                mip_size(size, (i - 1) as nat)
            };
            let cur = mip_size(size, i);
            &&& cur.0 >= 1 && cur.1 >= 1
            &&& 2 * cur.0 <= prev.0 || prev.0 <= 1
            &&& prev.0 <= 2 * cur.0 + 1
            &&& 2 * cur.1 <= prev.1 || prev.1 <= 1
            &&& prev.1 <= 2 * cur.1 + 1
        }),
{
}

} // verus!
