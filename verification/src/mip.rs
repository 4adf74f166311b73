//! Mip chains: the extents and sizes of their levels, and which payloads form one.

use vstd::prelude::*;
use vstd::arithmetic::logarithm::{lemma_log0, lemma_log_nonnegative, lemma_log_s, log};
use vstd::arithmetic::power2::{
    lemma2_to64, lemma_pow2_pos, lemma_pow2_strictly_increases, lemma_pow2_unfold, pow2,
};

use crate::format::{blocks_across, law_level_size_grows_with_extent, PixelFormat};

verus! {

/// An image's extent at a mip level: halved once per level, rounded down, and
/// never less than one texel.
pub open spec fn mip_extent(base: nat, level: nat) -> nat {
    if base / pow2(level) == 0 {
        1
    } else {
        base / pow2(level)
    }
}

/// How many levels the full mip chain of an image has.
pub open spec fn chain_limit(width: nat, height: nat) -> nat {
    (log(
        2,
        if width >= height {
            width as int
        } else {
            height as int
        },
    ) + 1) as nat
}

/// Bytes of one level of an image.
pub open spec fn level_bytes(format: PixelFormat, width: nat, height: nat, level: nat) -> nat {
    format.level_size(mip_extent(width, level), mip_extent(height, level))
}

/// Where a level starts when the levels before it are tightly packed.
pub open spec fn level_offset(format: PixelFormat, width: nat, height: nat, level: nat) -> nat
    decreases level,
{
    if level == 0 {
        0
    } else {
        level_offset(format, width, height, (level - 1) as nat) + level_bytes(
            format,
            width,
            height,
            (level - 1) as nat,
        )
    }
}

/// The contents of a list of payloads.
pub open spec fn payloads(levels: Seq<&[u8]>) -> Seq<Seq<u8>> {
    Seq::new(levels.len(), |k: int| levels[k]@)
}

/// Whether an image of this extent can have `count` levels.
pub open spec fn count_fits(width: nat, height: nat, count: nat) -> bool {
    width > 0 && height > 0 && 0 < count <= chain_limit(width, height)
}

/// What is wrong with the payload of one level, if anything.
pub open spec fn level_fault(
    format: PixelFormat,
    width: nat,
    height: nat,
    levels: Seq<Seq<u8>>,
    level: nat,
) -> Option<Seq<char>> {
    let size = level_bytes(format, width, height, level);
    if size > usize::MAX {
        Some("mip size overflow"@)
    } else if levels[level as int].len() != size {
        Some("mip payload size does not match dimensions"@)
    } else {
        None
    }
}

/// The first thing wrong among the payloads of the first `count` levels.
pub open spec fn first_fault(
    format: PixelFormat,
    width: nat,
    height: nat,
    levels: Seq<Seq<u8>>,
    count: nat,
) -> Option<Seq<char>>
    decreases count,
{
    if count == 0 {
        None
    } else {
        match first_fault(format, width, height, levels, (count - 1) as nat) {
            Some(fault) => Some(fault),
            None => level_fault(format, width, height, levels, (count - 1) as nat),
        }
    }
}

/// Why payloads do not form a mip chain of an image of this extent, if they do not.
pub open spec fn chain_fault(
    format: PixelFormat,
    width: nat,
    height: nat,
    levels: Seq<Seq<u8>>,
) -> Option<Seq<char>> {
    if !count_fits(width, height, levels.len()) {
        Some("invalid mip dimensions or count"@)
    } else {
        first_fault(format, width, height, levels, levels.len())
    }
}

/// The integer logarithm to base two, rounded down.
pub(crate) fn floor_log2(n: u32) -> (r: u32)
    requires
        n > 0,
    ensures
        r == log(2, n as int),
        r < 32,
{
    let mut rest: u32 = n;
    let mut count: u32 = 0;
    proof {
        lemma2_to64();
    }
    while rest > 1
        invariant
            n > 0,
            rest > 0,
            rest == n as nat / pow2(count as nat),
            log(2, n as int) == count + log(2, rest as int),
            count < 32,
        decreases rest,
    {
        proof {
            lemma_log_s(2, rest as int);
            lemma_half_of_quotient(n as nat, count as nat);
            lemma_quotient_bound(n as nat, (count + 1) as nat);
        }
        rest = rest / 2;
        count = count + 1;
    }
    proof {
        lemma_log0(2, rest as int);
    }
    count
}

/// The extent of an image at a mip level.
pub(crate) fn level_extent(base: u32, level: u32) -> (r: u32)
    requires
        level < 32,
    ensures
        r == mip_extent(base as nat, level as nat),
{
    proof {
        vstd::bits::lemma_u32_shr_is_div(base, level);
    }
    let shifted: u32 = base >> level;
    if shifted == 0 {
        1
    } else {
        shifted
    }
}

/// What is wrong among the first levels is the first thing wrong among more.
pub(crate) proof fn lemma_fault_persists(
    format: PixelFormat,
    width: nat,
    height: nat,
    levels: Seq<Seq<u8>>,
    count: nat,
    more: nat,
)
    requires
        count <= more,
    ensures
        first_fault(format, width, height, levels, count) is Some ==> first_fault(
            format,
            width,
            height,
            levels,
            more,
        ) == first_fault(format, width, height, levels, count),
    decreases more,
{
    if count < more {
        lemma_fault_persists(format, width, height, levels, count, (more - 1) as nat);
    }
}

/// Only the sizes of payloads decide whether they form a chain, and what is wrong.
pub proof fn law_chain_depends_on_sizes_alone(
    format: PixelFormat,
    width: nat,
    height: nat,
    levels: Seq<Seq<u8>>,
    others: Seq<Seq<u8>>,
)
    requires
        levels.len() == others.len(),
        forall|k: int|
            0 <= k < levels.len() ==> (#[trigger] levels[k]).len() == (#[trigger] others[k]).len(),
    ensures
        chain_fault(format, width, height, levels) == chain_fault(format, width, height, others),
{
    lemma_first_fault_by_sizes(format, width, height, levels, others, levels.len());
}

/// Payloads of the same sizes have the same first fault.
proof fn lemma_first_fault_by_sizes(
    format: PixelFormat,
    width: nat,
    height: nat,
    levels: Seq<Seq<u8>>,
    others: Seq<Seq<u8>>,
    count: nat,
)
    requires
        count <= levels.len() == others.len(),
        forall|k: int|
            0 <= k < levels.len() ==> (#[trigger] levels[k]).len() == (#[trigger] others[k]).len(),
    ensures
        first_fault(format, width, height, levels, count) == first_fault(
            format,
            width,
            height,
            others,
            count,
        ),
    decreases count,
{
    if count > 0 {
        lemma_first_fault_by_sizes(format, width, height, levels, others, (count - 1) as nat);
        assert(levels[count - 1].len() == others[count - 1].len());
    }
}

/// Dividing by a power of two and then by two divides by the next power.
proof fn lemma_half_of_quotient(n: nat, level: nat)
    ensures
        n / pow2(level + 1) == n / pow2(level) / 2,
{
    lemma_pow2_pos(level);
    lemma_pow2_unfold(level + 1);
    vstd::arithmetic::div_mod::lemma_div_denominator(n as int, pow2(level) as int, 2);
    assert(pow2(level + 1) == pow2(level) * 2);
}

/// A 32-bit number is exhausted by 32 halvings.
proof fn lemma_quotient_bound(n: nat, level: nat)
    requires
        n <= u32::MAX,
        n / pow2(level) > 0,
    ensures
        level < 32,
{
    lemma2_to64();
    lemma_pow2_pos(level);
    if level >= 32 {
        if level > 32 {
            lemma_pow2_strictly_increases(32, level);
        }
        vstd::arithmetic::div_mod::lemma_basic_div(n as int, pow2(level) as int);
    }
}

/// The integer logarithm brackets a number between two powers of two.
proof fn lemma_log2_brackets(n: nat)
    requires
        n > 0,
    ensures
        log(2, n as int) >= 0,
        pow2(log(2, n as int) as nat) <= n < pow2((log(2, n as int) + 1) as nat),
    decreases n,
{
    lemma2_to64();
    lemma_log_nonnegative(2, n as int);
    if n < 2 {
        lemma_log0(2, n as int);
    } else {
        lemma_log_s(2, n as int);
        lemma_log2_brackets(n / 2);
        let l = log(2, (n / 2) as int) as nat;
        lemma_pow2_unfold(l + 1);
        lemma_pow2_unfold(l + 2);
    }
}

/// A quotient by a power of two is positive exactly where the power is not larger.
proof fn lemma_quotient_by_pow2(n: nat, level: nat)
    ensures
        n < pow2(level) ==> n / pow2(level) == 0,
        pow2(level) <= n ==> n / pow2(level) >= 1,
        n < pow2(level + 1) ==> n / pow2(level) <= 1,
{
    lemma_pow2_pos(level);
    lemma_pow2_unfold(level + 1);
    let p = pow2(level);
    let q = n / p;
    vstd::arithmetic::div_mod::lemma_fundamental_div_mod(n as int, p as int);
    assert(q >= 1 ==> p * q >= p) by (nonlinear_arith)
        requires
            p > 0,
    ;
    assert(q >= 2 ==> p * q >= 2 * p) by (nonlinear_arith)
        requires
            p > 0,
    ;
    assert(q == 0 ==> p * q == 0) by (nonlinear_arith);
}

/// Each level halves the extent of the one before it, rounding down but not below
/// one texel.
pub proof fn law_extent_halves(base: nat, level: nat)
    ensures
        mip_extent(base, 0) == (if base == 0 {
            1
        } else {
            base
        }),
        mip_extent(base, level + 1) == (if mip_extent(base, level) / 2 == 0 {
            1
        } else {
            mip_extent(base, level) / 2
        }),
{
    lemma2_to64();
    lemma_half_of_quotient(base, level);
}

/// A full mip chain shrinks the image to a single texel at its last level, and
/// not before.
pub proof fn law_full_chain_ends_in_one_texel(width: nat, height: nat, level: nat)
    requires
        width > 0,
        height > 0,
        level < chain_limit(width, height),
    ensures
        mip_extent(width, level) == 1 && mip_extent(height, level) == 1 <==> level + 1
            == chain_limit(width, height),
{
    let longest = if width >= height {
        width
    } else {
        height
    };
    let last = log(2, longest as int) as nat;
    lemma_log2_brackets(longest);
    lemma_quotient_by_pow2(width, level);
    lemma_quotient_by_pow2(height, level);
    if level < last {
        lemma_quotient_by_pow2(longest, level + 1);
        lemma_half_of_quotient(longest, level);
        if level + 1 < last {
            lemma_pow2_strictly_increases(level + 1, last);
        }
    }
}

/// An image can have a level for each halving that still leaves a texel of its
/// longest side, and the base level in any case.
pub proof fn law_level_count_is_bounded_by_halvings(width: nat, height: nat, count: nat)
    requires
        width > 0,
        height > 0,
        count > 0,
    ensures
        chain_limit(width, height) >= 1,
        count <= chain_limit(width, height) <==> pow2((count - 1) as nat) <= width || pow2(
            (count - 1) as nat,
        ) <= height,
{
    let longest = if width >= height {
        width
    } else {
        height
    };
    let last = log(2, longest as int) as nat;
    let halvings = (count - 1) as nat;
    lemma_log2_brackets(longest);
    if halvings < last {
        lemma_pow2_strictly_increases(halvings, last);
    }
    if halvings > last + 1 {
        lemma_pow2_strictly_increases(last + 1, halvings);
    }
}

/// Levels come largest first: none is larger than one before it.
pub proof fn law_levels_never_grow(
    format: PixelFormat,
    width: nat,
    height: nat,
    earlier: nat,
    later: nat,
)
    requires
        earlier <= later,
    ensures
        mip_extent(width, later) <= mip_extent(width, earlier),
        mip_extent(height, later) <= mip_extent(height, earlier),
        level_bytes(format, width, height, later) <= level_bytes(format, width, height, earlier),
    decreases later - earlier,
{
    if earlier < later {
        let before = (later - 1) as nat;
        law_levels_never_grow(format, width, height, earlier, before);
        law_extent_halves(width, before);
        law_extent_halves(height, before);
        law_level_size_grows_with_extent(
            format,
            mip_extent(width, before),
            mip_extent(height, before),
            mip_extent(width, later),
            mip_extent(height, later),
        );
    }
}

/// Among the first `count` levels something is wrong exactly where some level's
/// payload is not of its level's size, or that size is too large for memory.
proof fn lemma_first_fault(
    format: PixelFormat,
    width: nat,
    height: nat,
    levels: Seq<Seq<u8>>,
    count: nat,
)
    requires
        count <= levels.len(),
    ensures
        first_fault(format, width, height, levels, count) is None <==> forall|k: int|
            0 <= k < count ==> (#[trigger] levels[k]).len() == level_bytes(
                format,
                width,
                height,
                k as nat,
            ) && levels[k].len() <= usize::MAX,
    decreases count,
{
    if count > 0 {
        let last = (count - 1) as nat;
        lemma_first_fault(format, width, height, levels, last);
        assert(level_fault(format, width, height, levels, last) is None <==> levels[last as int].len()
            == level_bytes(format, width, height, last) && levels[last as int].len() <= usize::MAX);
    }
}

/// Payloads form a mip chain exactly when their number is possible for the image's
/// extent and each is of the size of its level and fits in memory.
pub proof fn law_chain_accepted_iff_sizes_match(
    format: PixelFormat,
    width: nat,
    height: nat,
    levels: Seq<Seq<u8>>,
)
    ensures
        chain_fault(format, width, height, levels) is None <==> {
            &&& count_fits(width, height, levels.len())
            &&& forall|k: int|
                0 <= k < levels.len() ==> (#[trigger] levels[k]).len() == level_bytes(
                    format,
                    width,
                    height,
                    k as nat,
                ) && levels[k].len() <= usize::MAX
        },
{
    lemma_first_fault(format, width, height, levels, levels.len());
}

/// Payloads form a mip chain exactly when the image has a texel, there is at least
/// one payload, halving the longest side once per further payload leaves a texel of
/// it, and each payload holds the blocks that cover its level: the level's width and
/// height are the image's, both halved once per level and at least one texel, and
/// a partial block counts in full.
pub proof fn law_chain_in_texels_and_blocks(
    format: PixelFormat,
    width: nat,
    height: nat,
    levels: Seq<Seq<u8>>,
)
    ensures
        chain_fault(format, width, height, levels) is None <==> {
            &&& width > 0 && height > 0 && levels.len() > 0
            &&& pow2((levels.len() - 1) as nat) <= width || pow2((levels.len() - 1) as nat)
                <= height
            &&& forall|k: int|
                0 <= k < levels.len() ==> {
                    let side = format.block_side() as int;
                    let w = width as int / pow2(k as nat) as int;
                    let h = height as int / pow2(k as nat) as int;
                    let across = ((if w == 0 {
                        1
                    } else {
                        w
                    }) + side - 1) / side;
                    let down = ((if h == 0 {
                        1
                    } else {
                        h
                    }) + side - 1) / side;
                    &&& (#[trigger] levels[k]).len() == across * down * format.block_bytes()
                    &&& levels[k].len() <= usize::MAX
                }
        },
{
    law_chain_accepted_iff_sizes_match(format, width, height, levels);
    if width > 0 && height > 0 && levels.len() > 0 {
        law_level_count_is_bounded_by_halvings(width, height, levels.len());
    }
    assert forall|k: int|
        #![trigger levels[k]]
        0 <= k < levels.len() implies level_bytes(format, width, height, k as nat) == ({
        let side = format.block_side() as int;
        let w = width as int / pow2(k as nat) as int;
        let h = height as int / pow2(k as nat) as int;
        let across = ((if w == 0 {
            1
        } else {
            w
        }) + side - 1) / side;
        let down = ((if h == 0 {
            1
        } else {
            h
        }) + side - 1) / side;
        across * down * format.block_bytes()
    }) by {
        lemma_pow2_pos(k as nat);
        let side = format.block_side();
        assert(blocks_across(mip_extent(width, k as nat), side) == (mip_extent(width, k as nat) + side
            - 1) / (side as int));
        assert(blocks_across(mip_extent(height, k as nat), side) == (mip_extent(height, k as nat)
            + side - 1) / (side as int));
    }
}

/// An impossible number of payloads, or an image without texels, is named as such,
/// whatever the payloads hold.
pub proof fn law_impossible_count_is_named(
    format: PixelFormat,
    width: nat,
    height: nat,
    levels: Seq<Seq<u8>>,
)
    requires
        width == 0 || height == 0 || levels.len() == 0 || (pow2((levels.len() - 1) as nat) > width
            && pow2((levels.len() - 1) as nat) > height),
    ensures
        chain_fault(format, width, height, levels) == Some("invalid mip dimensions or count"@),
{
    if width > 0 && height > 0 && levels.len() > 0 {
        law_level_count_is_bounded_by_halvings(width, height, levels.len());
    }
}

/// Where the number of payloads is possible, what is named is what is wrong with the
/// first wrong one: a size that no memory holds, or else another size than its
/// level's.
pub proof fn law_first_wrong_level_is_named(
    format: PixelFormat,
    width: nat,
    height: nat,
    levels: Seq<Seq<u8>>,
    wrong: nat,
)
    requires
        width > 0 && height > 0 && wrong < levels.len(),
        pow2((levels.len() - 1) as nat) <= width || pow2((levels.len() - 1) as nat) <= height,
        forall|k: int|
            0 <= k < wrong ==> (#[trigger] levels[k]).len() == format.level_size(
                mip_extent(width, k as nat),
                mip_extent(height, k as nat),
            ) && levels[k].len() <= usize::MAX,
    ensures
        ({
            let size = format.level_size(mip_extent(width, wrong), mip_extent(height, wrong));
            let fault = chain_fault(format, width, height, levels);
            &&& size > usize::MAX ==> fault == Some("mip size overflow"@)
            &&& size <= usize::MAX && levels[wrong as int].len() != size ==> fault == Some(
                "mip payload size does not match dimensions"@,
            )
        }),
{
    law_level_count_is_bounded_by_halvings(width, height, levels.len());
    lemma_first_fault(format, width, height, levels, wrong);
    lemma_fault_persists(format, width, height, levels, wrong + 1, levels.len());
}

/// The payloads of a list of levels are the levels' bytes, one for one and in order.
pub proof fn law_payloads_are_the_levels(levels: Seq<&[u8]>, level: int)
    requires
        0 <= level < levels.len(),
    ensures
        payloads(levels).len() == levels.len(),
        payloads(levels)[level] == levels[level]@,
{
}

/// Packing payloads of the right sizes puts each of the first `count` levels at
/// its offset.
proof fn lemma_packed_prefix(
    format: PixelFormat,
    width: nat,
    height: nat,
    levels: Seq<Seq<u8>>,
    count: nat,
)
    requires
        count <= levels.len(),
        forall|k: int|
            0 <= k < levels.len() ==> (#[trigger] levels[k]).len() == level_bytes(
                format,
                width,
                height,
                k as nat,
            ),
    ensures
        levels.take(count as int).flatten().len() == level_offset(format, width, height, count),
        forall|k: int|
            0 <= k < count ==> {
                let start = level_offset(format, width, height, k as nat) as int;
                &&& start + (#[trigger] levels[k]).len() <= levels.take(count as int).flatten().len()
                &&& levels.take(count as int).flatten().subrange(start, start + levels[k].len())
                    == levels[k]
            },
    decreases count,
{
    if count == 0 {
        assert(levels.take(0) =~= Seq::<Seq<u8>>::empty());
    } else {
        let before = (count - 1) as nat;
        lemma_packed_prefix(format, width, height, levels, before);
        lemma_flatten_next(levels, before);
        let head = levels.take(before as int).flatten();
        let all = levels.take(count as int).flatten();
        assert forall|k: int| 0 <= k < count implies {
            let start = level_offset(format, width, height, k as nat) as int;
            &&& start + (#[trigger] levels[k]).len() <= all.len()
            &&& all.subrange(start, start + levels[k].len()) == levels[k]
        } by {
            let start = level_offset(format, width, height, k as nat) as int;
            if k < before {
                assert(all.subrange(start, start + levels[k].len()) =~= head.subrange(
                    start,
                    start + levels[k].len(),
                ));
            } else {
                assert(all.subrange(start, start + levels[k].len()) =~= levels[k]);
            }
        }
    }
}

/// One more payload is appended at the end.
pub(crate) proof fn lemma_flatten_next(levels: Seq<Seq<u8>>, count: nat)
    requires
        count < levels.len(),
    ensures
        levels.take(count as int + 1).flatten() == levels.take(count as int).flatten()
            + levels[count as int],
{
    let longer = levels.take(count as int + 1);
    assert(longer.drop_last() =~= levels.take(count as int));
    longer.lemma_flatten_and_flatten_alt_are_equivalent();
    levels.take(count as int).lemma_flatten_and_flatten_alt_are_equivalent();
}

/// Packing the payloads of a mip chain loses nothing: the packed bytes are as long
/// as all levels together, and each level is found again, unchanged, at its offset.
pub proof fn law_packed_levels_are_recovered(
    format: PixelFormat,
    width: nat,
    height: nat,
    levels: Seq<Seq<u8>>,
    level: nat,
)
    requires
        chain_fault(format, width, height, levels) is None,
        level < levels.len(),
    ensures
        levels.flatten().len() == level_offset(format, width, height, levels.len()),
        level_offset(format, width, height, level + 1) <= levels.flatten().len(),
        levels.flatten().subrange(
            level_offset(format, width, height, level) as int,
            level_offset(format, width, height, level + 1) as int,
        ) == levels[level as int],
{
    law_chain_accepted_iff_sizes_match(format, width, height, levels);
    lemma_packed_prefix(format, width, height, levels, levels.len());
    assert(levels.take(levels.len() as int) =~= levels);
    assert(levels[level as int].len() == level_bytes(format, width, height, level));
}

} // verus!
