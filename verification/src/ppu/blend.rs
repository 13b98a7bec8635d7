//! Colour effects on 15-bit BGR colours (red in bits 4-0, green 9-5, blue 14-10).
use vstd::prelude::*;

verus! {

/// Channel `k` (0 red, 1 green, 2 blue) of a 15-bit colour.
pub open spec fn channel(c: u16, k: u16) -> u32 {
    ((c >> (5 * k) as u16) & 0x1F) as u32
}

/// Three channel values packed into a colour (bits above 15 dropped).
pub open spec fn pack(r: u32, g: u32, b: u32) -> u16 {
    (r | (g << 5u32) | (b << 10u32)) as u16
}

/// The smaller of two words.
pub open spec fn min32(a: u32, b: u32) -> u32 {
    if a <= b { a } else { b }
}

/// Alpha blending: each channel is (top * eva + bottom * evb) / 16, at most 31.
pub open spec fn alpha_blend_spec(top: u16, bot: u16, eva: u32, evb: u32) -> u16 {
    pack(
        min32(((channel(top, 0) * eva + channel(bot, 0) * evb) / 16) as u32, 31),
        min32(((channel(top, 1) * eva + channel(bot, 1) * evb) / 16) as u32, 31),
        min32(((channel(top, 2) * eva + channel(bot, 2) * evb) / 16) as u32, 31),
    )
}

/// Brightness increase: each channel moves `evy`/16 of the way towards 31.
pub open spec fn brighten_spec(c: u16, evy: u32) -> u16 {
    pack(
        (channel(c, 0) + (31 - channel(c, 0)) * evy / 16) as u32,
        (channel(c, 1) + (31 - channel(c, 1)) * evy / 16) as u32,
        (channel(c, 2) + (31 - channel(c, 2)) * evy / 16) as u32,
    )
}

/// Brightness decrease: each channel moves `evy`/16 of the way towards 0.
pub open spec fn darken_spec(c: u16, evy: u32) -> u16 {
    pack(
        (channel(c, 0) - channel(c, 0) * evy / 16) as u32,
        (channel(c, 1) - channel(c, 1) * evy / 16) as u32,
        (channel(c, 2) - channel(c, 2) * evy / 16) as u32,
    )
}

proof fn lemma_channels(c: u16)
    ensures
        channel(c, 0) == (c & 0x1F) as u32,
        channel(c, 1) == ((c >> 5) & 0x1F) as u32,
        channel(c, 2) == ((c >> 10) & 0x1F) as u32,
        channel(c, 0) <= 31,
        channel(c, 1) <= 31,
        channel(c, 2) <= 31,
{
    assert(((c >> 0u16) & 0x1F) == (c & 0x1F) && (c & 0x1F) <= 31 && ((c >> 5) & 0x1F) <= 31 && ((c
        >> 10) & 0x1F) <= 31) by (bit_vector);
}

proof fn lemma_shr4(x: u32)
    ensures
        x >> 4u32 == x / 16,
{
    assert(x >> 4u32 == x / 16) by (bit_vector);
}

proof fn lemma_mul_bound(a: u32, e: u32)
    requires
        a <= 31,
        31 * e <= u32::MAX,
    ensures
        a * e <= 31 * e,
{
    assert(a * e <= 31 * e) by (nonlinear_arith)
        requires
            a <= 31,
    ;
}

proof fn lemma_pack_channels(c: u16)
    ensures
        pack(channel(c, 0), channel(c, 1), channel(c, 2)) == c & 0x7FFF,
        pack(31, 31, 31) == 0x7FFF,
        pack(0, 0, 0) == 0,
{
    lemma_channels(c);
    let r = (c & 0x1F) as u32;
    let g = ((c >> 5) & 0x1F) as u32;
    let b = ((c >> 10) & 0x1F) as u32;
    assert((r | (g << 5u32) | (b << 10u32)) as u16 == c & 0x7FFF && (31u32 | (31u32 << 5u32) | (31u32
        << 10u32)) as u16 == 0x7FFF && (0u32 | (0u32 << 5u32) | (0u32 << 10u32)) as u16 == 0)
        by (bit_vector)
        requires
            r == (c & 0x1F) as u32,
            g == ((c >> 5) & 0x1F) as u32,
            b == ((c >> 10) & 0x1F) as u32,
    ;
}

/// Colour effects at their end points: a full-weight top layer over a
/// zero-weight bottom layer, or a brightness factor of 0, give the colour back
/// (its 15 colour bits); a brightness factor of 16 gives white (brighten) or black
/// (darken).
pub proof fn lemma_blend_end_points(c: u16, other: u16)
    ensures
        alpha_blend_spec(c, other, 16, 0) == c & 0x7FFF,
        brighten_spec(c, 0) == c & 0x7FFF,
        darken_spec(c, 0) == c & 0x7FFF,
        brighten_spec(c, 16) == 0x7FFF,
        darken_spec(c, 16) == 0,
{
    lemma_channels(c);
    lemma_channels(other);
    lemma_pack_channels(c);
    lemma_scale16(channel(c, 0), channel(other, 0));
    lemma_scale16(channel(c, 1), channel(other, 1));
    lemma_scale16(channel(c, 2), channel(other, 2));
}

proof fn lemma_pack_fields(r: u32, g: u32, b: u32)
    requires
        r <= 31,
        g <= 31,
        b <= 31,
    ensures
        channel(pack(r, g, b), 0) == r,
        channel(pack(r, g, b), 1) == g,
        channel(pack(r, g, b), 2) == b,
        pack(r, g, b) & 0x8000 == 0,
{
    let p = pack(r, g, b);
    assert(((p >> 0u16) & 0x1F) as u32 == r && ((p >> 5u16) & 0x1F) as u32 == g && ((p >> 10u16)
        & 0x1F) as u32 == b && p & 0x8000 == 0) by (bit_vector)
        requires
            r <= 31,
            g <= 31,
            b <= 31,
            p == (r | (g << 5u32) | (b << 10u32)) as u16,
    ;
}

proof fn lemma_scaled_le(x: u32, e: u32)
    requires
        e <= 16,
    ensures
        x * e / 16 <= x,
{
    assert(x * e / 16 <= x) by (nonlinear_arith)
        requires
            e <= 16,
    ;
}

/// Alpha blending channel by channel: with weights of at most 16, each channel of
/// the result is min((top * eva + bottom * evb) / 16, 31), bit 15 is clear, and
/// swapping the two colours together with their weights gives the same colour.
pub proof fn lemma_alpha_blend_channels(top: u16, bot: u16, eva: u32, evb: u32)
    requires
        eva <= 16,
        evb <= 16,
    ensures
        forall|k: u16|
            k < 3 ==> #[trigger] channel(alpha_blend_spec(top, bot, eva, evb), k) == min32(
                ((channel(top, k) * eva + channel(bot, k) * evb) / 16) as u32,
                31,
            ),
        alpha_blend_spec(top, bot, eva, evb) & 0x8000 == 0,
        alpha_blend_spec(top, bot, eva, evb) == alpha_blend_spec(bot, top, evb, eva),
{
    lemma_channels(top);
    lemma_channels(bot);
    let r = min32(((channel(top, 0) * eva + channel(bot, 0) * evb) / 16) as u32, 31);
    let g = min32(((channel(top, 1) * eva + channel(bot, 1) * evb) / 16) as u32, 31);
    let b = min32(((channel(top, 2) * eva + channel(bot, 2) * evb) / 16) as u32, 31);
    lemma_pack_fields(r, g, b);
    assert forall|k: u16| k < 3 implies #[trigger] channel(alpha_blend_spec(top, bot, eva, evb), k)
        == min32(((channel(top, k) * eva + channel(bot, k) * evb) / 16) as u32, 31) by {
        if k == 0 {
        } else if k == 1 {
        } else {
        }
    }
}

/// Brightening channel by channel: with a factor of at most 16, each channel `a`
/// becomes a + (31 - a) * evy / 16, which lies between `a` and 31, and bit 15 is
/// clear.
pub proof fn lemma_brighten_channels(c: u16, evy: u32)
    requires
        evy <= 16,
    ensures
        forall|k: u16|
            k < 3 ==> #[trigger] channel(brighten_spec(c, evy), k) == channel(c, k) + (31 - channel(c, k))
                * evy / 16 && channel(c, k) <= channel(brighten_spec(c, evy), k) <= 31,
        brighten_spec(c, evy) & 0x8000 == 0,
{
    lemma_channels(c);
    lemma_scaled_le((31 - channel(c, 0)) as u32, evy);
    lemma_scaled_le((31 - channel(c, 1)) as u32, evy);
    lemma_scaled_le((31 - channel(c, 2)) as u32, evy);
    let r = (channel(c, 0) + (31 - channel(c, 0)) * evy / 16) as u32;
    let g = (channel(c, 1) + (31 - channel(c, 1)) * evy / 16) as u32;
    let b = (channel(c, 2) + (31 - channel(c, 2)) * evy / 16) as u32;
    lemma_pack_fields(r, g, b);
    assert forall|k: u16| k < 3 implies #[trigger] channel(brighten_spec(c, evy), k) == channel(c, k) + (31
        - channel(c, k)) * evy / 16 && channel(c, k) <= channel(brighten_spec(c, evy), k) <= 31 by {
        if k == 0 {
        } else if k == 1 {
        } else {
        }
    }
}

/// Darkening channel by channel: with a factor of at most 16, each channel `a`
/// becomes a - a * evy / 16, which lies between 0 and `a`, and bit 15 is clear.
pub proof fn lemma_darken_channels(c: u16, evy: u32)
    requires
        evy <= 16,
    ensures
        forall|k: u16|
            k < 3 ==> #[trigger] channel(darken_spec(c, evy), k) == channel(c, k) - channel(c, k) * evy / 16
                && channel(darken_spec(c, evy), k) <= channel(c, k),
        darken_spec(c, evy) & 0x8000 == 0,
{
    lemma_channels(c);
    lemma_scaled_le(channel(c, 0), evy);
    lemma_scaled_le(channel(c, 1), evy);
    lemma_scaled_le(channel(c, 2), evy);
    let r = (channel(c, 0) - channel(c, 0) * evy / 16) as u32;
    let g = (channel(c, 1) - channel(c, 1) * evy / 16) as u32;
    let b = (channel(c, 2) - channel(c, 2) * evy / 16) as u32;
    lemma_pack_fields(r, g, b);
    assert forall|k: u16| k < 3 implies #[trigger] channel(darken_spec(c, evy), k) == channel(c, k)
        - channel(c, k) * evy / 16 && channel(darken_spec(c, evy), k) <= channel(c, k) by {
        if k == 0 {
        } else if k == 1 {
        } else {
        }
    }
}

proof fn lemma_scale16(x: u32, y: u32)
    requires
        x <= 31,
    ensures
        (x * 16 + y * 0) / 16 == x,
        (31 - x) * 16 / 16 == 31 - x,
        x * 16 / 16 == x,
        (31 - x) * 0 / 16 == 0,
        x * 0 / 16 == 0,
{
    assert((x * 16 + y * 0) / 16 == x && (31 - x) * 16 / 16 == 31 - x && x * 16 / 16 == x && (31 - x) * 0 / 16 == 0 && x * 0 / 16 == 0)
        by (nonlinear_arith)
        requires
            x <= 31,
    ;
}

/// Alpha blend of two colours (see `alpha_blend_spec`); the weighted sums must fit
/// in a word.
pub fn alpha_blend(top: u16, bot: u16, eva: u32, evb: u32) -> (r: u16)
    requires
        31 * eva + 31 * evb <= u32::MAX,
    ensures
        r == alpha_blend_spec(top, bot, eva, evb),
{
    proof {
        lemma_channels(top);
        lemma_channels(bot);
    }
    let r1 = (top & 0x1F) as u32;
    let g1 = ((top >> 5) & 0x1F) as u32;
    let b1 = ((top >> 10) & 0x1F) as u32;
    let r2 = (bot & 0x1F) as u32;
    let g2 = ((bot >> 5) & 0x1F) as u32;
    let b2 = ((bot >> 10) & 0x1F) as u32;
    proof {
        lemma_mul_bound(r1, eva);
        lemma_mul_bound(g1, eva);
        lemma_mul_bound(b1, eva);
        lemma_mul_bound(r2, evb);
        lemma_mul_bound(g2, evb);
        lemma_mul_bound(b2, evb);
    }
    let rsum = r1 * eva + r2 * evb;
    let gsum = g1 * eva + g2 * evb;
    let bsum = b1 * eva + b2 * evb;
    proof {
        lemma_shr4(rsum);
        lemma_shr4(gsum);
        lemma_shr4(bsum);
    }
    let rs = rsum >> 4;
    let gs = gsum >> 4;
    let bs = bsum >> 4;
    let r = if rs < 31 { rs } else { 31 };
    let g = if gs < 31 { gs } else { 31 };
    let b = if bs < 31 { bs } else { 31 };
    (r | (g << 5) | (b << 10)) as u16
}

/// Brightness increase (see `brighten_spec`).
pub fn brighten(c: u16, evy: u32) -> (res: u16)
    requires
        31 * evy <= u32::MAX - 31,
    ensures
        res == brighten_spec(c, evy),
{
    proof {
        lemma_channels(c);
    }
    let r = (c & 0x1F) as u32;
    let g = ((c >> 5) & 0x1F) as u32;
    let b = ((c >> 10) & 0x1F) as u32;
    proof {
        lemma_mul_bound((31 - r) as u32, evy);
        lemma_mul_bound((31 - g) as u32, evy);
        lemma_mul_bound((31 - b) as u32, evy);
    }
    let rp = (31 - r) * evy;
    let gp = (31 - g) * evy;
    let bp = (31 - b) * evy;
    proof {
        lemma_shr4(rp);
        lemma_shr4(gp);
        lemma_shr4(bp);
    }
    let r = r + (rp >> 4);
    let g = g + (gp >> 4);
    let b = b + (bp >> 4);
    (r | (g << 5) | (b << 10)) as u16
}

/// Brightness decrease (see `darken_spec`); no channel may drop below zero
/// (which only a factor above 16 can cause).
pub fn darken(c: u16, evy: u32) -> (res: u16)
    requires
        31 * evy <= u32::MAX,
        channel(c, 0) * evy / 16 <= channel(c, 0),
        channel(c, 1) * evy / 16 <= channel(c, 1),
        channel(c, 2) * evy / 16 <= channel(c, 2),
    ensures
        res == darken_spec(c, evy),
{
    proof {
        lemma_channels(c);
    }
    let r = (c & 0x1F) as u32;
    let g = ((c >> 5) & 0x1F) as u32;
    let b = ((c >> 10) & 0x1F) as u32;
    proof {
        lemma_mul_bound(r, evy);
        lemma_mul_bound(g, evy);
        lemma_mul_bound(b, evy);
    }
    let rp = r * evy;
    let gp = g * evy;
    let bp = b * evy;
    proof {
        lemma_shr4(rp);
        lemma_shr4(gp);
        lemma_shr4(bp);
    }
    let r = r - (rp >> 4);
    let g = g - (gp >> 4);
    let b = b - (bp >> 4);
    (r | (g << 5) | (b << 10)) as u16
}

} // verus!
