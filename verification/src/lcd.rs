//! A light blur of the finished frame that approximates the GBA LCD's pixel bleed:
//! a two-colour dither resolves to the mean of its shades while solid areas stay
//! as they are.
use vstd::prelude::*;

verus! {

/// Channel `c` of pixel (`x`, `y`) of a 240x160 RGB frame after the blur: the
/// average of the pixel (weight 4) and each of its up to four neighbours (weight 1),
/// rounded down.
pub open spec fn lcd_blend_at(src: Seq<u8>, x: int, y: int, c: int) -> u8 {
    let i = (y * 240 + x) * 3 + c;
    let left: int = if x > 0 { src[i - 3] as int } else { 0 };
    let right: int = if x < 239 { src[i + 3] as int } else { 0 };
    let up: int = if y > 0 { src[i - 720] as int } else { 0 };
    let down: int = if y < 159 { src[i + 720] as int } else { 0 };
    let weight: int = 4 + (if x > 0 { 1int } else { 0 }) + (if x < 239 { 1int } else { 0 }) + (if y > 0 {
        1int
    } else {
        0
    }) + (if y < 159 { 1int } else { 0 });
    ((src[i] * 4 + left + right + up + down) / weight) as u8
}

/// A solid area keeps its colour: where a channel has the same value at a pixel
/// and at each of its neighbours, the blur gives that value back.
pub proof fn lemma_lcd_solid(src: Seq<u8>, x: int, y: int, c: int, v: u8)
    requires
        src.len() >= 115200,
        0 <= x < 240,
        0 <= y < 160,
        0 <= c < 3,
        src[(y * 240 + x) * 3 + c] == v,
        x > 0 ==> src[(y * 240 + x) * 3 + c - 3] == v,
        x < 239 ==> src[(y * 240 + x) * 3 + c + 3] == v,
        y > 0 ==> src[(y * 240 + x) * 3 + c - 720] == v,
        y < 159 ==> src[(y * 240 + x) * 3 + c + 720] == v,
    ensures
        lcd_blend_at(src, x, y, c) == v,
{
    let i = (y * 240 + x) * 3 + c;
    let kl: int = if x > 0 { 1int } else { 0 };
    let kr: int = if x < 239 { 1int } else { 0 };
    let ku: int = if y > 0 { 1int } else { 0 };
    let kd: int = if y < 159 { 1int } else { 0 };
    let k = kl + kr + ku + kd;
    let left: int = if x > 0 { src[i - 3] as int } else { 0 };
    let right: int = if x < 239 { src[i + 3] as int } else { 0 };
    let up: int = if y > 0 { src[i - 720] as int } else { 0 };
    let down: int = if y < 159 { src[i + 720] as int } else { 0 };
    assert(left == v * kl && right == v * kr && up == v * ku && down == v * kd);
    assert(left + right + up + down == v * k) by (nonlinear_arith)
        requires
            left == v * kl,
            right == v * kr,
            up == v * ku,
            down == v * kd,
            k == kl + kr + ku + kd,
    ;
    assert((v * 4 + v * k) / (4 + k) == v) by (nonlinear_arith)
        requires
            0 <= k <= 4,
            0 <= v,
    {
        assert(v * 4 + v * k == v * (4 + k));
    }
}

/// A two-shade dither resolves to the mean of its shades: an inner pixel of shade
/// `a` whose four neighbours have shade `b` blurs to (a + b) / 2.
pub proof fn lemma_lcd_checkerboard(src: Seq<u8>, x: int, y: int, c: int, a: u8, b: u8)
    requires
        src.len() >= 115200,
        0 < x < 239,
        0 < y < 159,
        0 <= c < 3,
        src[(y * 240 + x) * 3 + c] == a,
        src[(y * 240 + x) * 3 + c - 3] == b,
        src[(y * 240 + x) * 3 + c + 3] == b,
        src[(y * 240 + x) * 3 + c - 720] == b,
        src[(y * 240 + x) * 3 + c + 720] == b,
    ensures
        lcd_blend_at(src, x, y, c) == (a + b) / 2,
{
    assert((a * 4 + b * 4) / 8 == (a + b) / 2) by (nonlinear_arith)
        requires
            0 <= a,
            0 <= b,
    ;
}

/// Blurs the 240x160 RGB frame `src` into the first 115200 bytes of `dst` (see
/// `lcd_blend_at`); bytes past the frame are left alone.
pub fn lcd_blend_frame(src: &[u8], dst: &mut [u8])
    requires
        src@.len() >= 115200,
        old(dst)@.len() >= 115200,
    ensures
        final(dst)@.len() == old(dst)@.len(),
        forall|y: int, x: int, c: int|
            0 <= y < 160 && 0 <= x < 240 && 0 <= c < 3 ==> final(dst)@[(y * 240 + x) * 3 + c]
                == #[trigger] lcd_blend_at(src@, x, y, c),
        forall|i: int| 115200 <= i < old(dst)@.len() ==> final(dst)@[i] == old(dst)@[i],
{
    let ghost d0 = dst@;
    let mut y: usize = 0;
    while y < 160
        invariant
            y <= 160,
            src@.len() >= 115200,
            dst@.len() == d0.len(),
            d0.len() >= 115200,
            forall|yy: int, xx: int, cc: int|
                0 <= yy < y && 0 <= xx < 240 && 0 <= cc < 3 ==> dst@[(yy * 240 + xx) * 3 + cc]
                    == #[trigger] lcd_blend_at(src@, xx, yy, cc),
            forall|i: int| y * 720 <= i < d0.len() ==> dst@[i] == d0[i],
        decreases 160 - y,
    {
        let mut x: usize = 0;
        while x < 240
            invariant
                x <= 240,
                y < 160,
                src@.len() >= 115200,
                dst@.len() == d0.len(),
                d0.len() >= 115200,
            d0.len() >= 115200,
                forall|yy: int, xx: int, cc: int|
                    0 <= yy < 160 && 0 <= xx < 240 && 0 <= cc < 3 && (yy < y || (yy == y && xx < x))
                        ==> dst@[(yy * 240 + xx) * 3 + cc] == #[trigger] lcd_blend_at(src@, xx, yy, cc),
                forall|i: int| (y * 240 + x) * 3 <= i < d0.len() ==> dst@[i] == d0[i],
            decreases 240 - x,
        {
            let mut c: usize = 0;
            while c < 3
                invariant
                    c <= 3,
                    x < 240,
                    y < 160,
                    src@.len() >= 115200,
                    dst@.len() == d0.len(),
                    d0.len() >= 115200,
                d0.len() >= 115200,
            d0.len() >= 115200,
                    forall|yy: int, xx: int, cc: int|
                        0 <= yy < 160 && 0 <= xx < 240 && 0 <= cc < 3 && (yy < y || (yy == y && xx < x) || (
                        yy == y && xx == x && cc < c)) ==> dst@[(yy * 240 + xx) * 3 + cc]
                            == #[trigger] lcd_blend_at(src@, xx, yy, cc),
                    forall|i: int| (y * 240 + x) * 3 + c <= i < d0.len() ==> dst@[i] == d0[i],
                decreases 3 - c,
            {
                let idx = (y * 240 + x) * 3 + c;
                let mut sum: u32 = src[idx] as u32 * 4;
                let mut weight: u32 = 4;
                if x > 0 {
                    sum += src[idx - 3] as u32;
                    weight += 1;
                }
                if x < 239 {
                    sum += src[idx + 3] as u32;
                    weight += 1;
                }
                if y > 0 {
                    sum += src[idx - 720] as u32;
                    weight += 1;
                }
                if y < 159 {
                    sum += src[idx + 720] as u32;
                    weight += 1;
                }
                dst[idx] = (sum / weight) as u8;
                assert(dst@[idx as int] == lcd_blend_at(src@, x as int, y as int, c as int));
                c += 1;
            }
            x += 1;
        }
        y += 1;
    }
}

} // verus!
