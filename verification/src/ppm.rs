//! Gamma correction, 8-bit quantization, and the ASCII pixel-map text.
//!
//! Channels are clamped to `[0, 1]` before the gamma square root — the
//! explicit policy for degenerate radiance values, in place of letting them
//! propagate into the truncation — so every emitted channel provably lies in
//! `[0, 255]`.

use crate::fixed::{fx_mul, fx_mul_s, fx_sqrt, fx_sqrt_s, lemma_sqrt_floor_bounds, sqrt_floor,
    tdiv, FX_ONE};
use vstd::arithmetic::div_mod::{lemma_div_is_ordered, lemma_div_multiples_vanish,
    lemma_div_pos_is_pos};
use vstd::prelude::*;

verus! {

/// The quantization factor: 255.99 as a scalar, rounded down.
pub const FX_255_99: i64 = 16776560;

/// A channel clamped into `[0, 1]`.
pub open spec fn clamp01_s(x: i64) -> i64 {
    if x < 0 {
        0
    } else if x > FX_ONE {
        FX_ONE
    } else {
        x
    }
}

/// The emitted 8-bit value of a linear channel: clamp, gamma-correct by
/// square root, scale by 255.99, truncate.
pub open spec fn quantize_s(x: i64) -> int {
    (fx_mul_s(fx_sqrt_s(clamp01_s(x)), FX_255_99) as int) / (FX_ONE as int)
}

/// The square root of a channel at most one is itself at most one.
proof fn lemma_sqrt_channel_le_one(x: i64)
    requires
        0 <= x <= FX_ONE,
    ensures
        0 <= fx_sqrt_s(x) <= FX_ONE,
{
    if x > 0 {
        let n = x * (FX_ONE as int);
        lemma_sqrt_floor_bounds(n);
        let r = sqrt_floor(n);
        assert(r <= FX_ONE) by (nonlinear_arith)
            requires
                r * r <= n,
                n <= (FX_ONE as int) * (FX_ONE as int),
                r >= 0,
        ;
    }
}

/// Every quantized channel lies in `[0, 255]`.
pub proof fn lemma_quantize_range(x: i64)
    ensures
        0 <= quantize_s(x) <= 255,
{
    let c = clamp01_s(x);
    lemma_sqrt_channel_le_one(c);
    let g = fx_sqrt_s(c);
    let raw = g * (FX_255_99 as int);
    assert(0 <= raw <= (FX_ONE as int) * (FX_255_99 as int)) by (nonlinear_arith)
        requires
            0 <= g <= FX_ONE as int,
            raw == g * (FX_255_99 as int),
    ;
    assert(tdiv(raw, FX_ONE as int) == raw / (FX_ONE as int));
    lemma_div_pos_is_pos(raw, FX_ONE as int);
    lemma_div_is_ordered(raw, (FX_ONE as int) * (FX_255_99 as int), FX_ONE as int);
    lemma_div_multiples_vanish(FX_255_99 as int, FX_ONE as int);
    assert(((FX_ONE as int) * (FX_255_99 as int)) / (FX_ONE as int) == FX_255_99 as int);
    assert(fx_mul_s(g, FX_255_99) == raw / (FX_ONE as int));
    lemma_div_is_ordered(fx_mul_s(g, FX_255_99) as int, raw / (FX_ONE as int), FX_ONE as int);
    assert(quantize_s(x) <= (FX_255_99 as int) / (FX_ONE as int));
    lemma_div_pos_is_pos(fx_mul_s(g, FX_255_99) as int, FX_ONE as int);
}

/// Quantize one channel to its 8-bit value.
pub fn quantize(x: i64) -> (r: u8)
    ensures
        r as int == quantize_s(x),
{
    let c: i64 = if x < 0 {
        0
    } else if x > FX_ONE {
        FX_ONE
    } else {
        x
    };
    let g: i64 = fx_sqrt(c);
    let q: i64 = fx_mul(g, FX_255_99);
    proof {
        lemma_quantize_range(x);
        lemma_sqrt_channel_le_one(c);
        assert(q >= 0);
    }
    (q as u64 / 65536) as u8
}

/// The decimal digits of a non-negative integer, as ASCII bytes.
pub open spec fn dec_u8s(n: int) -> Seq<u8>
    decreases n,
{
    if n < 10 {
        seq![(48 + n) as u8]
    } else {
        dec_u8s(n / 10).push((48 + n % 10) as u8)
    }
}

/// Decimal digits are ASCII digits.
pub proof fn lemma_dec_ascii(n: int)
    requires
        n >= 0,
    ensures
        forall|k: int| 0 <= k < dec_u8s(n).len() ==> 48 <= #[trigger] dec_u8s(n)[k] <= 57,
    decreases n,
{
    if n < 10 {
        assert(dec_u8s(n).len() == 1);
        assert(dec_u8s(n)[0] == (48 + n) as u8);
    } else {
        lemma_dec_ascii(n / 10);
        let m = dec_u8s(n / 10);
        assert forall|k: int| 0 <= k < dec_u8s(n).len() implies 48 <= #[trigger] dec_u8s(n)[k]
            <= 57 by {
            assert(dec_u8s(n) == m.push((48 + n % 10) as u8));
            if k < m.len() {
                assert(dec_u8s(n)[k] == m[k]);
            } else {
                assert(dec_u8s(n)[k] == (48 + n % 10) as u8);
            }
        }
    }
}

/// Append the decimal digits of `n`.
pub fn push_dec(out: &mut Vec<u8>, n: u32)
    ensures
        final(out)@ == old(out)@ + dec_u8s(n as int),
    decreases n,
{
    if n < 10 {
        out.push(48 + (n as u8));
    } else {
        push_dec(out, n / 10);
        out.push(48 + ((n % 10) as u8));
    }
    proof {
        assert(final(out)@ =~= old(out)@ + dec_u8s(n as int));
    }
}

/// The pixel-map header `P3\n{nx} {ny}\n255\n`.
pub open spec fn header_bytes_s(nx: int, ny: int) -> Seq<u8> {
    seq![80u8, 51u8, 10u8] + dec_u8s(nx) + seq![32u8] + dec_u8s(ny) + seq![
        10u8,
        50u8,
        53u8,
        53u8,
        10u8,
    ]
}

/// Append the pixel-map header.
pub fn push_header(out: &mut Vec<u8>, nx: u32, ny: u32)
    ensures
        final(out)@ == old(out)@ + header_bytes_s(nx as int, ny as int),
{
    out.push(80);
    out.push(51);
    out.push(10);
    push_dec(out, nx);
    out.push(32);
    push_dec(out, ny);
    out.push(10);
    out.push(50);
    out.push(53);
    out.push(53);
    out.push(10);
    proof {
        assert(final(out)@ =~= old(out)@ + header_bytes_s(nx as int, ny as int));
    }
}

/// One pixel row: three decimal channels separated by spaces.
pub open spec fn pixel_line_s(r: int, g: int, b: int) -> Seq<u8> {
    dec_u8s(r) + seq![32u8] + dec_u8s(g) + seq![32u8] + dec_u8s(b) + seq![10u8]
}

/// Append one pixel row.
pub fn push_pixel(out: &mut Vec<u8>, r: u8, g: u8, b: u8)
    ensures
        final(out)@ == old(out)@ + pixel_line_s(r as int, g as int, b as int),
{
    push_dec(out, r as u32);
    out.push(32);
    push_dec(out, g as u32);
    out.push(32);
    push_dec(out, b as u32);
    out.push(10);
    proof {
        assert(final(out)@ =~= old(out)@ + pixel_line_s(r as int, g as int, b as int));
    }
}

/// The body text of a pixel list: one row per pixel, in order.
pub open spec fn body_of(pix: Seq<(int, int, int)>) -> Seq<u8>
    decreases pix.len(),
{
    if pix.len() == 0 {
        Seq::<u8>::empty()
    } else {
        pixel_line_s(pix[0].0, pix[0].1, pix[0].2) + body_of(pix.drop_first())
    }
}

/// Every channel of every pixel lies in `[0, 255]`.
pub open spec fn channels_ok(pix: Seq<(int, int, int)>) -> bool {
    forall|i: int|
        0 <= i < pix.len() ==> 0 <= #[trigger] pix[i].0 <= 255 && 0 <= pix[i].1 <= 255 && 0
            <= pix[i].2 <= 255
}

/// Appending a pixel appends its row to the body text.
pub proof fn lemma_body_push(pix: Seq<(int, int, int)>, t: (int, int, int))
    ensures
        body_of(pix.push(t)) == body_of(pix) + pixel_line_s(t.0, t.1, t.2),
    decreases pix.len(),
{
    let line = pixel_line_s(t.0, t.1, t.2);
    if pix.len() == 0 {
        assert(pix.push(t).len() == 1);
        assert(pix.push(t)[0] == t);
        assert(pix.push(t).drop_first() =~= Seq::<(int, int, int)>::empty());
        assert(body_of(pix.push(t)) == line + body_of(Seq::<(int, int, int)>::empty()));
        assert(line + Seq::<u8>::empty() =~= line);
        assert(body_of(pix) + line =~= line);
    } else {
        let head = pixel_line_s(pix[0].0, pix[0].1, pix[0].2);
        let rest = pix.drop_first();
        assert(pix.push(t)[0] == pix[0]);
        assert(pix.push(t).drop_first() =~= rest.push(t));
        lemma_body_push(rest, t);
        assert(body_of(pix.push(t)) == head + body_of(rest.push(t)));
        assert(body_of(rest.push(t)) == body_of(rest) + line);
        assert(head + (body_of(rest) + line) =~= (head + body_of(rest)) + line);
        assert(body_of(pix) == head + body_of(rest));
    }
}

/// The view of ASCII bytes as text.
pub open spec fn chars_of_bytes(b: Seq<u8>) -> Seq<char> {
    b.map_values(|x: u8| x as char)
}

/// Relies on String::from_utf8: a sequence of ASCII bytes decodes to exactly
/// one char per byte, each with the byte's code point.
#[verifier::external_body]
pub fn ascii_string(bytes: Vec<u8>) -> (r: String)
    requires
        forall|i: int| 0 <= i < bytes@.len() ==> bytes@[i] < 128,
    ensures
        r@ == chars_of_bytes(bytes@),
{
    String::from_utf8(bytes).unwrap_or_default()
}

} // verus!
