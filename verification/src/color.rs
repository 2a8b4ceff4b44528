//! Resolving an accumulated pixel color into an output RGB triple.
//!
//! The sample sum is divided by the sample count, gamma-corrected with
//! a square root (approximating gamma 2.0), scaled to the byte range
//! and clamped. Writing the triple to a stream is the caller's affair.

use vstd::prelude::*;
use crate::fixed::{fdiv, fmul, fp_div, fp_mul, fp_sqrt, fsqrt, int_to_fp, lemma_fmul_nonneg, ONE};
use crate::vec3::Color;

verus! {

/// One output pixel: a byte per channel.
#[derive(Clone, Copy, Debug, PartialEq, Eq, Structural)]
pub struct Rgb {
    pub r: u8,
    pub g: u8,
    pub b: u8,
}

/// The exact byte a channel sum resolves to: average over the samples,
/// square-root gamma, scale by 256 and clamp to `[0, 255]`. A negative
/// average (possible only with negative albedo inputs) resolves to 0.
pub open spec fn resolve_channel(c: int, samples_per_pixel: int) -> int
    recommends
        samples_per_pixel > 0,
{
    let avg = fdiv(c, samples_per_pixel * (ONE as int));
    let avg_clamped = if avg < 0 {
        0
    } else {
        avg
    };
    let gamma = fsqrt(avg_clamped);
    let scaled = fmul(gamma, 256 * (ONE as int));
    let k = scaled / (ONE as int);
    if k > 255 {
        255
    } else {
        k
    }
}

/// A resolved channel lies in the byte range.
pub proof fn lemma_resolve_channel_in_range(c: int, samples_per_pixel: int)
    requires
        samples_per_pixel > 0,
    ensures
        0 <= resolve_channel(c, samples_per_pixel) <= 255,
{
    let avg = fdiv(c, samples_per_pixel * (ONE as int));
    let avg_clamped = if avg < 0 {
        0
    } else {
        avg
    };
    crate::fixed::lemma_sqrt_floor_bounds(avg_clamped * (ONE as int));
    let gamma = fsqrt(avg_clamped);
    lemma_fmul_nonneg(gamma, 256 * (ONE as int));
    vstd::arithmetic::div_mod::lemma_div_pos_is_pos(fmul(gamma, 256 * (ONE as int)), ONE as int);
}

/// Resolve one channel.
fn resolve_one(c: i64, spp_fp: i64, ghost_spp: Ghost<int>) -> (r: u8)
    requires
        spp_fp == ghost_spp@ * (ONE as int),
        1 <= ghost_spp@ <= 1_000_000,
    ensures
        r == resolve_channel(c as int, ghost_spp@),
{
    let avg: i64 = fp_div(c, spp_fp);
    let avg_clamped: i64 = if avg < 0 {
        0
    } else {
        avg
    };
    let gamma: i64 = fp_sqrt(avg_clamped);
    let scaled: i64 = fp_mul(gamma, 256 * ONE);
    proof {
        lemma_fmul_nonneg(gamma as int, 256 * (ONE as int));
    }
    let k: u64 = (scaled as u64) / (ONE as u64);
    if k > 255 {
        255
    } else {
        k as u8
    }
}

/// Resolve an accumulated pixel color into its output bytes.
pub fn resolve_color(pixel_color: Color, samples_per_pixel: i32) -> (r: Rgb)
    requires
        1 <= samples_per_pixel <= 1_000_000,
    ensures
        r.r == resolve_channel(pixel_color.x as int, samples_per_pixel as int),
        r.g == resolve_channel(pixel_color.y as int, samples_per_pixel as int),
        r.b == resolve_channel(pixel_color.z as int, samples_per_pixel as int),
{
    let spp_fp: i64 = int_to_fp(samples_per_pixel as i64);
    let ghost_spp: Ghost<int> = Ghost(samples_per_pixel as int);
    Rgb {
        r: resolve_one(pixel_color.x, spp_fp, ghost_spp),
        g: resolve_one(pixel_color.y, spp_fp, ghost_spp),
        b: resolve_one(pixel_color.z, spp_fp, ghost_spp),
    }
}

} // verus!
