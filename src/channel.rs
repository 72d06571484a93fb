use vstd::prelude::*;

verus! {

/// How a channel's color combines with what lies beneath it.
#[derive(Clone, Copy, Debug, PartialEq, Eq, Structural)]
pub enum Alpha {
    Opaque,
    Blend,
    Transparent,
}

/// The bits of a channel that hold its alpha mode.
pub const ALPHA_MASK: u32 = 0x3000_0000;

/// The bits of a channel that hold its color.
pub const RGB_MASK: u32 = 0x00ff_ffff;

/// The alpha mode that two alpha bits stand for; the undefined fourth value
/// reads as opaque.
pub open spec fn alpha_of_bits(bits: u32) -> Alpha {
    if bits == 1 {
        Alpha::Blend
    } else if bits == 2 {
        Alpha::Transparent
    } else {
        Alpha::Opaque
    }
}

/// The two alpha bits of an alpha mode.
pub open spec fn bits_of_alpha(a: Alpha) -> u32 {
    match a {
        Alpha::Opaque => 0,
        Alpha::Blend => 1,
        Alpha::Transparent => 2,
    }
}

/// The alpha mode of a channel.
pub open spec fn alpha_spec(channel: u32) -> Alpha {
    alpha_of_bits((channel & ALPHA_MASK) >> 28u32)
}

/// A channel with its alpha bits replaced.
pub open spec fn with_alpha_spec(channel: u32, a: Alpha) -> u32 {
    (channel & !ALPHA_MASK) | (bits_of_alpha(a) << 28u32)
}

/// A channel with its color bits replaced.
pub open spec fn with_rgb_spec(channel: u32, rgb: u32) -> u32 {
    (channel & !RGB_MASK) | (rgb & RGB_MASK)
}

/// The foreground half of a channel pair.
pub open spec fn fg_spec(channels: u64) -> u32 {
    (channels >> 32u64) as u32
}

/// The background half of a channel pair.
pub open spec fn bg_spec(channels: u64) -> u32 {
    (channels & 0xffff_ffffu64) as u32
}

/// The channel pair of a foreground and a background channel.
pub open spec fn pair_spec(fg: u32, bg: u32) -> u64 {
    ((fg as u64) << 32u64) | (bg as u64)
}

/// The mean of two 8-bit color components.
pub open spec fn mean8(a: u32, b: u32) -> u32 {
    (((a & 0xff) + (b & 0xff)) / 2) as u32
}

/// The opaque channel whose color is the component-wise mean of the colors
/// of `a` and `b`.
pub open spec fn mean_rgb(a: u32, b: u32) -> u32 {
    (mean8(a >> 16u32, b >> 16u32) << 16u32) | (mean8(a >> 8u32, b >> 8u32) << 8u32) | mean8(a, b)
}

/// The channel seen where channel `top` lies over channel `below`: `top`
/// when opaque, `below` when transparent, and the mean of their colors when
/// blending.
pub open spec fn mix_spec(top: u32, below: u32) -> u32 {
    match alpha_spec(top) {
        Alpha::Opaque => top,
        Alpha::Transparent => below,
        Alpha::Blend => mean_rgb(top, below),
    }
}

fn mean8_of(a: u32, b: u32) -> (r: u32)
    ensures
        r == mean8(a, b),
        r <= 0xff,
{
    assert(a & 0xffu32 <= 0xffu32) by (bit_vector);
    assert(b & 0xffu32 <= 0xffu32) by (bit_vector);
    (((a & 0xff) + (b & 0xff)) / 2) as u32
}

/// The channel seen where `top` lies over `below`.
pub fn channel_mix(top: u32, below: u32) -> (r: u32)
    ensures
        r == mix_spec(top, below),
{
    match channel_alpha(top) {
        Alpha::Opaque => top,
        Alpha::Transparent => below,
        Alpha::Blend => {
            let red = mean8_of(top >> 16u32, below >> 16u32);
            let green = mean8_of(top >> 8u32, below >> 8u32);
            let blue = mean8_of(top, below);
            assert(red <= 0xff ==> red << 16u32 <= 0xff_0000u32) by (bit_vector);
            (red << 16u32) | (green << 8u32) | blue
        },
    }
}

/// The alpha mode of `channel`.
pub fn channel_alpha(channel: u32) -> (r: Alpha)
    ensures
        r == alpha_spec(channel),
{
    let bits = (channel & ALPHA_MASK) >> 28u32;
    if bits == 1 {
        Alpha::Blend
    } else if bits == 2 {
        Alpha::Transparent
    } else {
        Alpha::Opaque
    }
}

/// `channel` with alpha mode `a`.
pub fn channel_set_alpha(channel: u32, a: Alpha) -> (r: u32)
    ensures
        r == with_alpha_spec(channel, a),
        alpha_spec(r) == a,
        r & RGB_MASK == channel & RGB_MASK,
{
    let bits: u32 = match a {
        Alpha::Opaque => 0,
        Alpha::Blend => 1,
        Alpha::Transparent => 2,
    };
    let r = (channel & !ALPHA_MASK) | (bits << 28u32);
    assert(bits <= 2 ==> (((channel & !0x3000_0000u32) | (bits << 28u32)) & 0x3000_0000u32)
        >> 28u32 == bits) by (bit_vector);
    assert(((channel & !0x3000_0000u32) | (bits << 28u32)) & 0x00ff_ffffu32 == channel
        & 0x00ff_ffffu32) by (bit_vector);
    r
}

/// The 24-bit color of `channel`.
pub fn channel_rgb(channel: u32) -> (r: u32)
    ensures
        r == channel & RGB_MASK,
        r <= 0x00ff_ffff,
{
    assert(channel & 0x00ff_ffffu32 <= 0x00ff_ffffu32) by (bit_vector);
    channel & RGB_MASK
}

/// `channel` with the color `rgb`; bits of `rgb` above the 24 color bits are
/// ignored.
pub fn channel_set_rgb(channel: u32, rgb: u32) -> (r: u32)
    ensures
        r == with_rgb_spec(channel, rgb),
        r & RGB_MASK == rgb & RGB_MASK,
        alpha_spec(r) == alpha_spec(channel),
{
    let r = (channel & !RGB_MASK) | (rgb & RGB_MASK);
    assert(((channel & !0x00ff_ffffu32) | (rgb & 0x00ff_ffffu32)) & 0x00ff_ffffu32 == rgb
        & 0x00ff_ffffu32) by (bit_vector);
    assert(((channel & !0x00ff_ffffu32) | (rgb & 0x00ff_ffffu32)) & 0x3000_0000u32 == channel
        & 0x3000_0000u32) by (bit_vector);
    r
}

/// An opaque channel of color `rgb`, from its red, green and blue parts.
pub fn channel_from_rgb8(red: u8, green: u8, blue: u8) -> (r: u32)
    ensures
        r == ((red as u32) << 16u32) | ((green as u32) << 8u32) | (blue as u32),
        alpha_spec(r) == Alpha::Opaque,
{
    let (rr, gg, bb) = (red as u32, green as u32, blue as u32);
    let r = (rr << 16u32) | (gg << 8u32) | bb;
    assert(rr <= 0xff && gg <= 0xff && bb <= 0xff ==> (((rr << 16u32) | (gg << 8u32) | bb)
        & 0x3000_0000u32) >> 28u32 == 0) by (bit_vector);
    r
}

/// The foreground channel of a pair.
pub fn channels_fg(channels: u64) -> (r: u32)
    ensures
        r == fg_spec(channels),
{
    (channels >> 32u64) as u32
}

/// The background channel of a pair.
pub fn channels_bg(channels: u64) -> (r: u32)
    ensures
        r == bg_spec(channels),
{
    (channels & 0xffff_ffffu64) as u32
}

/// The pair of a foreground and a background channel.
pub fn channels_combine(fg: u32, bg: u32) -> (r: u64)
    ensures
        r == pair_spec(fg, bg),
        fg_spec(r) == fg,
        bg_spec(r) == bg,
{
    let r = ((fg as u64) << 32u64) | (bg as u64);
    proof {
        lemma_pair_halves(fg, bg);
    }
    r
}

/// Splitting a channel pair gives back the two channels it was made of.
pub proof fn lemma_pair_halves(fg: u32, bg: u32)
    ensures
        fg_spec(pair_spec(fg, bg)) == fg,
        bg_spec(pair_spec(fg, bg)) == bg,
{
    let (f, b) = (fg as u64, bg as u64);
    assert(f <= 0xffff_ffffu64 && b <= 0xffff_ffffu64 ==> ((f << 32u64) | b) >> 32u64 == f)
        by (bit_vector);
    assert(b <= 0xffff_ffffu64 ==> ((f << 32u64) | b) & 0xffff_ffffu64 == b) by (bit_vector);
}

} // verus!
