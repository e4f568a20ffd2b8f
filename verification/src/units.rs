//! The units that the library measures in: fingerprint items, hundredths
//! of a percent and hundredths of a decibel.
use crate::text::{decimal, push_char, push_decimal, push_two_digits, two_digits};
use vstd::prelude::*;

verus! {

/// Audio samples that one fingerprint item stands for, at the rate at
/// which fingerprints are taken.
pub const ITEM_SAMPLES: u64 = 1365;

/// Samples per second at which fingerprints are taken.
pub const ITEM_SAMPLE_RATE: u64 = 11025;

/// Bytes of audio per second on a source's output: 44.1 kHz, two channels,
/// two bytes a sample.
pub const PCM_BYTES_PER_SECOND: u64 = 176_400;

/// One fingerprint item lasts 1365/11025 s, which is 2600/21 ms. The
/// number of items that it takes to cover `millis` milliseconds.
pub open spec fn spec_items_covering(millis: nat) -> nat {
    ((millis * 21 + 2599) / 2600) as nat
}

/// The number of whole items that fit into `millis` milliseconds.
pub open spec fn spec_whole_items_in(millis: nat) -> nat {
    (millis * 21 / 2600) as nat
}

/// The milliseconds that `items` items last, rounded down.
pub open spec fn spec_items_millis(items: nat) -> nat {
    (items * 2600 / 21) as nat
}

/// `v` held within the range of `usize`.
pub open spec fn clamp_usize(v: nat) -> nat {
    if v > usize::MAX {
        usize::MAX as nat
    } else {
        v
    }
}

/// The number of fingerprint items that it takes to cover `millis`
/// milliseconds, held within the range of `usize`.
pub fn items_covering(millis: u64) -> (items: usize)
    ensures
        items == clamp_usize(spec_items_covering(millis as nat)),
{
    let v: u128 = (millis as u128 * 21 + 2599) / 2600;
    if v > usize::MAX as u128 {
        usize::MAX
    } else {
        v as usize
    }
}

/// The number of whole fingerprint items that fit into `millis`
/// milliseconds, held within the range of `usize`.
pub fn whole_items_in(millis: u64) -> (items: usize)
    ensures
        items == clamp_usize(spec_whole_items_in(millis as nat)),
{
    let v: u128 = millis as u128 * 21 / 2600;
    if v > usize::MAX as u128 {
        usize::MAX
    } else {
        v as usize
    }
}

/// The bytes of audio in `millis` milliseconds, rounded down.
pub open spec fn spec_pcm_bytes_in(millis: nat) -> nat {
    (millis * 176_400 / 1000) as nat
}

/// The bytes of audio in `millis` milliseconds, held within the range of
/// `usize`.
pub fn pcm_bytes_in(millis: u64) -> (bytes: usize)
    ensures
        bytes == clamp_usize(spec_pcm_bytes_in(millis as nat)),
{
    let v: u128 = millis as u128 * 176_400 / 1000;
    if v > usize::MAX as u128 {
        usize::MAX
    } else {
        v as usize
    }
}

/// A share in hundredths of a percent: 8500 is 85 %.
#[derive(Clone, Copy, Debug, PartialEq, Eq, Structural)]
pub struct Percentage {
    pub hundredths: u32,
}

/// The share of `part` in `whole` in hundredths of a percent, rounded
/// down; zero where `whole` is zero, and `u32::MAX` where the share is
/// beyond what a `u32` holds.
pub open spec fn share_hundredths(part: nat, whole: nat) -> nat {
    if whole == 0 {
        0
    } else if part * 10000 / whole > u32::MAX {
        u32::MAX as nat
    } else {
        part * 10000 / whole
    }
}

/// The text of `hundredths` hundredths: the whole part, a point, and two
/// digits.
pub open spec fn hundredths_text(hundredths: nat) -> Seq<char> {
    decimal(hundredths / 100).push('.') + two_digits(hundredths % 100)
}

impl Percentage {
    pub fn from_hundredths(hundredths: u32) -> (p: Percentage)
        ensures
            p.hundredths == hundredths,
    {
        Percentage { hundredths }
    }

    /// A whole number of percent (`u32::MAX` hundredths where that is
    /// beyond what a `u32` holds).
    pub fn from_whole(percent: u32) -> (p: Percentage)
        ensures
            p.hundredths == (if percent as nat * 100 > u32::MAX {
                u32::MAX as nat
            } else {
                percent as nat * 100
            }),
    {
        if percent > u32::MAX / 100 {
            Percentage { hundredths: u32::MAX }
        } else {
            Percentage { hundredths: percent * 100 }
        }
    }

    /// The share of `part` in `whole`.
    pub fn of(part: u64, whole: u64) -> (p: Percentage)
        ensures
            p.hundredths == share_hundredths(part as nat, whole as nat),
    {
        if whole == 0 {
            return Percentage { hundredths: 0 };
        }
        let v: u128 = part as u128 * 10000 / whole as u128;
        if v > u32::MAX as u128 {
            Percentage { hundredths: u32::MAX }
        } else {
            Percentage { hundredths: v as u32 }
        }
    }

    /// The share as text with two decimals, such as `85.00`.
    pub fn to_text(&self) -> (text: String)
        ensures
            text@ == hundredths_text(self.hundredths as nat),
    {
        let mut text = String::new();
        push_hundredths(&mut text, self.hundredths as u64);
        text
    }
}

/// Appends `hundredths` hundredths as text with two decimals.
pub fn push_hundredths(out: &mut String, hundredths: u64)
    ensures
        final(out)@ == old(out)@ + hundredths_text(hundredths as nat),
{
    push_decimal(out, hundredths / 100);
    push_char(out, '.');
    push_two_digits(out, hundredths % 100);
    assert(final(out)@ =~= old(out)@ + hundredths_text(hundredths as nat));
}

/// A level in hundredths of a decibel relative to full scale: -10000 is
/// -100 dB.
#[derive(Clone, Copy, Debug, PartialEq, Eq, Structural)]
pub struct Decibels {
    pub hundredths: i32,
}

/// The text of a level of `hundredths` hundredths: a minus sign where it
/// is negative, then the amount with two decimals.
pub open spec fn level_text(hundredths: int) -> Seq<char> {
    if hundredths < 0 {
        seq!['-'] + hundredths_text((-hundredths) as nat)
    } else {
        hundredths_text(hundredths as nat)
    }
}

impl Decibels {
    pub fn from_hundredths(hundredths: i32) -> (d: Decibels)
        ensures
            d.hundredths == hundredths,
    {
        Decibels { hundredths }
    }

    /// The level as text with two decimals, such as `-23.40`.
    pub fn to_text(&self) -> (text: String)
        ensures
            text@ == level_text(self.hundredths as int),
    {
        let mut text = String::new();
        push_level(&mut text, self.hundredths as i64);
        assert(text@ =~= level_text(self.hundredths as int));
        text
    }
}

/// Appends a signed amount of `hundredths` hundredths as text with two
/// decimals.
pub fn push_level(out: &mut String, hundredths: i64)
    ensures
        final(out)@ == old(out)@ + level_text(hundredths as int),
{
    if hundredths < 0 {
        push_char(out, '-');
        let amount: u64 = (-(hundredths as i128)) as u64;
        push_hundredths(out, amount);
        assert(final(out)@ =~= old(out)@ + level_text(hundredths as int));
    } else {
        push_hundredths(out, hundredths as u64);
    }
}

/// `hundredths` hundredths as tenths, rounded to the nearest tenth; a
/// half goes to the even tenth.
pub open spec fn tenths_rounded(hundredths: nat) -> nat {
    let tenths = hundredths / 10;
    let rest = hundredths % 10;
    if rest > 5 || (rest == 5 && tenths % 2 == 1) {
        tenths + 1
    } else {
        tenths
    }
}

/// The text of `hundredths` hundredths with one decimal: the whole part,
/// a point, and one digit, rounded to the nearest tenth.
pub open spec fn short_text(hundredths: nat) -> Seq<char> {
    decimal(tenths_rounded(hundredths) / 10).push('.') + decimal(tenths_rounded(hundredths) % 10)
}

/// The text of a level of `hundredths` hundredths with one decimal: a
/// minus sign where it is negative, then the amount.
pub open spec fn short_level_text(hundredths: int) -> Seq<char> {
    if hundredths < 0 {
        seq!['-'] + short_text((-hundredths) as nat)
    } else {
        short_text(hundredths as nat)
    }
}

/// Appends `hundredths` hundredths as text with one decimal.
pub fn push_short(out: &mut String, hundredths: u64)
    ensures
        final(out)@ == old(out)@ + short_text(hundredths as nat),
{
    let whole: u64 = hundredths / 10;
    let rest: u64 = hundredths % 10;
    let tenths: u64 = if rest > 5 || (rest == 5 && whole % 2 == 1) {
        whole + 1
    } else {
        whole
    };
    push_decimal(out, tenths / 10);
    push_char(out, '.');
    push_decimal(out, tenths % 10);
    assert(final(out)@ =~= old(out)@ + short_text(hundredths as nat));
}

/// Appends a signed amount of `hundredths` hundredths as text with one
/// decimal.
pub fn push_short_level(out: &mut String, hundredths: i64)
    ensures
        final(out)@ == old(out)@ + short_level_text(hundredths as int),
{
    if hundredths < 0 {
        push_char(out, '-');
        let amount: u64 = (-(hundredths as i128)) as u64;
        push_short(out, amount);
        assert(final(out)@ =~= old(out)@ + short_level_text(hundredths as int));
    } else {
        push_short(out, hundredths as u64);
    }
}

impl Percentage {
    /// The share as text with one decimal, such as `85.0`.
    pub fn to_short_text(&self) -> (text: String)
        ensures
            text@ == short_text(self.hundredths as nat),
    {
        let mut text = String::new();
        push_short(&mut text, self.hundredths as u64);
        assert(text@ =~= short_text(self.hundredths as nat));
        text
    }
}

impl Decibels {
    /// The level as text with one decimal, such as `-23.4`.
    pub fn to_short_text(&self) -> (text: String)
        ensures
            text@ == short_level_text(self.hundredths as int),
    {
        let mut text = String::new();
        push_short_level(&mut text, self.hundredths as i64);
        assert(text@ =~= short_level_text(self.hundredths as int));
        text
    }
}

} // verus!
