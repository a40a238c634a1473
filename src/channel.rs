use crate::color::{Rgb, Rgba};
use vstd::prelude::*;
use vstd::string::*;

verus! {

/// The source channel that feeds one operand slot. A name that is not a
/// channel resolves to `Zero`, which always reads as 0.
#[derive(Clone, Copy, PartialEq, Eq, Debug, Structural)]
pub enum Channel {
    Red,
    Green,
    Blue,
    Zero,
}

/// The channel that a remap token names: `r`, `g` or `b` in either case;
/// anything else reads as zero.
pub open spec fn channel_of_name(name: Seq<char>) -> Channel {
    if name.len() == 1 && (name[0] == 'r' || name[0] == 'R') {
        Channel::Red
    } else if name.len() == 1 && (name[0] == 'g' || name[0] == 'G') {
        Channel::Green
    } else if name.len() == 1 && (name[0] == 'b' || name[0] == 'B') {
        Channel::Blue
    } else {
        Channel::Zero
    }
}

impl Channel {
    /// The value this channel reads from the triple `(r, g, b)`.
    pub open spec fn select(self, r: u8, g: u8, b: u8) -> u8 {
        match self {
            Channel::Red => r,
            Channel::Green => g,
            Channel::Blue => b,
            Channel::Zero => 0,
        }
    }

    pub fn from_name(name: &str) -> (c: Channel)
        ensures
            c == channel_of_name(name@),
    {
        if name.unicode_len() != 1 {
            return Channel::Zero;
        }
        let ch = name.get_char(0);
        if ch == 'r' || ch == 'R' {
            Channel::Red
        } else if ch == 'g' || ch == 'G' {
            Channel::Green
        } else if ch == 'b' || ch == 'B' {
            Channel::Blue
        } else {
            Channel::Zero
        }
    }

    pub fn pick(self, r: u8, g: u8, b: u8) -> (v: u8)
        ensures
            v == self.select(r, g, b),
    {
        match self {
            Channel::Red => r,
            Channel::Green => g,
            Channel::Blue => b,
            Channel::Zero => 0,
        }
    }
}

/// For each destination slot (red, green, blue), the source channel that
/// feeds it.
#[derive(Clone, Copy, PartialEq, Eq, Debug, Structural)]
pub struct Selector {
    pub r: Channel,
    pub g: Channel,
    pub b: Channel,
}

/// A list of remap tokens is usable when absent or exactly three long.
pub open spec fn names_ok(names: Option<Vec<String>>) -> bool {
    names matches Some(v) ==> v@.len() == 3
}

/// The selector that a list of remap tokens builds; no list means the
/// identity (red, green, blue in order).
pub open spec fn selector_of(names: Option<Vec<String>>) -> Selector {
    match names {
        None => Selector { r: Channel::Red, g: Channel::Green, b: Channel::Blue },
        Some(v) => Selector {
            r: channel_of_name(v@[0]@),
            g: channel_of_name(v@[1]@),
            b: channel_of_name(v@[2]@),
        },
    }
}

impl Selector {
    /// The triple that this selector reads from `(r, g, b)`.
    pub open spec fn remap(self, r: u8, g: u8, b: u8) -> Rgb {
        Rgb { r: self.r.select(r, g, b), g: self.g.select(r, g, b), b: self.b.select(r, g, b) }
    }

    pub fn from_names(names: &Option<Vec<String>>) -> (s: Selector)
        requires
            names_ok(*names),
        ensures
            s == selector_of(*names),
    {
        match names {
            None => Selector { r: Channel::Red, g: Channel::Green, b: Channel::Blue },
            Some(v) => Selector {
                r: Channel::from_name(v[0].as_str()),
                g: Channel::from_name(v[1].as_str()),
                b: Channel::from_name(v[2].as_str()),
            },
        }
    }

    pub fn apply(self, r: u8, g: u8, b: u8) -> (c: Rgb)
        ensures
            c == self.remap(r, g, b),
    {
        Rgb { r: self.r.pick(r, g, b), g: self.g.pick(r, g, b), b: self.b.pick(r, g, b) }
    }
}

/// The channel of `color` that `name` selects, or 0 when `name` is no channel.
pub fn get_channel_by_name_rgb_color(name: &str, color: &Rgb) -> (v: u8)
    ensures
        v == channel_of_name(name@).select(color.r, color.g, color.b),
{
    Channel::from_name(name).pick(color.r, color.g, color.b)
}

/// The channel of `color` that `name` selects, or 0 when `name` is no
/// channel; alpha is never selected.
pub fn get_channel_by_name_rgba_u8(name: &str, color: &Rgba) -> (v: u8)
    ensures
        v == channel_of_name(name@).select(color.r, color.g, color.b),
{
    Channel::from_name(name).pick(color.r, color.g, color.b)
}

} // verus!
