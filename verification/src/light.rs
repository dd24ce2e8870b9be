//! Light values as stored per cube: three channels of eight bits in fixed
//! point, where [`LIGHT_UNIT`] stands for the linear light value 1.

use crate::color::Rgb;
use vstd::prelude::*;

verus! {

/// One channel of a [`PackedLight`].
pub type PackedLightScalar = u8;

/// The stored value of the linear light value 1.
pub const LIGHT_UNIT: PackedLightScalar = 64;

/// Colour units per step of a stored light channel.
pub const COLOR_PER_LIGHT: i32 = 1024;

/// The stored channel for a linear component given in colour units: the
/// component in steps of 1/64, rounded towards zero and held to one byte.
pub open spec fn pack_channel(c: int) -> int {
    if c <= 0 {
        0
    } else if c / 1024 >= 255 {
        255
    } else {
        c / 1024
    }
}

/// The distance between two stored channels.
pub open spec fn channel_difference(a: int, b: int) -> int {
    if a >= b {
        a - b
    } else {
        b - a
    }
}

/// The greater of two integers.
pub open spec fn max_int(a: int, b: int) -> int {
    if a >= b {
        a
    } else {
        b
    }
}

/// Lighting within a space: a colour stored with reduced precision and range.
#[derive(Clone, Copy, Debug, PartialEq, Eq, Hash, Structural)]
pub struct PackedLight {
    pub r: PackedLightScalar,
    pub g: PackedLightScalar,
    pub b: PackedLightScalar,
}

impl PackedLight {
    /// The value that stands for light from the sky, and for the light of a
    /// cube that has not been computed yet.
    pub open spec fn sky_spec() -> PackedLight {
        PackedLight { r: 64, g: 64, b: 64 }
    }

    /// The value of a cube that no light reaches.
    pub open spec fn dark_spec() -> PackedLight {
        PackedLight { r: 0, g: 0, b: 0 }
    }

    /// The stored form of a colour whose components are given in colour
    /// units.
    pub open spec fn pack(r: int, g: int, b: int) -> PackedLight {
        PackedLight {
            r: pack_channel(r) as u8,
            g: pack_channel(g) as u8,
            b: pack_channel(b) as u8,
        }
    }

    /// The largest distance between corresponding channels of two values.
    pub open spec fn difference(self, other: PackedLight) -> int {
        max_int(
            max_int(
                channel_difference(self.r as int, other.r as int),
                channel_difference(self.g as int, other.g as int),
            ),
            channel_difference(self.b as int, other.b as int),
        )
    }

    /// The colour that this value stands for.
    pub open spec fn unpack(self) -> Rgb {
        Rgb {
            r: (self.r as int * 1024) as i32,
            g: (self.g as int * 1024) as i32,
            b: (self.b as int * 1024) as i32,
        }
    }

    /// The light of a cube in a newly made space, before it is computed.
    pub fn initial() -> (l: PackedLight)
        ensures
            l == PackedLight::sky_spec(),
    {
        PackedLight { r: LIGHT_UNIT, g: LIGHT_UNIT, b: LIGHT_UNIT }
    }

    /// Light that is taken to exist in all directions outside a space.
    pub fn sky() -> (l: PackedLight)
        ensures
            l == PackedLight::sky_spec(),
    {
        PackedLight { r: LIGHT_UNIT, g: LIGHT_UNIT, b: LIGHT_UNIT }
    }

    /// Stores a colour whose components are wider than those of [`Rgb`],
    /// as sums and averages of colours are.
    pub fn from_components(r: i64, g: i64, b: i64) -> (l: PackedLight)
        ensures
            l == PackedLight::pack(r as int, g as int, b as int),
    {
        PackedLight { r: pack_one(r), g: pack_one(g), b: pack_one(b) }
    }

    /// The largest per-channel distance to `other`, in stored steps. Two
    /// values are the same light exactly when this is zero.
    pub fn difference_magnitude(self, other: PackedLight) -> (d: PackedLightScalar)
        ensures
            d == self.difference(other),
            d == 0 <==> self == other,
    {
        let dr = difference_of(self.r, other.r);
        let dg = difference_of(self.g, other.g);
        let db = difference_of(self.b, other.b);
        let m = if dr >= dg { dr } else { dg };
        if m >= db { m } else { db }
    }

    /// The colour that this value stands for.
    pub fn to_rgb(self) -> (c: Rgb)
        ensures
            c == self.unpack(),
    {
        Rgb {
            r: (self.r as i32) * COLOR_PER_LIGHT,
            g: (self.g as i32) * COLOR_PER_LIGHT,
            b: (self.b as i32) * COLOR_PER_LIGHT,
        }
    }
}

impl From<Rgb> for PackedLight {
    /// Stores a colour, losing precision and range.
    fn from(value: Rgb) -> (l: PackedLight) {
        PackedLight::from_components(value.r as i64, value.g as i64, value.b as i64)
    }
}

impl vstd::std_specs::convert::FromSpecImpl<Rgb> for PackedLight {
    open spec fn obeys_from_spec() -> bool {
        true
    }

    open spec fn from_spec(value: Rgb) -> PackedLight {
        PackedLight::pack(value.r as int, value.g as int, value.b as int)
    }
}

impl From<PackedLight> for Rgb {
    /// The colour that a stored light value stands for.
    fn from(value: PackedLight) -> (c: Rgb) {
        value.to_rgb()
    }
}

impl vstd::std_specs::convert::FromSpecImpl<PackedLight> for Rgb {
    open spec fn obeys_from_spec() -> bool {
        true
    }

    open spec fn from_spec(value: PackedLight) -> Rgb {
        value.unpack()
    }
}

fn pack_one(c: i64) -> (v: PackedLightScalar)
    ensures
        v == pack_channel(c as int),
{
    if c <= 0 {
        0
    } else {
        let steps: i64 = c / 1024;
        if steps >= 255 {
            255
        } else {
            steps as u8
        }
    }
}

fn difference_of(a: PackedLightScalar, b: PackedLightScalar) -> (d: PackedLightScalar)
    ensures
        d == channel_difference(a as int, b as int),
{
    if a >= b {
        a - b
    } else {
        b - a
    }
}

} // verus!
