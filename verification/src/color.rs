//! Linear colour values in fixed point.
//!
//! Every component is a signed count of [`COLOR_UNIT`]-ths, so the nominal
//! range 0 to 1 is the integer range 0 to `COLOR_UNIT`. Larger values stand
//! for overexposed light sources; negative values are permitted and carry no
//! meaning of their own.

use vstd::prelude::*;

verus! {

/// Number of fixed-point steps that make up the colour value 1.
pub const COLOR_UNIT: i32 = 65536;

/// The 8-bit value of one fixed-point component: `c / COLOR_UNIT * 255`,
/// rounded towards zero and held to the range of a byte.
pub open spec fn saturating_byte(c: int) -> int {
    if c <= 0 {
        0
    } else if c * 255 / 65536 >= 255 {
        255
    } else {
        c * 255 / 65536
    }
}

/// The fixed-point component of an 8-bit value: `x / 255` in colour units,
/// rounded down.
pub open spec fn byte_component(x: int) -> int {
    x * 65536 / 255
}

/// An RGB colour value. Components are linear (gamma = 1).
#[derive(Clone, Copy, Debug, PartialEq, Eq, Hash, Structural)]
pub struct Rgb {
    pub r: i32,
    pub g: i32,
    pub b: i32,
}

/// An RGBA colour value. Components are linear and the alpha is not
/// premultiplied. An alpha of zero or less counts as fully transparent, and
/// one of `COLOR_UNIT` or more as fully opaque; such values are kept as they
/// are rather than clipped.
#[derive(Clone, Copy, Debug, PartialEq, Eq, Hash, Structural)]
pub struct Rgba {
    pub r: i32,
    pub g: i32,
    pub b: i32,
    pub a: i32,
}

impl Rgb {
    /// Black.
    pub fn zero() -> (c: Rgb)
        ensures
            c == (Rgb { r: 0, g: 0, b: 0 }),
    {
        Rgb { r: 0, g: 0, b: 0 }
    }

    /// White (unity brightness).
    pub fn one() -> (c: Rgb)
        ensures
            c == (Rgb { r: 65536, g: 65536, b: 65536 }),
    {
        Rgb { r: COLOR_UNIT, g: COLOR_UNIT, b: COLOR_UNIT }
    }

    /// Constructs a colour from its components, each in colour units.
    pub fn new(r: i32, g: i32, b: i32) -> (c: Rgb)
        ensures
            c == (Rgb { r, g, b }),
    {
        Rgb { r, g, b }
    }

    /// Adds an alpha component to produce an [`Rgba`] colour.
    pub fn with_alpha(self, alpha: i32) -> (c: Rgba)
        ensures
            c == (Rgba { r: self.r, g: self.g, b: self.b, a: alpha }),
    {
        Rgba { r: self.r, g: self.g, b: self.b, a: alpha }
    }

    /// Adds an alpha component of one (fully opaque).
    pub fn with_alpha_one(self) -> (c: Rgba)
        ensures
            c == (Rgba { r: self.r, g: self.g, b: self.b, a: COLOR_UNIT }),
    {
        self.with_alpha(COLOR_UNIT)
    }

    /// The red component.
    pub fn red(self) -> (v: i32)
        ensures
            v == self.r,
    {
        self.r
    }

    /// The green component.
    pub fn green(self) -> (v: i32)
        ensures
            v == self.g,
    {
        self.g
    }

    /// The blue component.
    pub fn blue(self) -> (v: i32)
        ensures
            v == self.b,
    {
        self.b
    }
}

impl Rgba {
    /// Transparent black: all components zero.
    pub fn transparent() -> (c: Rgba)
        ensures
            c == (Rgba { r: 0, g: 0, b: 0, a: 0 }),
    {
        Rgba { r: 0, g: 0, b: 0, a: 0 }
    }

    /// Opaque black.
    pub fn black() -> (c: Rgba)
        ensures
            c == (Rgba { r: 0, g: 0, b: 0, a: 65536 }),
    {
        Rgba { r: 0, g: 0, b: 0, a: COLOR_UNIT }
    }

    /// Opaque nominal white. Brighter values exist.
    pub fn white() -> (c: Rgba)
        ensures
            c == (Rgba { r: 65536, g: 65536, b: 65536, a: 65536 }),
    {
        Rgba { r: COLOR_UNIT, g: COLOR_UNIT, b: COLOR_UNIT, a: COLOR_UNIT }
    }

    /// Constructs a colour from its components, each in colour units.
    pub fn new(r: i32, g: i32, b: i32, a: i32) -> (c: Rgba)
        ensures
            c == (Rgba { r, g, b, a }),
    {
        Rgba { r, g, b, a }
    }

    /// The red component.
    pub fn red(self) -> (v: i32)
        ensures
            v == self.r,
    {
        self.r
    }

    /// The green component.
    pub fn green(self) -> (v: i32)
        ensures
            v == self.g,
    {
        self.g
    }

    /// The blue component.
    pub fn blue(self) -> (v: i32)
        ensures
            v == self.b,
    {
        self.b
    }

    /// The alpha component, which may lie outside the range 0 to 1.
    pub fn alpha(self) -> (v: i32)
        ensures
            v == self.a,
    {
        self.a
    }

    /// Whether the alpha component is zero or less.
    pub open spec fn is_fully_transparent(self) -> bool {
        self.a <= 0
    }

    /// Whether the alpha component is one or more.
    pub open spec fn is_fully_opaque(self) -> bool {
        self.a >= 65536
    }

    /// Whether this colour is fully transparent.
    pub fn fully_transparent(self) -> (t: bool)
        ensures
            t == self.is_fully_transparent(),
    {
        self.a <= 0
    }

    /// Whether this colour is fully opaque.
    pub fn fully_opaque(self) -> (o: bool)
        ensures
            o == self.is_fully_opaque(),
    {
        self.a >= COLOR_UNIT
    }

    /// Discards the alpha component.
    pub fn to_rgb(self) -> (c: Rgb)
        ensures
            c == (Rgb { r: self.r, g: self.g, b: self.b }),
    {
        Rgb { r: self.r, g: self.g, b: self.b }
    }

    /// Converts this colour lossily to 8 bits per component, saturating at
    /// both ends of the range.
    pub fn to_saturating_32bit(self) -> (bytes: (u8, u8, u8, u8))
        ensures
            bytes.0 == saturating_byte(self.r as int),
            bytes.1 == saturating_byte(self.g as int),
            bytes.2 == saturating_byte(self.b as int),
            bytes.3 == saturating_byte(self.a as int),
    {
        (
            component_to_byte(self.r),
            component_to_byte(self.g),
            component_to_byte(self.b),
            component_to_byte(self.a),
        )
    }

    /// Converts 8-bit components to a colour.
    pub fn from_32bit(bytes: (u8, u8, u8, u8)) -> (c: Rgba)
        ensures
            c.r == byte_component(bytes.0 as int),
            c.g == byte_component(bytes.1 as int),
            c.b == byte_component(bytes.2 as int),
            c.a == byte_component(bytes.3 as int),
    {
        Rgba {
            r: byte_to_component(bytes.0),
            g: byte_to_component(bytes.1),
            b: byte_to_component(bytes.2),
            a: byte_to_component(bytes.3),
        }
    }
}

/// The component nearest to a number: the number itself, or the end of the
/// range of components that it lies beyond.
pub open spec fn saturated(value: int) -> i32 {
    if value > i32::MAX {
        i32::MAX
    } else if value < i32::MIN {
        i32::MIN
    } else {
        value as i32
    }
}

/// The quotient of two numbers rounded towards zero.
pub open spec fn quotient_towards_zero(a: int, b: int) -> int {
    if a >= 0 {
        a / b
    } else {
        -((-a) / b)
    }
}

/// The product of two components in fixed point, rounded towards zero and
/// held to the range of components.
pub open spec fn component_product(a: i32, b: i32) -> i32 {
    saturated(quotient_towards_zero(a * b, 65536))
}

fn saturate(value: i64) -> (component: i32)
    ensures
        component == saturated(value as int),
{
    if value > i32::MAX as i64 {
        i32::MAX
    } else if value < i32::MIN as i64 {
        i32::MIN
    } else {
        value as i32
    }
}

fn multiply(a: i32, b: i32) -> (product: i32)
    ensures
        product == component_product(a, b),
{
    assert(-0x8000_0000 * 0x8000_0000 <= a * b <= 0x8000_0000 * 0x8000_0000) by (nonlinear_arith)
        requires
            -0x8000_0000 <= a <= 0x8000_0000,
            -0x8000_0000 <= b <= 0x8000_0000,
    ;
    let wide: i64 = a as i64 * b as i64;
    saturate(wide / 65536)
}

impl core::ops::Add for Rgb {
    type Output = Rgb;

    /// The sum of two colours, component by component, held to the range of
    /// components.
    fn add(self, other: Rgb) -> (sum: Rgb) {
        Rgb {
            r: saturate(self.r as i64 + other.r as i64),
            g: saturate(self.g as i64 + other.g as i64),
            b: saturate(self.b as i64 + other.b as i64),
        }
    }
}

impl vstd::std_specs::ops::AddSpecImpl for Rgb {
    open spec fn obeys_add_spec() -> bool {
        true
    }

    open spec fn add_req(self, other: Rgb) -> bool {
        true
    }

    open spec fn add_spec(self, other: Rgb) -> Rgb {
        Rgb {
            r: saturated(self.r + other.r),
            g: saturated(self.g + other.g),
            b: saturated(self.b + other.b),
        }
    }
}

impl core::ops::Sub for Rgb {
    type Output = Rgb;

    /// The difference of two colours, component by component, held to the
    /// range of components.
    fn sub(self, other: Rgb) -> (difference: Rgb) {
        Rgb {
            r: saturate(self.r as i64 - other.r as i64),
            g: saturate(self.g as i64 - other.g as i64),
            b: saturate(self.b as i64 - other.b as i64),
        }
    }
}

impl vstd::std_specs::ops::SubSpecImpl for Rgb {
    open spec fn obeys_sub_spec() -> bool {
        true
    }

    open spec fn sub_req(self, other: Rgb) -> bool {
        true
    }

    open spec fn sub_spec(self, other: Rgb) -> Rgb {
        Rgb {
            r: saturated(self.r - other.r),
            g: saturated(self.g - other.g),
            b: saturated(self.b - other.b),
        }
    }
}

impl core::ops::Mul for Rgb {
    type Output = Rgb;

    /// The product of two colours, component by component.
    fn mul(self, other: Rgb) -> (product: Rgb) {
        Rgb {
            r: multiply(self.r, other.r),
            g: multiply(self.g, other.g),
            b: multiply(self.b, other.b),
        }
    }
}

impl vstd::std_specs::ops::MulSpecImpl for Rgb {
    open spec fn obeys_mul_spec() -> bool {
        true
    }

    open spec fn mul_req(self, other: Rgb) -> bool {
        true
    }

    open spec fn mul_spec(self, other: Rgb) -> Rgb {
        Rgb {
            r: component_product(self.r, other.r),
            g: component_product(self.g, other.g),
            b: component_product(self.b, other.b),
        }
    }
}

impl core::ops::Mul<i32> for Rgb {
    type Output = Rgb;

    /// The colour scaled by a scalar in colour units.
    fn mul(self, scalar: i32) -> (product: Rgb) {
        Rgb {
            r: multiply(self.r, scalar),
            g: multiply(self.g, scalar),
            b: multiply(self.b, scalar),
        }
    }
}

impl vstd::std_specs::ops::MulSpecImpl<i32> for Rgb {
    open spec fn obeys_mul_spec() -> bool {
        true
    }

    open spec fn mul_req(self, scalar: i32) -> bool {
        true
    }

    open spec fn mul_spec(self, scalar: i32) -> Rgb {
        Rgb {
            r: component_product(self.r, scalar),
            g: component_product(self.g, scalar),
            b: component_product(self.b, scalar),
        }
    }
}

impl core::ops::Add for Rgba {
    type Output = Rgba;

    /// The sum of two colours, component by component and alpha by alpha,
    /// held to the range of components.
    fn add(self, other: Rgba) -> (sum: Rgba) {
        Rgba {
            r: saturate(self.r as i64 + other.r as i64),
            g: saturate(self.g as i64 + other.g as i64),
            b: saturate(self.b as i64 + other.b as i64),
            a: saturate(self.a as i64 + other.a as i64),
        }
    }
}

impl vstd::std_specs::ops::AddSpecImpl for Rgba {
    open spec fn obeys_add_spec() -> bool {
        true
    }

    open spec fn add_req(self, other: Rgba) -> bool {
        true
    }

    open spec fn add_spec(self, other: Rgba) -> Rgba {
        Rgba {
            r: saturated(self.r + other.r),
            g: saturated(self.g + other.g),
            b: saturated(self.b + other.b),
            a: saturated(self.a + other.a),
        }
    }
}

impl core::ops::Sub for Rgba {
    type Output = Rgba;

    /// The difference of two colours, component by component and alpha by
    /// alpha, held to the range of components.
    fn sub(self, other: Rgba) -> (difference: Rgba) {
        Rgba {
            r: saturate(self.r as i64 - other.r as i64),
            g: saturate(self.g as i64 - other.g as i64),
            b: saturate(self.b as i64 - other.b as i64),
            a: saturate(self.a as i64 - other.a as i64),
        }
    }
}

impl vstd::std_specs::ops::SubSpecImpl for Rgba {
    open spec fn obeys_sub_spec() -> bool {
        true
    }

    open spec fn sub_req(self, other: Rgba) -> bool {
        true
    }

    open spec fn sub_spec(self, other: Rgba) -> Rgba {
        Rgba {
            r: saturated(self.r - other.r),
            g: saturated(self.g - other.g),
            b: saturated(self.b - other.b),
            a: saturated(self.a - other.a),
        }
    }
}

fn component_to_byte(c: i32) -> (byte: u8)
    ensures
        byte == saturating_byte(c as int),
{
    if c <= 0 {
        0
    } else {
        let scaled: i64 = (c as i64) * 255 / 65536;
        if scaled >= 255 {
            255
        } else {
            scaled as u8
        }
    }
}

fn byte_to_component(x: u8) -> (c: i32)
    ensures
        c == byte_component(x as int),
{
    ((x as i64) * 65536 / 255) as i32
}

} // verus!
