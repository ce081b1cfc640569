//! Shapes and texture views handled by the rendering core.
//!
//! Color channels are carried as opaque 32-bit encodings of the driver's
//! scalar type: the core never computes with a channel's value, it only
//! routes it to the draw call, so the encoding is passed through untouched.

use vstd::prelude::*;

verus! {

/// Bit pattern of the driver scalar that multiplies a color channel by one
/// (the neutral modulation).
pub const UNIT_CHANNEL: u32 = 0x3F80_0000;

/// A driver texture: an opaque identifier plus its immutable dimensions.
#[derive(Clone, Copy, Debug, PartialEq, Eq)]
pub struct Texture {
    /// Opaque driver identifier.
    pub id: u32,
    /// Width in pixels.
    pub width: u32,
    /// Height in pixels.
    pub height: u32,
}

/// A read-only rectangular view into a texture's pixel space.
#[derive(Clone, Copy, Debug, PartialEq, Eq)]
pub struct TextureSection {
    /// The texture the section reads from.
    pub texture: Texture,
    /// Top-left corner of the section, in texture pixels.
    pub offset: (u32, u32),
    /// Width and height of the section, in texture pixels.
    pub extent: (u32, u32),
}

/// A shape to be drawn: a bordered rectangle in surface space.
#[derive(Clone, Copy, Debug, PartialEq, Eq)]
pub struct Rectangle {
    /// Top-left corner in surface space.
    pub position: (i32, i32),
    /// Width and height; both must be positive.
    pub size: (u32, u32),
    /// Multiplicative tint, one encoded channel each for red, green, blue.
    pub color: (u32, u32, u32),
}

/// Per-draw-call parameters: tint and axis mirroring.
#[derive(Clone, Copy, Debug, PartialEq, Eq)]
pub struct DrawConfig {
    /// Encoded red, green and blue multipliers; the driver applies them as
    /// a diagonal multiply with the alpha multiplier fixed at one.
    pub color_modulation: (u32, u32, u32),
    /// Mirror the section around its vertical center line.
    pub flip_horizontally: bool,
    /// Mirror the section around its horizontal center line.
    pub flip_vertically: bool,
}

/// One textured-quad draw call: which section of which texture is drawn,
/// where its top-left corner lands in surface space, and how it is tinted
/// and mirrored.
#[derive(Clone, Copy, Debug, PartialEq, Eq)]
pub struct QuadDraw {
    /// The texture pixels the quad samples.
    pub section: TextureSection,
    /// Top-left corner of the quad in surface space.
    pub position: (i32, i32),
    /// Tint and mirroring of this draw.
    pub config: DrawConfig,
}

impl Texture {
    /// Both dimensions are positive.
    pub open spec fn wf(self) -> bool {
        self.width > 0 && self.height > 0
    }

    /// The section covering the whole texture.
    pub open spec fn spec_full_section(self) -> TextureSection {
        TextureSection { texture: self, offset: (0, 0), extent: (self.width, self.height) }
    }

    /// The section covering the whole texture.
    pub fn full_section(&self) -> (section: TextureSection)
        ensures
            section == self.spec_full_section(),
    {
        TextureSection { texture: *self, offset: (0, 0), extent: (self.width, self.height) }
    }

    /// A rectangular view into this texture.
    pub fn section(&self, offset: (u32, u32), extent: (u32, u32)) -> (section: TextureSection)
        requires
            offset.0 + extent.0 <= self.width,
            offset.1 + extent.1 <= self.height,
        ensures
            section == (TextureSection { texture: *self, offset, extent }),
    {
        TextureSection { texture: *self, offset, extent }
    }
}

impl TextureSection {
    /// The section lies within its texture's pixel space.
    pub open spec fn wf(self) -> bool {
        &&& self.offset.0 + self.extent.0 <= self.texture.width
        &&& self.offset.1 + self.extent.1 <= self.texture.height
    }
}

impl Rectangle {
    /// Both dimensions are positive.
    pub open spec fn wf(self) -> bool {
        self.size.0 > 0 && self.size.1 > 0
    }
}

impl DrawConfig {
    /// A configuration tinting with `color` and mirroring as asked.
    pub open spec fn spec_new(color: (u32, u32, u32), flip_horizontally: bool, flip_vertically: bool) -> DrawConfig {
        DrawConfig { color_modulation: color, flip_horizontally, flip_vertically }
    }
}

impl Default for DrawConfig {
    /// Neutral parameters: unit tint on every channel, no mirroring.
    fn default() -> (config: DrawConfig)
        ensures
            config == DrawConfig::spec_new((UNIT_CHANNEL, UNIT_CHANNEL, UNIT_CHANNEL), false, false),
    {
        DrawConfig {
            color_modulation: (UNIT_CHANNEL, UNIT_CHANNEL, UNIT_CHANNEL),
            flip_horizontally: false,
            flip_vertically: false,
        }
    }
}

/// The sixteen entries, row by row, of the diagonal color-modulation matrix
/// derived from `color`: the encoded red, green and blue multipliers on the
/// diagonal, the unit multiplier in the alpha slot, zero everywhere else.
pub open spec fn modulation_entries(color: (u32, u32, u32)) -> Seq<u32> {
    seq![
        color.0, 0, 0, 0,
        0, color.1, 0, 0,
        0, 0, color.2, 0,
        0, 0, 0, UNIT_CHANNEL,
    ]
}

/// Builds the color-modulation matrix for `color`, row by row.
pub fn modulation_matrix(color: (u32, u32, u32)) -> (matrix: Vec<u32>)
    ensures
        matrix@ == modulation_entries(color),
{
    let mut matrix: Vec<u32> = Vec::new();
    matrix.push(color.0);
    matrix.push(0);
    matrix.push(0);
    matrix.push(0);
    matrix.push(0);
    matrix.push(color.1);
    matrix.push(0);
    matrix.push(0);
    matrix.push(0);
    matrix.push(0);
    matrix.push(color.2);
    matrix.push(0);
    matrix.push(0);
    matrix.push(0);
    matrix.push(0);
    matrix.push(UNIT_CHANNEL);
    proof {
        assert(matrix@ =~= modulation_entries(color));
    }
    matrix
}

} // verus!
