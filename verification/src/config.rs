//! Geometry options of the message box and the font metrics derived from them.

use vstd::prelude::*;

verus! {

/// Number of length units in one pixel, and of ratio units in the ratio one.
pub const UNITS: u64 = 1_000_000;

/// Largest magnitude accepted for any configured length or ratio: a million
/// pixels, or a ratio of a million.
pub const MAX_MAGNITUDE: u64 = 1_000_000_000_000;

/// Smallest font size for which a character column still has a positive width.
pub const MIN_FONT_SIZE: u64 = 3;

/// Height of a glyph for a font of the given size: seven tenths of the size.
pub open spec fn font_height_of(font_size: int) -> int {
    font_size * 7 / 10
}

/// Width of one character column: 67 hundredths of the glyph height.
pub open spec fn font_width_of(font_size: int) -> int {
    font_height_of(font_size) * 67 / 100
}

/// Gap above the first line: 15 hundredths of the glyph height.
pub open spec fn top_margin_of(font_size: int) -> int {
    font_height_of(font_size) * 15 / 100
}

/// Gap between two lines: 43 hundredths of the glyph height.
pub open spec fn line_space_of(font_size: int) -> int {
    font_height_of(font_size) * 43 / 100
}

/// Whether the four options describe a box the layout can work with.
pub open spec fn acceptable(
    font_size: int,
    emote_size_multiplier: int,
    message_box_width: int,
    message_box_vertical_offset: int,
) -> bool {
    &&& MIN_FONT_SIZE <= font_size <= MAX_MAGNITUDE
    &&& 0 <= emote_size_multiplier <= MAX_MAGNITUDE
    &&& 0 <= message_box_width <= MAX_MAGNITUDE
    &&& -(MAX_MAGNITUDE as int) <= message_box_vertical_offset <= MAX_MAGNITUDE
}

/// The geometry options of the message box. The font must be monospaced.
#[derive(Clone, Copy, Debug)]
pub struct Config {
    font_size: u64,
    emote_size_multiplier: u64,
    message_box_width: u64,
    message_box_vertical_offset: i64,
}

impl Config {
    /// Font size in length units.
    pub closed spec fn spec_font_size(&self) -> int {
        self.font_size as int
    }

    /// Ratio of an emote's drawn height to the glyph height, in ratio units.
    pub closed spec fn spec_emote_size_multiplier(&self) -> int {
        self.emote_size_multiplier as int
    }

    /// Width of the message box in length units.
    pub closed spec fn spec_box_width(&self) -> int {
        self.message_box_width as int
    }

    /// Height of the box's lower edge above the avatar, in length units.
    pub closed spec fn spec_vertical_offset(&self) -> int {
        self.message_box_vertical_offset as int
    }

    /// Glyph height in length units.
    pub open spec fn spec_font_height(&self) -> int {
        font_height_of(self.spec_font_size())
    }

    /// Width of one character column in length units.
    pub open spec fn spec_font_width(&self) -> int {
        font_width_of(self.spec_font_size())
    }

    /// Gap above the first line in length units.
    pub open spec fn spec_top_margin(&self) -> int {
        top_margin_of(self.spec_font_size())
    }

    /// Gap between two lines in length units.
    pub open spec fn spec_line_space(&self) -> int {
        line_space_of(self.spec_font_size())
    }

    /// The options are within the accepted magnitudes and a column has a
    /// positive width.
    pub open spec fn wf(&self) -> bool {
        acceptable(
            self.spec_font_size(),
            self.spec_emote_size_multiplier(),
            self.spec_box_width(),
            self.spec_vertical_offset(),
        )
    }

    /// Builds the options, or refuses them when a magnitude is out of range
    /// or the font is too small for a column to have a width.
    pub fn new(
        font_size: u64,
        emote_size_multiplier: u64,
        message_box_width: u64,
        message_box_vertical_offset: i64,
    ) -> (r: Option<Config>)
        ensures
            r is Some <==> acceptable(
                font_size as int,
                emote_size_multiplier as int,
                message_box_width as int,
                message_box_vertical_offset as int,
            ),
            r matches Some(c) ==> {
                &&& c.wf()
                &&& c.spec_font_size() == font_size
                &&& c.spec_emote_size_multiplier() == emote_size_multiplier
                &&& c.spec_box_width() == message_box_width
                &&& c.spec_vertical_offset() == message_box_vertical_offset
            },
    {
        if font_size < MIN_FONT_SIZE || font_size > MAX_MAGNITUDE {
            return None;
        }
        if emote_size_multiplier > MAX_MAGNITUDE || message_box_width > MAX_MAGNITUDE {
            return None;
        }
        if message_box_vertical_offset < -1_000_000_000_000i64
            || message_box_vertical_offset > 1_000_000_000_000i64 {
            return None;
        }
        Some(
            Config {
                font_size,
                emote_size_multiplier,
                message_box_width,
                message_box_vertical_offset,
            },
        )
    }

    /// Font size in length units.
    pub fn font_size(&self) -> (r: u64)
        ensures
            r == self.spec_font_size(),
    {
        self.font_size
    }

    /// Ratio of an emote's drawn height to the glyph height, in ratio units.
    pub fn emote_size_multiplier(&self) -> (r: u64)
        ensures
            r == self.spec_emote_size_multiplier(),
    {
        self.emote_size_multiplier
    }

    /// Width of the message box in length units.
    pub fn message_box_width(&self) -> (r: u64)
        ensures
            r == self.spec_box_width(),
    {
        self.message_box_width
    }

    /// Height of the box's lower edge above the avatar, in length units.
    pub fn message_box_vertical_offset(&self) -> (r: i64)
        ensures
            r == self.spec_vertical_offset(),
    {
        self.message_box_vertical_offset
    }

    /// Glyph height in length units.
    pub fn font_height(&self) -> (r: u64)
        requires
            self.wf(),
        ensures
            r == self.spec_font_height(),
    {
        self.font_size * 7 / 10
    }

    /// Width of one character column in length units.
    pub fn font_width(&self) -> (r: u64)
        requires
            self.wf(),
        ensures
            r == self.spec_font_width(),
            r > 0,
    {
        self.font_height() * 67 / 100
    }

    /// Gap above the first line in length units.
    pub fn top_margin(&self) -> (r: u64)
        requires
            self.wf(),
        ensures
            r == self.spec_top_margin(),
    {
        self.font_height() * 15 / 100
    }

    /// Gap between two lines in length units.
    pub fn line_space(&self) -> (r: u64)
        requires
            self.wf(),
        ensures
            r == self.spec_line_space(),
    {
        self.font_height() * 43 / 100
    }
}

/// The derived metrics of an accepted font size stay within the font size,
/// and a column is at least one unit wide.
pub proof fn lemma_metric_bounds(font_size: int)
    requires
        MIN_FONT_SIZE <= font_size,
    ensures
        0 < font_width_of(font_size) <= font_height_of(font_size) <= font_size,
        0 <= top_margin_of(font_size) <= font_height_of(font_size),
        0 <= line_space_of(font_size) <= font_height_of(font_size),
{
}

} // verus!
