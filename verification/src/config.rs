//! Settings of the stamping tools: where text goes on a page and in what font.

use crate::error::{LibError, Setting};
use crate::number::{exceeds, is_at_most_zero, is_below_zero, Real};
use crate::pdf::integer_as_real;
use vstd::prelude::*;

verus! {

/// The default font size, in points.
pub const DEFAULT_FONT_SIZE: i64 = 12;

/// The bit pattern of the default font size.
pub const DEFAULT_FONT_SIZE_BITS: u32 = 0x4140_0000;

/// The default distance from the corner, in points.
pub const DEFAULT_OFFSET: i64 = 10;

/// The bit pattern of the default distance from the corner.
pub const DEFAULT_OFFSET_BITS: u32 = 0x4120_0000;

/// The bit pattern of 72, the largest font size in points.
pub const LARGEST_FONT_SIZE_BITS: u32 = 0x4290_0000;

/// The bit pattern of 100, the largest distance from the corner in points.
pub const LARGEST_OFFSET_BITS: u32 = 0x42C8_0000;

/// The page corner that a stamped text is anchored to.
#[derive(Debug, Clone, Copy, PartialEq, Eq, Structural)]
pub enum Corner {
    TopLeft,
    TopRight,
    BottomLeft,
    BottomRight,
}

impl Default for Corner {
    fn default() -> (corner: Self)
        ensures
            corner == Corner::TopRight,
    {
        Corner::TopRight
    }
}

/// The font of a text: its family, its size in points, and a family to try
/// when the first cannot be loaded.
#[derive(Debug)]
pub struct FontConfig {
    pub size: Real,
    pub family: String,
    pub fallback: Option<String>,
}

impl Default for FontConfig {
    fn default() -> (font: Self)
        ensures
            font.size.bits() == integer_as_real(DEFAULT_FONT_SIZE),
            font.size.bits() == DEFAULT_FONT_SIZE_BITS,
            font.family@ == "Helvetica"@,
            font.fallback matches Some(family) && family@ == "Arial"@,
    {
        FontConfig {
            size: default_font_size(),
            family: default_font_family(),
            fallback: Some("Arial".to_string()),
        }
    }
}

impl Clone for FontConfig {
    fn clone(&self) -> (copy: Self)
        ensures
            copy.size.bits() == self.size.bits(),
            copy.family@ == self.family@,
            match self.fallback {
                Some(family) => copy.fallback matches Some(other) && other@ == family@,
                None => copy.fallback is None,
            },
    {
        FontConfig {
            size: self.size.clone(),
            family: self.family.clone(),
            fallback: match &self.fallback {
                Some(family) => Some(family.clone()),
                None => None,
            },
        }
    }
}

/// Where a text is anchored: a corner and the distance from it, in points.
#[derive(Debug)]
pub struct PositionConfig {
    pub corner: Corner,
    pub x_offset: Real,
    pub y_offset: Real,
}

impl Default for PositionConfig {
    fn default() -> (position: Self)
        ensures
            position.corner == Corner::TopRight,
            position.x_offset.bits() == integer_as_real(DEFAULT_OFFSET),
            position.y_offset.bits() == integer_as_real(DEFAULT_OFFSET),
            position.x_offset.bits() == DEFAULT_OFFSET_BITS,
            position.y_offset.bits() == DEFAULT_OFFSET_BITS,
    {
        PositionConfig {
            corner: Corner::default(),
            x_offset: default_offset(),
            y_offset: default_offset(),
        }
    }
}

impl Clone for PositionConfig {
    fn clone(&self) -> (copy: Self)
        ensures
            copy.corner == self.corner,
            copy.x_offset.bits() == self.x_offset.bits(),
            copy.y_offset.bits() == self.y_offset.bits(),
    {
        PositionConfig {
            corner: self.corner,
            x_offset: self.x_offset.clone(),
            y_offset: self.y_offset.clone(),
        }
    }
}

/// The font size that is used where none is given: 12 points.
pub fn default_font_size() -> (size: Real)
    ensures
        size.bits() == integer_as_real(DEFAULT_FONT_SIZE),
        size.bits() == DEFAULT_FONT_SIZE_BITS,
{
    Real::from_integer(DEFAULT_FONT_SIZE)
}

/// The family that is used where none is named.
pub fn default_font_family() -> (family: String)
    ensures
        family@ == "Helvetica"@,
{
    "Helvetica".to_string()
}

/// The distance from the corner that is used where none is given: 10
/// points.
pub fn default_offset() -> (offset: Real)
    ensures
        offset.bits() == integer_as_real(DEFAULT_OFFSET),
        offset.bits() == DEFAULT_OFFSET_BITS,
{
    Real::from_integer(DEFAULT_OFFSET)
}

/// The settings of a batch run.
#[derive(Debug)]
pub struct Config {
    /// The directory that holds the files to process.
    pub input_dir: String,
    /// The directory that the processed files go to.
    pub output_dir: String,
    /// Whether directories below the input directory are processed too.
    pub recursive: bool,
    /// The font of the stamped text.
    pub font: FontConfig,
    /// The place of the stamped text.
    pub position: PositionConfig,
}

/// Whether a font size is out of range: zero or less, or more than 72.
pub open spec fn font_size_out_of_range(bits: u32) -> bool {
    is_at_most_zero(bits) || exceeds(bits, LARGEST_FONT_SIZE_BITS)
}

/// Whether a distance from the corner is out of range: less than zero, or
/// more than 100.
pub open spec fn offset_out_of_range(bits: u32) -> bool {
    is_below_zero(bits) || exceeds(bits, LARGEST_OFFSET_BITS)
}

impl Config {
    /// Whether the numbers of the settings are in range: the font size is
    /// more than 0 and at most 72 points, each distance from the corner at
    /// least 0 and at most 100 points.
    pub open spec fn is_in_range(self) -> bool {
        &&& !font_size_out_of_range(self.font.size.bits())
        &&& !offset_out_of_range(self.position.x_offset.bits())
        &&& !offset_out_of_range(self.position.y_offset.bits())
    }

    /// The settings that are used where none are given. Their numbers are
    /// in range.
    pub fn default() -> (config: Self)
        ensures
            config.input_dir@ == "./input"@,
            config.output_dir@ == "./output"@,
            !config.recursive,
            config.font.size.bits() == integer_as_real(DEFAULT_FONT_SIZE),
            config.font.family@ == "Helvetica"@,
            config.font.fallback matches Some(family) && family@ == "Arial"@,
            config.position.corner == Corner::TopRight,
            config.position.x_offset.bits() == integer_as_real(DEFAULT_OFFSET),
            config.position.y_offset.bits() == integer_as_real(DEFAULT_OFFSET),
            config.is_in_range(),
    {
        Config {
            input_dir: "./input".to_string(),
            output_dir: "./output".to_string(),
            recursive: false,
            font: FontConfig::default(),
            position: PositionConfig::default(),
        }
    }

    /// Checks the numbers of the settings: the font size must be more than 0
    /// and at most 72 points, each distance from the corner at least 0 and
    /// at most 100 points. The first setting out of range is reported, in
    /// this order: font size, horizontal distance, vertical distance.
    /// Whether the directories exist is for the caller to check.
    pub fn validate(&self) -> (r: Result<(), LibError>)
        ensures
            match r {
                Ok(()) => self.is_in_range(),
                Err(LibError::Configuration(Setting::FontSize)) => font_size_out_of_range(
                    self.font.size.bits(),
                ),
                Err(LibError::Configuration(Setting::XOffset)) => !font_size_out_of_range(
                    self.font.size.bits(),
                ) && offset_out_of_range(self.position.x_offset.bits()),
                Err(LibError::Configuration(Setting::YOffset)) => !font_size_out_of_range(
                    self.font.size.bits(),
                ) && !offset_out_of_range(self.position.x_offset.bits()) && offset_out_of_range(
                    self.position.y_offset.bits(),
                ),
                Err(_) => false,
            },
    {
        if self.font.size.is_at_most_zero() || self.font.size.exceeds(LARGEST_FONT_SIZE_BITS) {
            return Err(LibError::Configuration(Setting::FontSize));
        }
        if self.position.x_offset.is_below_zero() || self.position.x_offset.exceeds(
            LARGEST_OFFSET_BITS,
        ) {
            return Err(LibError::Configuration(Setting::XOffset));
        }
        if self.position.y_offset.is_below_zero() || self.position.y_offset.exceeds(
            LARGEST_OFFSET_BITS,
        ) {
            return Err(LibError::Configuration(Setting::YOffset));
        }
        Ok(())
    }
}

} // verus!
