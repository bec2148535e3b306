//! The thumbnail's dimensions and crop flag, resolved once per session from
//! the values given on the command line.
use vstd::prelude::*;
use crate::text::{parse_size, size_value};

verus! {

/// The width of a thumbnail when none is given.
pub const DEFAULT_WIDTH: usize = 150;

/// The target of the transformation.
#[derive(PartialEq, Eq, Structural, Clone, Copy, Debug)]
pub struct Config {
    pub width: usize,
    pub height: usize,
    pub crop: bool,
}

/// A dimension that is given but is no unsigned decimal number, with its text.
pub enum DimensionError {
    Width(String),
    Height(String),
}

/// The width: the given text read as a number, or the default.
pub open spec fn width_of(given: Option<Seq<char>>, default_width: usize) -> Option<usize> {
    match given {
        Some(t) => size_value(t),
        None => Some(default_width),
    }
}

/// The height: the given text read as a number, or the width.
pub open spec fn height_of(given: Option<Seq<char>>, width: usize) -> Option<usize> {
    match given {
        Some(t) => size_value(t),
        None => Some(width),
    }
}

pub open spec fn text_of(s: Option<&str>) -> Option<Seq<char>> {
    match s {
        Some(t) => Some(t@),
        None => None,
    }
}

/// Resolves width, height and crop flag. A missing width is `default_width`,
/// a missing height is the width; the first dimension that is given and does
/// not read as a number is refused.
pub fn parse_dimensions(width: Option<&str>, height: Option<&str>, crop: bool, default_width: usize)
    -> (r: Result<Config, DimensionError>)
    ensures
        match r {
            Ok(c) => width_of(text_of(width), default_width) == Some(c.width)
                && height_of(text_of(height), c.width) == Some(c.height)
                && c.crop == crop,
            Err(DimensionError::Width(t)) => width is Some && t@ == width.unwrap()@
                && width_of(text_of(width), default_width) is None,
            Err(DimensionError::Height(t)) => width_of(text_of(width), default_width) is Some
                && height is Some && t@ == height.unwrap()@
                && height_of(text_of(height), width_of(text_of(width), default_width).unwrap()) is None,
        },
{
    let w: usize = match width {
        Some(text) => match parse_size(text) {
            Some(n) => n,
            None => return Err(DimensionError::Width(text.to_string())),
        },
        None => default_width,
    };
    let h: usize = match height {
        Some(text) => match parse_size(text) {
            Some(n) => n,
            None => return Err(DimensionError::Height(text.to_string())),
        },
        None => w,
    };
    Ok(Config { width: w, height: h, crop })
}

} // verus!
