//! Colours of glyphs, tiles and log lines.

use vstd::prelude::*;

verus! {

/// An RGB colour.
#[derive(Clone, Copy, Debug, PartialEq, Eq, Structural)]
pub struct Color {
    pub r: u8,
    pub g: u8,
    pub b: u8,
}

pub open spec fn spec_black() -> Color {
    Color { r: 0, g: 0, b: 0 }
}

#[verifier::when_used_as_spec(spec_black)]
pub fn black() -> (c: Color)
    ensures
        c == spec_black(),
{
    Color { r: 0, g: 0, b: 0 }
}

pub open spec fn spec_white() -> Color {
    Color { r: 255, g: 255, b: 255 }
}

#[verifier::when_used_as_spec(spec_white)]
pub fn white() -> (c: Color)
    ensures
        c == spec_white(),
{
    Color { r: 255, g: 255, b: 255 }
}

pub open spec fn spec_light_grey() -> Color {
    Color { r: 159, g: 159, b: 159 }
}

#[verifier::when_used_as_spec(spec_light_grey)]
pub fn light_grey() -> (c: Color)
    ensures
        c == spec_light_grey(),
{
    Color { r: 159, g: 159, b: 159 }
}

pub open spec fn spec_red() -> Color {
    Color { r: 255, g: 0, b: 0 }
}

#[verifier::when_used_as_spec(spec_red)]
pub fn red() -> (c: Color)
    ensures
        c == spec_red(),
{
    Color { r: 255, g: 0, b: 0 }
}

pub open spec fn spec_light_red() -> Color {
    Color { r: 255, g: 63, b: 63 }
}

#[verifier::when_used_as_spec(spec_light_red)]
pub fn light_red() -> (c: Color)
    ensures
        c == spec_light_red(),
{
    Color { r: 255, g: 63, b: 63 }
}

pub open spec fn spec_dark_red() -> Color {
    Color { r: 191, g: 0, b: 0 }
}

#[verifier::when_used_as_spec(spec_dark_red)]
pub fn dark_red() -> (c: Color)
    ensures
        c == spec_dark_red(),
{
    Color { r: 191, g: 0, b: 0 }
}

pub open spec fn spec_darker_red() -> Color {
    Color { r: 127, g: 0, b: 0 }
}

#[verifier::when_used_as_spec(spec_darker_red)]
pub fn darker_red() -> (c: Color)
    ensures
        c == spec_darker_red(),
{
    Color { r: 127, g: 0, b: 0 }
}

pub open spec fn spec_orange() -> Color {
    Color { r: 255, g: 127, b: 0 }
}

#[verifier::when_used_as_spec(spec_orange)]
pub fn orange() -> (c: Color)
    ensures
        c == spec_orange(),
{
    Color { r: 255, g: 127, b: 0 }
}

pub open spec fn spec_yellow() -> Color {
    Color { r: 255, g: 255, b: 0 }
}

#[verifier::when_used_as_spec(spec_yellow)]
pub fn yellow() -> (c: Color)
    ensures
        c == spec_yellow(),
{
    Color { r: 255, g: 255, b: 0 }
}

pub open spec fn spec_green() -> Color {
    Color { r: 0, g: 255, b: 0 }
}

#[verifier::when_used_as_spec(spec_green)]
pub fn green() -> (c: Color)
    ensures
        c == spec_green(),
{
    Color { r: 0, g: 255, b: 0 }
}

pub open spec fn spec_desaturated_green() -> Color {
    Color { r: 63, g: 127, b: 63 }
}

#[verifier::when_used_as_spec(spec_desaturated_green)]
pub fn desaturated_green() -> (c: Color)
    ensures
        c == spec_desaturated_green(),
{
    Color { r: 63, g: 127, b: 63 }
}

pub open spec fn spec_darker_green() -> Color {
    Color { r: 0, g: 127, b: 0 }
}

#[verifier::when_used_as_spec(spec_darker_green)]
pub fn darker_green() -> (c: Color)
    ensures
        c == spec_darker_green(),
{
    Color { r: 0, g: 127, b: 0 }
}

pub open spec fn spec_violet() -> Color {
    Color { r: 127, g: 0, b: 255 }
}

#[verifier::when_used_as_spec(spec_violet)]
pub fn violet() -> (c: Color)
    ensures
        c == spec_violet(),
{
    Color { r: 127, g: 0, b: 255 }
}

pub open spec fn spec_light_violet() -> Color {
    Color { r: 159, g: 63, b: 255 }
}

#[verifier::when_used_as_spec(spec_light_violet)]
pub fn light_violet() -> (c: Color)
    ensures
        c == spec_light_violet(),
{
    Color { r: 159, g: 63, b: 255 }
}

pub open spec fn spec_light_yellow() -> Color {
    Color { r: 255, g: 255, b: 63 }
}

#[verifier::when_used_as_spec(spec_light_yellow)]
pub fn light_yellow() -> (c: Color)
    ensures
        c == spec_light_yellow(),
{
    Color { r: 255, g: 255, b: 63 }
}

pub open spec fn spec_light_blue() -> Color {
    Color { r: 63, g: 63, b: 255 }
}

#[verifier::when_used_as_spec(spec_light_blue)]
pub fn light_blue() -> (c: Color)
    ensures
        c == spec_light_blue(),
{
    Color { r: 63, g: 63, b: 255 }
}

/// A wall out of view.
pub open spec fn spec_dark_wall() -> Color {
    Color { r: 0, g: 0, b: 100 }
}

/// A wall out of view.
#[verifier::when_used_as_spec(spec_dark_wall)]
pub fn dark_wall() -> (c: Color)
    ensures
        c == spec_dark_wall(),
{
    Color { r: 0, g: 0, b: 100 }
}

/// Floor out of view.
pub open spec fn spec_dark_ground() -> Color {
    Color { r: 50, g: 50, b: 150 }
}

/// Floor out of view.
#[verifier::when_used_as_spec(spec_dark_ground)]
pub fn dark_ground() -> (c: Color)
    ensures
        c == spec_dark_ground(),
{
    Color { r: 50, g: 50, b: 150 }
}

/// A wall in view.
pub open spec fn spec_light_wall() -> Color {
    Color { r: 130, g: 110, b: 50 }
}

/// A wall in view.
#[verifier::when_used_as_spec(spec_light_wall)]
pub fn light_wall() -> (c: Color)
    ensures
        c == spec_light_wall(),
{
    Color { r: 130, g: 110, b: 50 }
}

/// Floor in view.
pub open spec fn spec_light_ground() -> Color {
    Color { r: 200, g: 180, b: 50 }
}

/// Floor in view.
#[verifier::when_used_as_spec(spec_light_ground)]
pub fn light_ground() -> (c: Color)
    ensures
        c == spec_light_ground(),
{
    Color { r: 200, g: 180, b: 50 }
}

/// The colour in which a tile is drawn: by whether it is in view and whether
/// it is a wall.
pub open spec fn spec_tile_color(visible: bool, wall: bool) -> Color {
    if visible {
        if wall {
            light_wall()
        } else {
            light_ground()
        }
    } else {
        if wall {
            dark_wall()
        } else {
            dark_ground()
        }
    }
}

/// The colour in which a tile is drawn: by whether it is in view and whether
/// it is a wall.
#[verifier::when_used_as_spec(spec_tile_color)]
pub fn tile_color(visible: bool, wall: bool) -> (c: Color)
    ensures
        c == spec_tile_color(visible, wall),
{
    match (visible, wall) {
        (false, false) => dark_ground(),
        (false, true) => dark_wall(),
        (true, false) => light_ground(),
        (true, true) => light_wall(),
    }
}

} // verus!
