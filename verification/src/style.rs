//! Stroke and fill styling, and the pairing of a shape with a style.

use vstd::prelude::*;
use crate::geometry::Point;

verus! {

/// How a shape is painted. A colour that is absent paints nothing.
#[derive(Copy, Clone, PartialEq, Eq, Hash, Debug)]
pub struct PrimitiveStyle<C> {
    pub stroke_color: Option<C>,
    pub stroke_width: u32,
    pub fill_color: Option<C>,
}

/// A shape together with the style it is painted in.
#[derive(Copy, Clone, PartialEq, Eq, Hash, Debug)]
pub struct Styled<T, S> {
    pub primitive: T,
    pub style: S,
}

/// One coloured pixel: where it is and what colour it has.
#[derive(Copy, Clone, PartialEq, Eq, Hash, Debug)]
pub struct Pixel<C>(pub Point, pub C);

impl<C: Copy> PrimitiveStyle<C> {
    /// The stroke width that geometry works with: zero when there is no
    /// stroke colour, whatever `stroke_width` holds.
    pub open spec fn effective_stroke_width_spec(self) -> u32 {
        if self.stroke_color.is_none() {
            0
        } else {
            self.stroke_width
        }
    }

    /// Neither a stroke colour nor a fill colour is present.
    pub open spec fn is_transparent_spec(self) -> bool {
        self.stroke_color.is_none() && self.fill_color.is_none()
    }

    /// A style that fills with `color` and has no stroke.
    pub fn with_fill(color: C) -> (s: Self)
        ensures
            s == (PrimitiveStyle { stroke_color: None::<C>, stroke_width: 0, fill_color: Some(color) }),
    {
        PrimitiveStyle { stroke_color: None, stroke_width: 0, fill_color: Some(color) }
    }

    /// A style that strokes with `color` at `width` and has no fill.
    pub fn with_stroke(color: C, width: u32) -> (s: Self)
        ensures
            s == (PrimitiveStyle { stroke_color: Some(color), stroke_width: width, fill_color: None::<C> }),
    {
        PrimitiveStyle { stroke_color: Some(color), stroke_width: width, fill_color: None }
    }

    /// The stroke width after normalisation: zero when no stroke colour is
    /// set.
    pub fn effective_stroke_width(&self) -> (w: u32)
        ensures
            w == self.effective_stroke_width_spec(),
    {
        match self.stroke_color {
            Some(_) => self.stroke_width,
            None => 0,
        }
    }

    /// Whether the style paints nothing at all because both colours are
    /// absent.
    pub fn is_transparent(&self) -> (t: bool)
        ensures
            t == self.is_transparent_spec(),
    {
        self.stroke_color.is_none() && self.fill_color.is_none()
    }
}

impl<T, S> Styled<T, S> {
    pub fn new(primitive: T, style: S) -> (s: Self)
        ensures
            s.primitive == primitive,
            s.style == style,
    {
        Styled { primitive, style }
    }
}

} // verus!
