//! Rectangular widgets of the composed display: a window-filling
//! background and a plain button.

use vstd::prelude::*;

use crate::types::{DisplayPosition, DisplaySized, Pixel, Point};

verus! {

/// What can happen to a widget.
pub enum WidgetEvent {
    Hover,
    UnHover,
    Input,
}

/// The backdrop: a rectangle at the origin that takes the window's size.
pub struct Background {
    size: Point<u32>,
}

impl Background {
    /// Takes the window's current size.
    pub fn fit_to_window(&mut self, window_size: Pixel)
        ensures
            final(self).spec_size() == window_size,
    {
        self.size = window_size;
    }
}

impl Default for Background {
    /// A backdrop of no extent, to be fitted to a window later.
    fn default() -> (b: Background)
        ensures
            b.spec_size() == (Point { x: 0u32, y: 0u32 }),
    {
        Background { size: Point::new(0, 0) }
    }
}

impl DisplayPosition for Background {
    /// The backdrop sits at the origin.
    closed spec fn spec_position(&self) -> Point<u32> {
        Point { x: 0u32, y: 0u32 }
    }

    /// The backdrop sits at the origin.
    fn get_position(&self) -> (r: Point<u32>)
        ensures
            r == self.spec_position(),
    {
        Pixel::new(0, 0)
    }
}

impl DisplaySized for Background {
    /// The size last fitted to the window.
    closed spec fn spec_size(&self) -> Point<u32> {
        self.size
    }

    /// The size last fitted to the window.
    fn get_size(&self) -> (r: Point<u32>)
        ensures
            r == self.spec_size(),
    {
        self.size
    }
}

/// A plain rectangular button.
pub struct Button {
    size: Point<u32>,
    position: Point<u32>,
}

impl Button {
    /// A button from its size and position.
    pub fn new(size: Point<u32>, position: Point<u32>) -> (b: Button)
        ensures
            b.spec_size() == size,
            b.spec_position() == position,
    {
        Button { size, position }
    }

    /// A button from its size and position, coordinate by coordinate.
    #[inline]
    pub fn new_u32(sx: u32, sy: u32, px: u32, py: u32) -> (b: Button)
        ensures
            b.spec_size() == (Point { x: sx, y: sy }),
            b.spec_position() == (Point { x: px, y: py }),
    {
        Button { size: Point::new(sx, sy), position: Point::new(px, py) }
    }
}

impl DisplayPosition for Button {
    /// Where the button sits.
    closed spec fn spec_position(&self) -> Point<u32> {
        self.position
    }

    /// Where the button sits.
    #[inline]
    fn get_position(&self) -> (r: Point<u32>)
        ensures
            r == self.spec_position(),
    {
        self.position
    }
}

impl DisplaySized for Button {
    /// The button's extent.
    closed spec fn spec_size(&self) -> Point<u32> {
        self.size
    }

    /// The button's extent.
    #[inline]
    fn get_size(&self) -> (r: Point<u32>)
        ensures
            r == self.spec_size(),
    {
        self.size
    }
}

} // verus!
