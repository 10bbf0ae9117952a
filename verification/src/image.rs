//! Images for the display layer: colored and monochrome pixel
//! rectangles, and a handle that either names an image to be loaded or
//! holds one already loaded.

use vstd::prelude::*;

use crate::types::Rgba;

verus! {

/// Read access to a rectangle of color values.
pub trait ColorRect<C> {
    fn get_bytes(&self) -> &[C];

    fn get_width(&self) -> usize;

    fn get_height(&self) -> usize;
}

/// An owned image: its pixels in row order, and its extent.
pub struct Image {
    pub bytes: Vec<Rgba>,
    pub width: usize,
    pub height: usize,
}

/// A borrowed view of an image.
pub struct ImageRef<'a> {
    pub bytes: &'a [Rgba],
    pub width: usize,
    pub height: usize,
}

/// A monochrome image: one byte of coverage per pixel, in row order.
pub struct MonoImage {
    pub bytes: Vec<u8>,
    pub width: usize,
    pub height: usize,
}

impl Image {
    /// A borrowed view of this image.
    pub fn get_ref(&self) -> (r: ImageRef<'_>)
        ensures
            r.bytes@ == self.bytes@,
            r.width == self.width,
            r.height == self.height,
    {
        ImageRef { bytes: self.bytes.as_slice(), width: self.width, height: self.height }
    }
}

impl ColorRect<Rgba> for Image {
    /// The pixels in row order.
    fn get_bytes(&self) -> &[Rgba] {
        self.bytes.as_slice()
    }

    /// The width in pixels.
    fn get_width(&self) -> usize {
        self.width
    }

    /// The height in pixels.
    fn get_height(&self) -> usize {
        self.height
    }
}

impl ColorRect<u8> for MonoImage {
    /// The coverage bytes in row order.
    fn get_bytes(&self) -> &[u8] {
        self.bytes.as_slice()
    }

    /// The width in pixels.
    fn get_width(&self) -> usize {
        self.width
    }

    /// The height in pixels.
    fn get_height(&self) -> usize {
        self.height
    }
}

/// Either the path of an image still to be loaded, or a loaded image.
pub enum ImageHandle {
    Handle { path: &'static str },
    Image { vector: Vec<Rgba>, width: usize, height: usize },
}

impl ImageHandle {
    /// A copy of the loaded image; `None` while only the path is held.
    pub fn get_image(&self) -> (r: Option<Image>)
        ensures
            match self {
                ImageHandle::Image { vector, width, height } => r is Some && r->0.bytes@
                    == vector@ && r->0.width == width && r->0.height == height,
                ImageHandle::Handle { .. } => r is None,
            },
    {
        match self {
            ImageHandle::Image { vector, width, height } => Some(
                Image {
                    bytes: vstd::slice::slice_to_vec(vector.as_slice()),
                    width: *width,
                    height: *height,
                },
            ),
            ImageHandle::Handle { .. } => None,
        }
    }

    /// The loaded image itself; `None` while only the path is held.
    pub fn to_image(self) -> (r: Option<Image>)
        ensures
            match self {
                ImageHandle::Image { vector, width, height } => r is Some && r->0.bytes@
                    == vector@ && r->0.width == width && r->0.height == height,
                ImageHandle::Handle { .. } => r is None,
            },
    {
        match self {
            ImageHandle::Image { vector, width, height } => Some(
                Image { bytes: vector, width, height },
            ),
            ImageHandle::Handle { .. } => None,
        }
    }

    /// A borrowed view of the loaded image; `None` while only the path
    /// is held.
    pub fn image_ref(&self) -> (r: Option<ImageRef<'_>>)
        ensures
            match self {
                ImageHandle::Image { vector, width, height } => r is Some && r->0.bytes@
                    == vector@ && r->0.width == width && r->0.height == height,
                ImageHandle::Handle { .. } => r is None,
            },
    {
        match self {
            ImageHandle::Image { vector, width, height } => Some(
                ImageRef { bytes: vector.as_slice(), width: *width, height: *height },
            ),
            ImageHandle::Handle { .. } => None,
        }
    }
}

} // verus!
