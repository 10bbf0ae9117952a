//! The colors of the directory-browsing view.

use vstd::prelude::*;

use crate::types::Rgba;

verus! {

/// The colors the directory view draws with.
#[derive(Debug)]
pub struct DiredTheme {
    pub file_color: Rgba,
    pub directory_color: Rgba,
    pub select_color: Rgba,
}

impl Default for DiredTheme {
    /// White files, green directories, and a light blue selection.
    fn default() -> (t: DiredTheme)
        ensures
            t.file_color.red() == 255 && t.file_color.green() == 255 && t.file_color.blue() == 255,
            t.directory_color.red() == 0 && t.directory_color.green() == 255
                && t.directory_color.blue() == 0,
            t.select_color.red() == 0x60 && t.select_color.green() == 0xAF
                && t.select_color.blue() == 0xFF,
            t.file_color.alpha() == 255 && t.directory_color.alpha() == 255
                && t.select_color.alpha() == 255,
    {
        DiredTheme {
            file_color: Rgba::white(),
            directory_color: Rgba::pure_green(),
            select_color: Rgba::new_opaque(0x60, 0xAF, 0xFF),
        }
    }
}

} // verus!
