//! The interface between an editing stage and the surrounding
//! application: how the cursor is to be drawn, and what a stage may ask
//! the application to do.

use vstd::prelude::*;

verus! {

/// How the cursor is drawn at its (line, column) position.
#[derive(PartialEq, Eq, Clone, Copy, Debug, Structural)]
pub enum CursorLook {
    VerticalBar,
    HorizontalBar,
    Block,
    Box,
}

/// A request a stage hands back to the surrounding application; `Idle`
/// asks for nothing.
pub enum StateCommand {
    StartStage(String),
    Log(String),
    Idle,
}

/// A stage that can take settings from a configuration file.
pub trait Configurable {
    fn configure(&mut self, config: crate::config::Toml) -> Result<(), String>;

    fn default_configuration() -> crate::config::Toml;

    fn config_file_name() -> &'static str;
}

/// What a text-presenting stage offers the renderer: the flattened
/// document and the cursor with its look.  A stage says through
/// `text_ready` when its text is in a presentable state.
pub trait TextStage {
    spec fn text_ready(&self) -> bool;

    fn get_display_text(&self) -> String
        requires
            self.text_ready(),
    ;

    fn get_cursor(&self) -> (usize, usize, CursorLook);
}

} // verus!
