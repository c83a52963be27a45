//! The application builder: collects the start-up choices and settles
//! them into a validated application description.

use vstd::prelude::*;
use vstd::string::StringExecFns;
use crate::graphics::Size;
use crate::system::{Error, Theme, Themes};
use crate::terminals::{chosen_terminal, terminal_size_invalid, TerminalType};

verus! {

/// The start-up choices, set one at a time, then settled by
/// [`Builder::build`].
#[derive(Debug)]
pub struct Builder {
    pub size: Option<Size>,
    pub terminal: Option<TerminalType>,
    pub title: Option<String>,
    pub has_menu_bar: bool,
    pub has_command_bar: bool,
    pub single_window: bool,
    pub has_custom_desktop: bool,
    pub theme: Theme,
}

/// A validated application description: every choice settled, the
/// terminal backend decided.
#[derive(Debug)]
pub struct App {
    pub terminal: TerminalType,
    pub size: Option<Size>,
    pub title: Option<String>,
    pub has_menu_bar: bool,
    pub has_command_bar: bool,
    pub single_window: bool,
    pub has_custom_desktop: bool,
    pub theme: Theme,
}

impl Builder {
    /// Nothing chosen yet: no size, no title, the default theme, the
    /// terminal decided later.
    pub fn new() -> (r: Builder)
        ensures
            r.size is None,
            r.terminal is None,
            r.title is None,
            !r.has_menu_bar,
            !r.has_command_bar,
            !r.single_window,
            !r.has_custom_desktop,
            r.theme.kind == Themes::Default,
    {
        Builder {
            size: None,
            terminal: None,
            title: None,
            has_menu_bar: false,
            has_command_bar: false,
            single_window: false,
            has_custom_desktop: false,
            theme: Theme { kind: Themes::Default },
        }
    }

    /// Settles the choices; fails exactly when a requested terminal
    /// size has a zero width or height.
    pub fn build(self) -> (r: Result<App, Error>)
        ensures
            match r {
                Result::Ok(app) => {
                    &&& !terminal_size_invalid(self.size)
                    &&& app.terminal == chosen_terminal(self.terminal)
                    &&& app.size == self.size
                    &&& app.title == self.title
                    &&& app.has_menu_bar == self.has_menu_bar
                    &&& app.has_command_bar == self.has_command_bar
                    &&& app.single_window == self.single_window
                    &&& app.has_custom_desktop == self.has_custom_desktop
                    &&& app.theme == self.theme
                },
                Result::Err(_) => terminal_size_invalid(self.size),
            },
    {
        let terminal = match crate::terminals::new(&self) {
            Ok(t) => t,
            Err(e) => {
                return Err(e);
            },
        };
        Ok(
            App {
                terminal,
                size: self.size,
                title: self.title,
                has_menu_bar: self.has_menu_bar,
                has_command_bar: self.has_command_bar,
                single_window: self.single_window,
                has_custom_desktop: self.has_custom_desktop,
                theme: self.theme,
            },
        )
    }

    /// Requests a terminal size.
    pub fn size(self, terminal_size: Size) -> (r: Builder)
        ensures
            r == (Builder { size: Option::Some(terminal_size), ..self }),
    {
        Builder { size: Some(terminal_size), ..self }
    }

    /// Sets the application title.
    pub fn title(self, title: &str) -> (r: Builder)
        ensures
            r.title is Some,
            r.title->0@ == title@,
            r == (Builder { title: r.title, ..self }),
    {
        Builder { title: Some(title.to_owned()), ..self }
    }

    /// Asks for a menu bar.
    pub fn menu_bar(self) -> (r: Builder)
        ensures
            r == (Builder { has_menu_bar: true, ..self }),
    {
        Builder { has_menu_bar: true, ..self }
    }

    /// Asks for a command bar.
    pub fn command_bar(self) -> (r: Builder)
        ensures
            r == (Builder { has_command_bar: true, ..self }),
    {
        Builder { has_command_bar: true, ..self }
    }

    /// Runs with one single window as the whole desktop.
    pub fn single_window(self) -> (r: Builder)
        ensures
            r == (Builder { single_window: true, ..self }),
    {
        Builder { single_window: true, ..self }
    }

    /// Announces that the embedder installs its own desktop control in
    /// place of the built-in one.
    pub fn desktop(self) -> (r: Builder)
        ensures
            r == (Builder { has_custom_desktop: true, ..self }),
    {
        Builder { has_custom_desktop: true, ..self }
    }

    /// Chooses a theme.
    pub fn theme(self, theme: Theme) -> (r: Builder)
        ensures
            r == (Builder { theme, ..self }),
    {
        Builder { theme, ..self }
    }
}

} // verus!
