//! Window configuration data carried by the windowing side of the project.
//!
//! These are plain data types: sizes and positions at integer precision,
//! identifiers, and the attribute set used when creating a window, with a
//! getter and a builder method for each attribute.

use vstd::prelude::*;

verus! {

/// A window or monitor size in pixels.
#[derive(Clone, Copy, Debug, PartialEq, Eq, Structural)]
pub struct Size {
    pub width: u32,
    pub height: u32,
}

/// A position on the larger full-screen area, in pixels.
#[derive(Clone, Copy, Debug, PartialEq, Eq, Structural)]
pub struct Position {
    pub x: i32,
    pub y: i32,
}

/// The identifier of a window.
#[derive(Clone, Copy, Debug, PartialEq, Eq, Hash, Structural)]
pub struct WindowId(pub u128);

/// The identifier of a monitor.
#[derive(Clone, Copy, Debug, PartialEq, Eq, Hash, Structural)]
pub struct MonitorId(pub u128);

/// The close button of a window.
pub const BUTTON_CLOSE: u32 = 1;

/// The minimize button of a window.
pub const BUTTON_MINIMIZE: u32 = 2;

/// The maximize button of a window.
pub const BUTTON_MAXIMIZE: u32 = 4;

/// The set of window buttons that are enabled, as a bit set over the
/// `BUTTON_` constants.
#[derive(Clone, Copy, Debug, PartialEq, Eq, Structural)]
pub struct WindowButtons {
    pub bits: u32,
}

impl WindowButtons {
    /// The set of all three buttons.
    pub fn all() -> (r: WindowButtons)
        ensures
            r.bits == BUTTON_CLOSE | BUTTON_MINIMIZE | BUTTON_MAXIMIZE,
    {
        WindowButtons { bits: BUTTON_CLOSE | BUTTON_MINIMIZE | BUTTON_MAXIMIZE }
    }

    /// The empty set of buttons.
    pub fn empty() -> (r: WindowButtons)
        ensures
            r.bits == 0,
    {
        WindowButtons { bits: 0 }
    }

    /// Whether every button of `other` is enabled in `self`.
    pub fn contains(&self, other: WindowButtons) -> (r: bool)
        ensures
            r == (self.bits & other.bits == other.bits),
    {
        self.bits & other.bits == other.bits
    }
}

/// A window level groups windows with respect to their z-position.
#[derive(Clone, Copy, Debug, PartialEq, Eq, Structural)]
pub enum WindowLevel {
    /// The window will always be below normal windows.
    AlwaysOnBottom,
    /// The default.
    Normal,
    /// The window will always be on top of normal windows.
    AlwaysOnTop,
}

impl Default for WindowLevel {
    fn default() -> (r: WindowLevel)
        ensures
            r == WindowLevel::Normal,
    {
        WindowLevel::Normal
    }
}

/// The theme variant to use.
#[derive(Clone, Copy, Debug, PartialEq, Eq, Structural)]
pub enum Theme {
    /// Use the light variant.
    Light,
    /// Use the dark variant.
    Dark,
}

/// Attributes to use when creating a window.
#[derive(Clone, Debug)]
pub struct WindowAttributes {
    pub inner_size: Size,
    pub min_inner_size: Option<Size>,
    pub max_inner_size: Option<Size>,
    pub position: Option<Position>,
    pub resizable: bool,
    pub enabled_buttons: WindowButtons,
    pub title: String,
    pub maximized: bool,
    pub visible: bool,
    pub transparent: bool,
    pub blur: bool,
    pub decorations: bool,
    pub theme: Option<Theme>,
    pub resize_increments: Option<Size>,
    pub content_protected: bool,
    pub window_level: WindowLevel,
    pub active: bool,
}

impl Default for WindowAttributes {
    fn default() -> (r: WindowAttributes)
        ensures
            r.inner_size == (Size { width: 800, height: 600 }),
            r.min_inner_size is None,
            r.max_inner_size is None,
            r.position is None,
            r.resizable,
            r.enabled_buttons.bits == BUTTON_CLOSE | BUTTON_MINIMIZE | BUTTON_MAXIMIZE,
            r.title@ == "Winit window"@,
            !r.maximized,
            !r.visible,
            r.transparent,
            !r.blur,
            r.decorations,
            r.theme is None,
            r.resize_increments is None,
            !r.content_protected,
            r.window_level == WindowLevel::Normal,
            r.active,
    {
        WindowAttributes {
            inner_size: Size { width: 800, height: 600 },
            enabled_buttons: WindowButtons::all(),
            title: ("Winit window").to_owned(),
            content_protected: false,
            resize_increments: Option::None,
            max_inner_size: Option::None,
            min_inner_size: Option::None,
            transparent: true,
            decorations: true,
            maximized: false,
            resizable: true,
            position: Option::None,
            visible: false,
            active: true,
            theme: Option::None,
            blur: false,
            window_level: WindowLevel::Normal,
        }
    }
}

impl WindowAttributes {
    pub fn inner_size(&self) -> (r: Size)
        ensures
            r == self.inner_size,
    {
        self.inner_size
    }

    /// Requests the window to be of specific dimensions.
    pub fn with_inner_size(self, inner_size: Size) -> (r: Self)
        ensures
            r == (WindowAttributes { inner_size, ..self }),
    {
        WindowAttributes { inner_size, ..self }
    }

    pub fn min_inner_size(&self) -> (r: Option<Size>)
        ensures
            r == self.min_inner_size,
    {
        self.min_inner_size
    }

    /// Sets the minimum dimensions a window can have.
    pub fn with_min_inner_size(self, min_size: Size) -> (r: Self)
        ensures
            r == (WindowAttributes { min_inner_size: Some(min_size), ..self }),
    {
        WindowAttributes { min_inner_size: Option::Some(min_size), ..self }
    }

    pub fn max_inner_size(&self) -> (r: Option<Size>)
        ensures
            r == self.max_inner_size,
    {
        self.max_inner_size
    }

    /// Sets the maximum dimensions a window can have.
    pub fn with_max_inner_size(self, max_size: Size) -> (r: Self)
        ensures
            r == (WindowAttributes { max_inner_size: Some(max_size), ..self }),
    {
        WindowAttributes { max_inner_size: Option::Some(max_size), ..self }
    }

    pub fn position(&self) -> (r: Option<Position>)
        ensures
            r == self.position,
    {
        self.position
    }

    /// Sets a desired initial position for the window.
    pub fn with_position(self, position: Position) -> (r: Self)
        ensures
            r == (WindowAttributes { position: Some(position), ..self }),
    {
        WindowAttributes { position: Option::Some(position), ..self }
    }

    pub fn title(&self) -> (r: &str)
        ensures
            r@ == self.title@,
    {
        self.title.as_str()
    }

    pub fn with_title(self, title: String) -> (r: Self)
        ensures
            r == (WindowAttributes { title, ..self }),
    {
        WindowAttributes { title, ..self }
    }

    pub fn maximized(&self) -> (r: bool)
        ensures
            r == self.maximized,
    {
        self.maximized
    }

    /// Request that the window is maximized upon creation.
    pub fn with_maximized(self, maximized: bool) -> (r: Self)
        ensures
            r == (WindowAttributes { maximized, ..self }),
    {
        WindowAttributes { maximized, ..self }
    }

    pub fn visible(&self) -> (r: bool)
        ensures
            r == self.visible,
    {
        self.visible
    }

    /// Sets whether the window will be initially visible or hidden.
    pub fn with_visible(self, visible: bool) -> (r: Self)
        ensures
            r == (WindowAttributes { visible, ..self }),
    {
        WindowAttributes { visible, ..self }
    }

    pub fn resizable(&self) -> (r: bool)
        ensures
            r == self.resizable,
    {
        self.resizable
    }

    /// Sets whether the window is resizable or not.
    pub fn with_resizable(self, resizable: bool) -> (r: Self)
        ensures
            r == (WindowAttributes { resizable, ..self }),
    {
        WindowAttributes { resizable, ..self }
    }

    pub fn transparent(&self) -> (r: bool)
        ensures
            r == self.transparent,
    {
        self.transparent
    }

    /// Sets whether the background of the window should be transparent.
    pub fn with_transparent(self, transparent: bool) -> (r: Self)
        ensures
            r == (WindowAttributes { transparent, ..self }),
    {
        WindowAttributes { transparent, ..self }
    }

    pub fn blur(&self) -> (r: bool)
        ensures
            r == self.blur,
    {
        self.blur
    }

    /// Sets whether the background of the window should be blurred by the
    /// system.
    pub fn with_blur(self, blur: bool) -> (r: Self)
        ensures
            r == (WindowAttributes { blur, ..self }),
    {
        WindowAttributes { blur, ..self }
    }

    pub fn decorations(&self) -> (r: bool)
        ensures
            r == self.decorations,
    {
        self.decorations
    }

    /// Sets whether the window should have a border, a title bar, etc.
    pub fn with_decorations(self, decorations: bool) -> (r: Self)
        ensures
            r == (WindowAttributes { decorations, ..self }),
    {
        WindowAttributes { decorations, ..self }
    }

    pub fn window_level(&self) -> (r: WindowLevel)
        ensures
            r == self.window_level,
    {
        self.window_level
    }

    /// Sets the window level.
    pub fn with_window_level(self, level: WindowLevel) -> (r: Self)
        ensures
            r == (WindowAttributes { window_level: level, ..self }),
    {
        WindowAttributes { window_level: level, ..self }
    }

    pub fn theme(&self) -> (r: Option<Theme>)
        ensures
            r == self.theme,
    {
        self.theme
    }

    /// Sets a specific theme for the window; with `None` the window uses the
    /// system theme.
    pub fn with_theme(self, theme: Option<Theme>) -> (r: Self)
        ensures
            r == (WindowAttributes { theme, ..self }),
    {
        WindowAttributes { theme, ..self }
    }
}

} // verus!
