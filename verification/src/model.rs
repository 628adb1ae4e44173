//! The canonical data model shared by every backend: window records,
//! monitors, rectangles and the layout configuration.
//!
//! Each executable type with a `String` field has a ghost counterpart
//! (its mathematical view) so that contracts can speak of character
//! sequences instead of heap values.

use vstd::prelude::*;

verus! {

/// Ghost view of a [`WindowRecord`].
pub ghost struct WindowInfo {
    pub id: u64,
    pub title: Seq<char>,
    pub monitor: Option<Seq<char>>,
}

/// One window as every backend reports it: a canonical 64-bit identifier,
/// the title with the application-name prefix already stripped, and the
/// name of the monitor currently hosting it, where that could be
/// determined.
#[derive(Clone)]
pub struct WindowRecord {
    pub id: u64,
    pub title: String,
    pub monitor: Option<String>,
}

impl View for WindowRecord {
    type V = WindowInfo;

    open spec fn view(&self) -> WindowInfo {
        WindowInfo {
            id: self.id,
            title: self.title@,
            monitor: match self.monitor {
                Some(ref m) => Some(m@),
                None => None,
            },
        }
    }
}

impl DeepView for WindowRecord {
    type V = WindowInfo;

    open spec fn deep_view(&self) -> WindowInfo {
        self.view()
    }
}

/// Ghost view of a [`Monitor`].
pub ghost struct MonitorInfo {
    pub name: Seq<char>,
    pub x: int,
    pub y: int,
    pub width: int,
    pub height: int,
}

/// One monitor of the current topology: a name unique within the
/// snapshot, and its rectangle in the shared virtual-desktop coordinate
/// space.
pub struct Monitor {
    pub name: String,
    pub x: i32,
    pub y: i32,
    pub width: u32,
    pub height: u32,
}

impl View for Monitor {
    type V = MonitorInfo;

    open spec fn view(&self) -> MonitorInfo {
        MonitorInfo {
            name: self.name@,
            x: self.x as int,
            y: self.y as int,
            width: self.width as int,
            height: self.height as int,
        }
    }
}

impl DeepView for Monitor {
    type V = MonitorInfo;

    open spec fn deep_view(&self) -> MonitorInfo {
        self.view()
    }
}

impl MonitorInfo {
    /// A monitor is well formed when its rectangle lies within the signed
    /// 32-bit virtual-desktop coordinate space: the right and bottom edges
    /// must themselves be representable.
    pub open spec fn wf(self) -> bool {
        &&& i32::MIN <= self.x
        &&& i32::MIN <= self.y
        &&& 0 <= self.width
        &&& 0 <= self.height
        &&& self.x + self.width <= i32::MAX
        &&& self.y + self.height <= i32::MAX
    }

    /// Half-open containment test: `(px, py)` lies on this monitor.
    pub open spec fn contains(self, px: int, py: int) -> bool {
        &&& self.x <= px < self.x + self.width
        &&& self.y <= py < self.y + self.height
    }
}

/// A target rectangle computed by the layout engine.
#[derive(Clone, Copy, PartialEq, Eq, Structural, Debug)]
pub struct Rect {
    pub x: i32,
    pub y: i32,
    pub width: u32,
    pub height: u32,
}

/// Ghost view of a [`Config`].
pub ghost struct ConfigInfo {
    pub display_width: int,
    pub display_height: int,
    pub panel_height: int,
    pub eve_width: int,
    pub eve_height: int,
    pub primary_character: Option<Seq<char>>,
    pub primary_monitor: Option<Seq<char>>,
    pub fullscreen_stack: bool,
}

/// The layout configuration, supplied by the caller and read-only to this
/// library.  `display_width`/`display_height` are the global fallback
/// dimensions used when no monitor topology is available; `panel_height`
/// is the vertical reservation subtracted from every computed height;
/// `eve_width`/`eve_height` are the target window dimensions in centered
/// mode; `primary_character` selects the primary instance by exact title
/// match; `primary_monitor` names its preferred monitor; and
/// `fullscreen_stack` switches between stacked (full-monitor) and
/// centered placement.
pub struct Config {
    pub display_width: u32,
    pub display_height: u32,
    pub panel_height: u32,
    pub eve_width: u32,
    pub eve_height: u32,
    pub primary_character: Option<String>,
    pub primary_monitor: Option<String>,
    pub fullscreen_stack: bool,
}

impl View for Config {
    type V = ConfigInfo;

    open spec fn view(&self) -> ConfigInfo {
        ConfigInfo {
            display_width: self.display_width as int,
            display_height: self.display_height as int,
            panel_height: self.panel_height as int,
            eve_width: self.eve_width as int,
            eve_height: self.eve_height as int,
            primary_character: match self.primary_character {
                Some(ref s) => Some(s@),
                None => None,
            },
            primary_monitor: match self.primary_monitor {
                Some(ref s) => Some(s@),
                None => None,
            },
            fullscreen_stack: self.fullscreen_stack,
        }
    }
}

impl ConfigInfo {
    /// The global fallback dimensions are usable only when the target
    /// width fits the display and the panel reservation fits its height;
    /// the caller validates its configuration before handing it in.
    pub open spec fn wf(self) -> bool {
        &&& 0 <= self.eve_width <= self.display_width
        &&& 0 <= self.panel_height <= self.display_height
        &&& 0 <= self.eve_height
        &&& self.display_width <= i32::MAX
        &&& self.display_height <= i32::MAX
    }
}

impl Config {
    /// Horizontal origin of the centered rectangle under the global
    /// fallback dimensions.
    pub fn eve_x(&self) -> (r: i32)
        requires
            self@.wf(),
        ensures
            r == (self@.display_width - self@.eve_width) / 2,
    {
        ((self.display_width - self.eve_width) / 2) as i32
    }

    /// Vertical origin of the rectangle under the global fallback
    /// dimensions.
    pub fn eve_y(&self) -> (r: i32)
        ensures
            r == 0,
    {
        0
    }

    /// Usable height under the global fallback dimensions: the display
    /// height minus the panel reservation.
    pub fn eve_height_adjusted(&self) -> (r: u32)
        requires
            self@.panel_height <= self@.display_height,
        ensures
            r == self@.display_height - self@.panel_height,
    {
        self.display_height - self.panel_height
    }
}

impl Default for Config {
    /// The built-in configuration: a triple-wide desktop with a 44-pixel
    /// panel, centered windows of 4150 by 2116 pixels, no primary
    /// instance and centered mode.
    fn default() -> (r: Self)
        ensures
            r@.display_width == 7680,
            r@.display_height == 2160,
            r@.panel_height == 44,
            r@.eve_width == 4150,
            r@.eve_height == 2116,
            r@.primary_character is None,
            r@.primary_monitor is None,
            !r@.fullscreen_stack,
            r@.wf(),
    {
        Config {
            display_width: 7680,
            display_height: 2160,
            panel_height: 44,
            eve_width: 4150,
            eve_height: 2116,
            primary_character: None,
            primary_monitor: None,
            fullscreen_stack: false,
        }
    }
}

} // verus!
