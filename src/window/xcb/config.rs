use vstd::prelude::*;

verus! {

/// Value-mask bits of the core protocol's ConfigureWindow request.
pub const CONFIG_WINDOW_X: u16 = 1;

pub const CONFIG_WINDOW_Y: u16 = 2;

pub const CONFIG_WINDOW_WIDTH: u16 = 4;

pub const CONFIG_WINDOW_HEIGHT: u16 = 8;

pub const CONFIG_WINDOW_BORDER_WIDTH: u16 = 16;

/// One setting of a window configuration request.
#[derive(Debug, Clone, Copy, PartialEq, Eq)]
pub enum ConfigValue {
    X(i32),
    Y(i32),
    Width(u32),
    Height(u32),
    BorderWidth(u32),
}

impl ConfigValue {
    pub open spec fn key(self) -> u16 {
        match self {
            ConfigValue::X(_) => CONFIG_WINDOW_X,
            ConfigValue::Y(_) => CONFIG_WINDOW_Y,
            ConfigValue::Width(_) => CONFIG_WINDOW_WIDTH,
            ConfigValue::Height(_) => CONFIG_WINDOW_HEIGHT,
            ConfigValue::BorderWidth(_) => CONFIG_WINDOW_BORDER_WIDTH,
        }
    }

    /// The value as sent on the wire: a signed coordinate in two's complement.
    pub open spec fn value(self) -> u32 {
        match self {
            ConfigValue::X(x) => x as u32,
            ConfigValue::Y(y) => y as u32,
            ConfigValue::Width(w) => w,
            ConfigValue::Height(h) => h,
            ConfigValue::BorderWidth(b) => b,
        }
    }

    pub fn as_key(self) -> (r: u16)
        ensures
            r == self.key(),
    {
        match self {
            ConfigValue::X(_) => CONFIG_WINDOW_X,
            ConfigValue::Y(_) => CONFIG_WINDOW_Y,
            ConfigValue::Width(_) => CONFIG_WINDOW_WIDTH,
            ConfigValue::Height(_) => CONFIG_WINDOW_HEIGHT,
            ConfigValue::BorderWidth(_) => CONFIG_WINDOW_BORDER_WIDTH,
        }
    }

    pub fn as_value(self) -> (r: u32)
        ensures
            r == self.value(),
    {
        match self {
            ConfigValue::X(x) => x as u32,
            ConfigValue::Y(y) => y as u32,
            ConfigValue::Width(width) => width,
            ConfigValue::Height(height) => height,
            ConfigValue::BorderWidth(border_width) => border_width,
        }
    }
}

} // verus!
