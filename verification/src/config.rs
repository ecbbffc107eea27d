//! Graphics configuration: adapter power preference, present mode and alpha compositing.
use vstd::prelude::*;

verus! {

/// Which GPU adapter to prefer.
#[derive(Clone, Copy, Debug, PartialEq, Eq)]
pub enum PowerPreference {
    HighPerformance,
    LowPower,
    NoPreference,
}

/// How frames are presented to the surface.
#[derive(Clone, Copy, Debug, PartialEq, Eq)]
pub enum PresentMode {
    AutoVsync,
    AutoNoVsync,
    Fifo,
    FifoRelaxed,
    Immediate,
    Mailbox,
}

/// How the surface's alpha channel is composited.
#[derive(Clone, Copy, Debug, PartialEq, Eq)]
pub enum CompositeAlphaMode {
    Auto,
    Opaque,
    PreMultiplied,
    PostMultiplied,
    Inherit,
}

/// The graphics settings an application starts with.
#[derive(Clone, Copy, Debug)]
pub struct GraphicsConfiguration {
    pub power_preference: PowerPreference,
    pub present_mode: PresentMode,
    pub alpha_mode: CompositeAlphaMode,
}

impl GraphicsConfiguration {
    /// High performance adapter, automatic vsync, automatic alpha mode.
    pub fn default() -> (r: Self)
        ensures
            r == (GraphicsConfiguration {
                power_preference: PowerPreference::HighPerformance,
                present_mode: PresentMode::AutoVsync,
                alpha_mode: CompositeAlphaMode::Auto,
            }),
    {
        GraphicsConfiguration {
            power_preference: PowerPreference::HighPerformance,
            present_mode: PresentMode::AutoVsync,
            alpha_mode: CompositeAlphaMode::Auto,
        }
    }

    pub fn with_power_preference(self, power_preference: PowerPreference) -> (r: Self)
        ensures
            r == (GraphicsConfiguration { power_preference, ..self }),
    {
        GraphicsConfiguration { power_preference, ..self }
    }

    pub fn with_present_mode(self, present_mode: PresentMode) -> (r: Self)
        ensures
            r == (GraphicsConfiguration { present_mode, ..self }),
    {
        GraphicsConfiguration { present_mode, ..self }
    }

    pub fn with_alpha_mode(self, alpha_mode: CompositeAlphaMode) -> (r: Self)
        ensures
            r == (GraphicsConfiguration { alpha_mode, ..self }),
    {
        GraphicsConfiguration { alpha_mode, ..self }
    }
}

} // verus!
