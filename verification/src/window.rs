//! Window settings and event-loop control flow.
use vstd::prelude::*;

verus! {

/// Whether the event loop polls continuously or waits for events.
#[derive(Clone, Copy, Debug, PartialEq, Eq)]
pub enum ControlFlow {
    Poll,
    Wait,
}

/// The settings a window is created with.
#[derive(Debug)]
pub struct WindowConfig {
    pub title: String,
    pub size: (u32, u32),
    pub min_size: Option<(u32, u32)>,
    pub max_size: Option<(u32, u32)>,
    pub resizable: bool,
    pub maximized: bool,
    pub visible: bool,
    pub decoration: bool,
}

impl Clone for WindowConfig {
    fn clone(&self) -> (r: Self)
        ensures
            r == *self,
    {
        WindowConfig {
            title: self.title.clone(),
            size: self.size,
            min_size: self.min_size,
            max_size: self.max_size,
            resizable: self.resizable,
            maximized: self.maximized,
            visible: self.visible,
            decoration: self.decoration,
        }
    }
}

impl Default for WindowConfig {
    /// "New Window", 500 by 400, no size limits, resizable, not maximized, visible, decorated.
    fn default() -> (r: Self)
        ensures
            r.title@ == "New Window"@,
            r.size == (500u32, 400u32),
            r.min_size is None,
            r.max_size is None,
            r.resizable,
            !r.maximized,
            r.visible,
            r.decoration,
    {
        proof {
            reveal_strlit("New Window");
        }
        WindowConfig {
            title: "New Window".to_owned(),
            size: (500, 400),
            min_size: None,
            max_size: None,
            resizable: true,
            maximized: false,
            visible: true,
            decoration: true,
        }
    }
}

impl WindowConfig {
    pub fn with_title(self, title: &str) -> (r: Self)
        ensures
            r.title@ == title@,
            r.size == self.size,
            r.min_size == self.min_size,
            r.max_size == self.max_size,
            r.resizable == self.resizable,
            r.maximized == self.maximized,
            r.visible == self.visible,
            r.decoration == self.decoration,
    {
        WindowConfig { title: title.to_owned(), ..self }
    }

    pub fn with_size(self, size: (u32, u32)) -> (r: Self)
        ensures
            r == (WindowConfig { size, ..self }),
    {
        WindowConfig { size, ..self }
    }

    pub fn with_min_size(self, min_size: (u32, u32)) -> (r: Self)
        ensures
            r == (WindowConfig { min_size: Some(min_size), ..self }),
    {
        WindowConfig { min_size: Some(min_size), ..self }
    }

    pub fn with_max_size(self, max_size: (u32, u32)) -> (r: Self)
        ensures
            r == (WindowConfig { max_size: Some(max_size), ..self }),
    {
        WindowConfig { max_size: Some(max_size), ..self }
    }

    pub fn with_resizable(self, resizable: bool) -> (r: Self)
        ensures
            r == (WindowConfig { resizable, ..self }),
    {
        WindowConfig { resizable, ..self }
    }

    pub fn with_maximized(self, maximized: bool) -> (r: Self)
        ensures
            r == (WindowConfig { maximized, ..self }),
    {
        WindowConfig { maximized, ..self }
    }

    pub fn with_visible(self, visible: bool) -> (r: Self)
        ensures
            r == (WindowConfig { visible, ..self }),
    {
        WindowConfig { visible, ..self }
    }

    pub fn with_decoration(self, decoration: bool) -> (r: Self)
        ensures
            r == (WindowConfig { decoration, ..self }),
    {
        WindowConfig { decoration, ..self }
    }
}

/// The surface size after the window reports `width` by `height` while the surface is
/// `current`: the new size when both sides are non-zero and it differs from the current one
/// (the surface is then reconfigured), otherwise `None` (nothing changes).
pub fn surface_resize(current: (u32, u32), width: u32, height: u32) -> (r: Option<(u32, u32)>)
    ensures
        r == if width > 0 && height > 0 && (width != current.0 || height != current.1) {
            Some((width, height))
        } else {
            None
        },
{
    if width > 0 && height > 0 && (width != current.0 || height != current.1) {
        Some((width, height))
    } else {
        None
    }
}

} // verus!