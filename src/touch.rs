//! Touch decoding: raw controller events to clamped screen points.
use vstd::prelude::*;
use vstd::string::StringExecFns;

verus! {

/// An event as the touch controller reports it.
#[derive(Debug, Clone, Copy, PartialEq, Eq, Structural)]
pub enum RawTouchEvent {
    Touch { x: u16, y: u16 },
    Release,
    NoEvent,
}

/// A point on the screen.
#[derive(Debug, Clone, Copy, PartialEq, Eq, Structural)]
pub struct TouchPoint {
    pub x: u16,
    pub y: u16,
    pub pressed: bool,
}

/// Errors of the touch peripheral.
#[derive(Debug, Clone, PartialEq, Eq)]
pub enum TouchError {
    InitFailed(String),
    ReadFailed(String),
    NotInitialized,
}

impl TouchError {
    /// A description for the user.
    pub fn message(&self) -> (r: String)
        ensures
            r@ == match self {
                TouchError::InitFailed(e) => "Touch init failed: "@ + e@,
                TouchError::ReadFailed(e) => "Touch read failed: "@ + e@,
                TouchError::NotInitialized => "Touch not initialized"@,
            },
    {
        match self {
            TouchError::InitFailed(e) => String::from_str("Touch init failed: ").concat(e.as_str()),
            TouchError::ReadFailed(e) => String::from_str("Touch read failed: ").concat(e.as_str()),
            TouchError::NotInitialized => String::from_str("Touch not initialized"),
        }
    }
}

/// `v` saturated to `[0, limit - 1]`.
pub open spec fn clamp_spec(v: u16, limit: u16) -> u16 {
    if v < limit {
        v
    } else {
        (limit - 1) as u16
    }
}

/// The point that a raw event stands for on a `width` by `height` screen.
pub open spec fn decode_spec(e: RawTouchEvent, width: u16, height: u16) -> Option<TouchPoint> {
    match e {
        RawTouchEvent::Touch { x, y } => Some(
            TouchPoint { x: clamp_spec(x, width), y: clamp_spec(y, height), pressed: true },
        ),
        RawTouchEvent::Release => Some(TouchPoint { x: 0, y: 0, pressed: false }),
        RawTouchEvent::NoEvent => None,
    }
}

/// Decodes touch events for a screen of fixed size.
#[derive(Debug)]
pub struct TouchController {
    initialized: bool,
    width: u16,
    height: u16,
}

impl TouchController {
    pub closed spec fn spec_width(&self) -> u16 {
        self.width
    }

    pub closed spec fn spec_height(&self) -> u16 {
        self.height
    }

    pub closed spec fn spec_initialized(&self) -> bool {
        self.initialized
    }

    /// A decoder for a working controller on a `width` by `height` screen.
    pub fn new(width: u16, height: u16) -> (r: Self)
        requires
            width > 0,
            height > 0,
        ensures
            r.spec_width() == width,
            r.spec_height() == height,
            r.spec_initialized(),
    {
        TouchController { initialized: true, width, height }
    }

    /// A decoder whose controller failed to start: it reports nothing.
    pub fn uninitialized(width: u16, height: u16) -> (r: Self)
        requires
            width > 0,
            height > 0,
        ensures
            r.spec_width() == width,
            r.spec_height() == height,
            !r.spec_initialized(),
    {
        TouchController { initialized: false, width, height }
    }

    pub fn width(&self) -> (r: u16)
        ensures
            r == self.spec_width(),
    {
        self.width
    }

    pub fn height(&self) -> (r: u16)
        ensures
            r == self.spec_height(),
    {
        self.height
    }

    /// The point for the controller's latest read. A read failure, "no
    /// event" and an uninitialized controller all give `None`; a touch is
    /// clamped into the screen, saturating.
    pub fn get_touch_event(&self, read: Result<RawTouchEvent, TouchError>) -> (r: Option<
        TouchPoint,
    >)
        requires
            self.spec_width() > 0,
            self.spec_height() > 0,
        ensures
            r == match read {
                Ok(e) => if self.spec_initialized() {
                    decode_spec(e, self.spec_width(), self.spec_height())
                } else {
                    None
                },
                Err(_) => None,
            },
            r matches Some(p) ==> p.x < self.spec_width() && p.y < self.spec_height(),
    {
        if !self.initialized {
            return None;
        }
        match read {
            Ok(RawTouchEvent::Touch { x, y }) => {
                let x = if x < self.width {
                    x
                } else {
                    self.width - 1
                };
                let y = if y < self.height {
                    y
                } else {
                    self.height - 1
                };
                Some(TouchPoint { x, y, pressed: true })
            },
            Ok(RawTouchEvent::Release) => Some(TouchPoint { x: 0, y: 0, pressed: false }),
            Ok(RawTouchEvent::NoEvent) => None,
            Err(_) => None,
        }
    }

    /// Whether the screen is pressed, given the controller's answer; `false`
    /// when uninitialized or on a read failure.
    pub fn is_pressed(&self, read: Result<bool, TouchError>) -> (r: bool)
        ensures
            r == (self.spec_initialized() && read == Ok::<bool, TouchError>(true)),
    {
        if !self.initialized {
            return false;
        }
        match read {
            Ok(p) => p,
            Err(_) => false,
        }
    }
}

} // verus!
