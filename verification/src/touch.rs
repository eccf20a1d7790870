//! The hand-off of touch input: the polling loop writes the latest sample,
//! the input callback reads it. Nothing is queued; a read sees the last write.

use vstd::prelude::*;

verus! {

/// The greatest coordinate that the panel can address.
pub const PANEL_MAX: u16 = 465;

/// What one poll of the touch controller found.
#[derive(Clone, Copy, Debug, PartialEq, Eq, Structural)]
pub struct TouchSample {
    pub pressed: bool,
    pub x: i32,
    pub y: i32,
}

/// What the input callback reports.
#[derive(Clone, Copy, Debug, PartialEq, Eq, Structural)]
pub enum PointerEvent {
    /// No finger is on the panel.
    Released,
    /// A finger is down at `(x, y)`.
    Pressed { x: i32, y: i32 },
}

/// The event that a sample stands for; the coordinates of a sample without
/// contact mean nothing.
pub open spec fn event_of(s: TouchSample) -> PointerEvent {
    if s.pressed {
        PointerEvent::Pressed { x: s.x, y: s.y }
    } else {
        PointerEvent::Released
    }
}

/// The 12-bit coordinate held in two registers: the low four bits of `hi`
/// above the eight bits of `lo`.
pub open spec fn raw_coordinate(hi: u8, lo: u8) -> int {
    (hi as int % 16) * 256 + lo as int
}

/// A coordinate kept to the range of the panel.
pub open spec fn on_panel(v: int) -> int {
    if v > PANEL_MAX {
        PANEL_MAX as int
    } else {
        v
    }
}

/// Whether the controller's count register reports a finger.
pub fn contact_reported(count: u8) -> (r: bool)
    ensures
        r == (count != 0),
{
    count != 0
}

/// One coordinate from its two registers, kept to the panel.
fn decode_coordinate(hi: u8, lo: u8) -> (v: u16)
    ensures
        v == on_panel(raw_coordinate(hi, lo)),
{
    let raw: u16 = (((hi & 0x0F) as u16) << 8) | (lo as u16);
    assert(raw == (hi % 16) * 256 + lo) by (bit_vector)
        requires
            raw == (((hi & 0x0F) as u16) << 8) | (lo as u16),
    ;
    if raw > PANEL_MAX {
        PANEL_MAX
    } else {
        raw
    }
}

/// The point held in the controller's four coordinate registers, kept to
/// the panel: x in the first two bytes, y in the last two.
pub fn decode_point(buf: [u8; 4]) -> (p: (u16, u16))
    ensures
        p.0 == on_panel(raw_coordinate(buf[0], buf[1])),
        p.1 == on_panel(raw_coordinate(buf[2], buf[3])),
        p.0 <= PANEL_MAX,
        p.1 <= PANEL_MAX,
{
    (decode_coordinate(buf[0], buf[1]), decode_coordinate(buf[2], buf[3]))
}

impl TouchSample {
    /// The sample for the result of one poll: pressed at the point read, or
    /// not pressed where the controller reported no contact.
    pub fn from_contact(contact: Option<(u16, u16)>) -> (s: TouchSample)
        ensures
            event_of(s) == match contact {
                Some((x, y)) => PointerEvent::Pressed { x: x as i32, y: y as i32 },
                None => PointerEvent::Released,
            },
    {
        match contact {
            Some((x, y)) => TouchSample { pressed: true, x: x as i32, y: y as i32 },
            None => TouchSample { pressed: false, x: 0, y: 0 },
        }
    }
}

/// The latest touch sample, shared by the polling loop and the input
/// callback.
pub struct TouchBridge {
    latest: TouchSample,
}

impl TouchBridge {
    /// The event that the next read reports.
    pub closed spec fn pending(&self) -> PointerEvent {
        event_of(self.latest)
    }

    /// A bridge that has seen no contact.
    pub fn new() -> (b: Self)
        ensures
            b.pending() == PointerEvent::Released,
    {
        TouchBridge { latest: TouchSample { pressed: false, x: 0, y: 0 } }
    }

    /// Records the sample of this polling cycle in place of the one before.
    /// A sample without contact keeps the last coordinates, which no read
    /// reports.
    pub fn write(&mut self, sample: TouchSample)
        ensures
            final(self).pending() == event_of(sample),
    {
        if sample.pressed {
            self.latest = sample;
        } else {
            self.latest.pressed = false;
        }
    }

    /// Reports the most recent sample as a pointer event.
    pub fn read(&self) -> (e: PointerEvent)
        ensures
            e == self.pending(),
    {
        if self.latest.pressed {
            PointerEvent::Pressed { x: self.latest.x, y: self.latest.y }
        } else {
            PointerEvent::Released
        }
    }
}

} // verus!
