//! Events in transit.
//!
//! One event crossing the live connection from a client to the server's
//! embedding application: which element it hit, its name, whether it
//! bubbles, and its payload. The payload kind is decided by the event name
//! alone, over a closed set of known names; an unknown name is rejected
//! rather than guessed at.
use vstd::prelude::*;

use crate::events::{EventData, HtmlEventConverter, KeyboardData, MouseData, PlatformEventData,
    PointerData};

verus! {

/// The identity of the element an event hit, as the running client numbers
/// its elements.
#[derive(Clone, Copy, Debug, PartialEq, Eq)]
pub struct ElementId(pub usize);

/// One event as it crosses the live connection.
#[derive(Clone, Debug, PartialEq, Eq)]
pub struct HtmlEvent {
    /// The element the event hit.
    pub element: ElementId,
    /// The event's name, such as `click`.
    pub name: String,
    /// Whether the event bubbles up the element tree.
    pub bubbles: bool,
    /// The event's payload.
    pub data: EventData,
}

impl HtmlEvent {
    /// Whether the event bubbles up the element tree.
    pub fn bubbles(&self) -> (r: bool)
        ensures
            r == self.bubbles,
    {
        self.bubbles
    }
}

/// The closed set of payload kinds an event name can map to.
#[derive(Clone, Copy, Debug, PartialEq, Eq)]
pub enum EventKind {
    /// A mouse event.
    Mouse,
    /// A keyboard event.
    Keyboard,
    /// A pointer event.
    Pointer,
}

/// The names of the mouse events.
pub open spec fn is_mouse_event_name(n: Seq<char>) -> bool {
    ||| n == "click"@
    ||| n == "contextmenu"@
    ||| n == "dblclick"@
    ||| n == "doubleclick"@
    ||| n == "mousedown"@
    ||| n == "mouseenter"@
    ||| n == "mouseleave"@
    ||| n == "mousemove"@
    ||| n == "mouseout"@
    ||| n == "mouseover"@
    ||| n == "mouseup"@
}

/// The names of the keyboard events.
pub open spec fn is_keyboard_event_name(n: Seq<char>) -> bool {
    ||| n == "keydown"@
    ||| n == "keypress"@
    ||| n == "keyup"@
}

/// The names of the pointer events.
pub open spec fn is_pointer_event_name(n: Seq<char>) -> bool {
    ||| n == "pointerlockchange"@
    ||| n == "pointerlockerror"@
    ||| n == "pointerdown"@
    ||| n == "pointermove"@
    ||| n == "pointerup"@
    ||| n == "pointerover"@
    ||| n == "pointerout"@
    ||| n == "pointerenter"@
    ||| n == "pointerleave"@
    ||| n == "gotpointercapture"@
    ||| n == "lostpointercapture"@
}

/// True when `name` reads the same as the literal `lit`.
fn name_is(name: &String, lit: &str) -> (r: bool)
    ensures
        r == (name@ == lit@),
{
    name.eq(&lit.to_owned())
}

/// The payload kind an event name calls for: the name looked up among the
/// known mouse, keyboard and pointer names, in that order.
pub open spec fn spec_event_kind(n: Seq<char>) -> Option<EventKind> {
    if is_mouse_event_name(n) {
        Some(EventKind::Mouse)
    } else if is_keyboard_event_name(n) {
        Some(EventKind::Keyboard)
    } else if is_pointer_event_name(n) {
        Some(EventKind::Pointer)
    } else {
        None
    }
}

/// The payload kind an event name calls for, over the closed set of known
/// names, or `None` for a name not known here: an unknown event is
/// rejected, never guessed at.
pub fn event_kind_for_name(name: &String) -> (r: Option<EventKind>)
    ensures
        r == spec_event_kind(name@),
{
    if name_is(name, "click") || name_is(name, "contextmenu") || name_is(name, "dblclick")
        || name_is(name, "doubleclick") || name_is(name, "mousedown") || name_is(
        name,
        "mouseenter",
    ) || name_is(name, "mouseleave") || name_is(name, "mousemove") || name_is(name, "mouseout")
        || name_is(name, "mouseover") || name_is(name, "mouseup") {
        Some(EventKind::Mouse)
    } else if name_is(name, "keydown") || name_is(name, "keypress") || name_is(name, "keyup") {
        Some(EventKind::Keyboard)
    } else if name_is(name, "pointerlockchange") || name_is(name, "pointerlockerror") || name_is(
        name,
        "pointerdown",
    ) || name_is(name, "pointermove") || name_is(name, "pointerup") || name_is(name, "pointerover")
        || name_is(name, "pointerout") || name_is(name, "pointerenter") || name_is(
        name,
        "pointerleave",
    ) || name_is(name, "gotpointercapture") || name_is(name, "lostpointercapture") {
        Some(EventKind::Pointer)
    } else {
        None
    }
}

impl EventData {
    /// The payload kind this data carries.
    pub open spec fn kind(&self) -> EventKind {
        match self {
            EventData::Mouse(_) => EventKind::Mouse,
            EventData::Keyboard(_) => EventKind::Keyboard,
            EventData::Pointer(_) => EventKind::Pointer,
        }
    }

    /// Wraps the payload for the embedding application's event plumbing.
    pub fn into_any(self) -> (r: PlatformEventData)
        ensures
            r.payload() == self,
    {
        PlatformEventData::new(self)
    }
}

/// The converter for events that arrive in their wire shape: each
/// conversion takes the serialized payload apart with the one explicit
/// conversion of its kind.
pub struct SerializedHtmlEventConverter;

impl HtmlEventConverter for SerializedHtmlEventConverter {
    fn convert_keyboard_data(&self, event: &PlatformEventData) -> (r: KeyboardData)
        ensures
            event.payload() matches EventData::Keyboard(d) ==> r.key@ == d.key@ && r.code@
                == d.code@ && r.location == d.location && r.is_auto_repeating == d.repeat,
    {
        match event.inner() {
            EventData::Keyboard(d) => KeyboardData::from_serialized(d),
            _ => unreached(),
        }
    }

    fn convert_mouse_data(&self, event: &PlatformEventData) -> (r: MouseData)
        ensures
            event.payload() matches EventData::Mouse(d) ==> r.coordinates.client_x == d.client_x
                && r.coordinates.client_y == d.client_y && r.coordinates.offset_x == d.offset_x
                && r.coordinates.offset_y == d.offset_y && r.coordinates.page_x == d.page_x
                && r.coordinates.page_y == d.page_y && r.coordinates.screen_x == d.screen_x
                && r.coordinates.screen_y == d.screen_y && r.trigger_button == d.button
                && r.held_buttons == d.buttons,
    {
        match event.inner() {
            EventData::Mouse(d) => MouseData::from_serialized(d),
            _ => unreached(),
        }
    }

    fn convert_pointer_data(&self, event: &PlatformEventData) -> (r: PointerData)
        ensures
            event.payload() matches EventData::Pointer(d) ==> r.pointer_id == d.pointer_id
                && r.width == d.width && r.height == d.height && r.is_primary == d.is_primary
                && r.pointer_type@ == d.pointer_type@ && r.client_x == d.client_x && r.client_y
                == d.client_y,
    {
        match event.inner() {
            EventData::Pointer(d) => PointerData::from_serialized(d),
            _ => unreached(),
        }
    }
}

} // verus!
