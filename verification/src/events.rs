//! Event payloads.
//!
//! A platform hands the server's clients events in a serialized, wire-shaped
//! form. The payload kinds are a closed set: one variant per kind, and one
//! explicit conversion per kind from the wire shape to the typed shape. A
//! renderer chooses the converter once, at startup, and the handle is passed
//! down to whoever interprets events — never fetched from hidden global
//! state.
use vstd::prelude::*;

verus! {

/// The modifier keys held during an event.
#[derive(Clone, Copy, Debug, PartialEq, Eq)]
pub struct Modifiers {
    /// Whether an alt key was held.
    pub alt: bool,
    /// Whether a control key was held.
    pub ctrl: bool,
    /// Whether a meta key was held.
    pub meta: bool,
    /// Whether a shift key was held.
    pub shift: bool,
}

/// Where a pointer event happened, in each coordinate space.
#[derive(Clone, Copy, Debug, PartialEq, Eq)]
pub struct Coordinates {
    /// Relative to the viewport.
    pub client_x: i64,
    /// Relative to the viewport.
    pub client_y: i64,
    /// Relative to the padding edge of the target.
    pub offset_x: i64,
    /// Relative to the padding edge of the target.
    pub offset_y: i64,
    /// Relative to the whole document.
    pub page_x: i64,
    /// Relative to the whole document.
    pub page_y: i64,
    /// Relative to the screen.
    pub screen_x: i64,
    /// Relative to the screen.
    pub screen_y: i64,
}

/// A mouse event as the wire carries it.
#[derive(Clone, Copy, Debug, PartialEq, Eq)]
pub struct SerializedMouseData {
    /// Whether an alt key was held.
    pub alt_key: bool,
    /// The button whose change fired the event.
    pub button: i64,
    /// The buttons held during the event, as a bit set.
    pub buttons: i64,
    /// Viewport x.
    pub client_x: i64,
    /// Viewport y.
    pub client_y: i64,
    /// Whether a control key was held.
    pub ctrl_key: bool,
    /// Whether a meta key was held.
    pub meta_key: bool,
    /// Target-relative x.
    pub offset_x: i64,
    /// Target-relative y.
    pub offset_y: i64,
    /// Document x.
    pub page_x: i64,
    /// Document y.
    pub page_y: i64,
    /// Screen x.
    pub screen_x: i64,
    /// Screen y.
    pub screen_y: i64,
    /// Whether a shift key was held.
    pub shift_key: bool,
}

/// A mouse event in its typed shape.
#[derive(Clone, Copy, Debug, PartialEq, Eq)]
pub struct MouseData {
    /// Where the event happened.
    pub coordinates: Coordinates,
    /// The button whose change fired the event.
    pub trigger_button: i64,
    /// The buttons held during the event, as a bit set.
    pub held_buttons: i64,
    /// The modifier keys held.
    pub modifiers: Modifiers,
}

impl MouseData {
    /// The one conversion from the wire shape: every field carried over,
    /// none invented.
    pub fn from_serialized(s: &SerializedMouseData) -> (r: MouseData)
        ensures
            r.coordinates.client_x == s.client_x,
            r.coordinates.client_y == s.client_y,
            r.coordinates.offset_x == s.offset_x,
            r.coordinates.offset_y == s.offset_y,
            r.coordinates.page_x == s.page_x,
            r.coordinates.page_y == s.page_y,
            r.coordinates.screen_x == s.screen_x,
            r.coordinates.screen_y == s.screen_y,
            r.trigger_button == s.button,
            r.held_buttons == s.buttons,
            r.modifiers == (Modifiers {
                alt: s.alt_key,
                ctrl: s.ctrl_key,
                meta: s.meta_key,
                shift: s.shift_key,
            }),
    {
        MouseData {
            coordinates: Coordinates {
                client_x: s.client_x,
                client_y: s.client_y,
                offset_x: s.offset_x,
                offset_y: s.offset_y,
                page_x: s.page_x,
                page_y: s.page_y,
                screen_x: s.screen_x,
                screen_y: s.screen_y,
            },
            trigger_button: s.button,
            held_buttons: s.buttons,
            modifiers: Modifiers {
                alt: s.alt_key,
                ctrl: s.ctrl_key,
                meta: s.meta_key,
                shift: s.shift_key,
            },
        }
    }
}

/// A keyboard event as the wire carries it.
#[derive(Clone, Debug, PartialEq, Eq)]
pub struct SerializedKeyboardData {
    /// The key value, as the platform names it.
    pub key: String,
    /// The physical key code.
    pub code: String,
    /// Which keyboard area the key belongs to.
    pub location: u64,
    /// Whether the key is held and auto-repeating.
    pub repeat: bool,
    /// Whether an alt key was held.
    pub alt_key: bool,
    /// Whether a control key was held.
    pub ctrl_key: bool,
    /// Whether a meta key was held.
    pub meta_key: bool,
    /// Whether a shift key was held.
    pub shift_key: bool,
}

/// A keyboard event in its typed shape.
#[derive(Clone, Debug, PartialEq, Eq)]
pub struct KeyboardData {
    /// The key value, as the platform names it.
    pub key: String,
    /// The physical key code.
    pub code: String,
    /// Which keyboard area the key belongs to.
    pub location: u64,
    /// Whether the key is held and auto-repeating.
    pub is_auto_repeating: bool,
    /// The modifier keys held.
    pub modifiers: Modifiers,
}

impl KeyboardData {
    /// The one conversion from the wire shape: every field carried over,
    /// none invented.
    pub fn from_serialized(s: &SerializedKeyboardData) -> (r: KeyboardData)
        ensures
            r.key@ == s.key@,
            r.code@ == s.code@,
            r.location == s.location,
            r.is_auto_repeating == s.repeat,
            r.modifiers == (Modifiers {
                alt: s.alt_key,
                ctrl: s.ctrl_key,
                meta: s.meta_key,
                shift: s.shift_key,
            }),
    {
        KeyboardData {
            key: s.key.clone(),
            code: s.code.clone(),
            location: s.location,
            is_auto_repeating: s.repeat,
            modifiers: Modifiers {
                alt: s.alt_key,
                ctrl: s.ctrl_key,
                meta: s.meta_key,
                shift: s.shift_key,
            },
        }
    }
}

/// A pointer event as the wire carries it.
#[derive(Clone, Debug, PartialEq, Eq)]
pub struct SerializedPointerData {
    /// The pointer's identifier, unique while it is active.
    pub pointer_id: i64,
    /// The contact width.
    pub width: i64,
    /// The contact height.
    pub height: i64,
    /// Whether this is the primary pointer of its type.
    pub is_primary: bool,
    /// The pointer's device kind.
    pub pointer_type: String,
    /// Viewport x.
    pub client_x: i64,
    /// Viewport y.
    pub client_y: i64,
    /// Whether an alt key was held.
    pub alt_key: bool,
    /// Whether a control key was held.
    pub ctrl_key: bool,
    /// Whether a meta key was held.
    pub meta_key: bool,
    /// Whether a shift key was held.
    pub shift_key: bool,
}

/// A pointer event in its typed shape.
#[derive(Clone, Debug, PartialEq, Eq)]
pub struct PointerData {
    /// The pointer's identifier, unique while it is active.
    pub pointer_id: i64,
    /// The contact width.
    pub width: i64,
    /// The contact height.
    pub height: i64,
    /// Whether this is the primary pointer of its type.
    pub is_primary: bool,
    /// The pointer's device kind.
    pub pointer_type: String,
    /// Viewport x.
    pub client_x: i64,
    /// Viewport y.
    pub client_y: i64,
    /// The modifier keys held.
    pub modifiers: Modifiers,
}

impl PointerData {
    /// The one conversion from the wire shape: every field carried over,
    /// none invented.
    pub fn from_serialized(s: &SerializedPointerData) -> (r: PointerData)
        ensures
            r.pointer_id == s.pointer_id,
            r.width == s.width,
            r.height == s.height,
            r.is_primary == s.is_primary,
            r.pointer_type@ == s.pointer_type@,
            r.client_x == s.client_x,
            r.client_y == s.client_y,
            r.modifiers == (Modifiers {
                alt: s.alt_key,
                ctrl: s.ctrl_key,
                meta: s.meta_key,
                shift: s.shift_key,
            }),
    {
        PointerData {
            pointer_id: s.pointer_id,
            width: s.width,
            height: s.height,
            is_primary: s.is_primary,
            pointer_type: s.pointer_type.clone(),
            client_x: s.client_x,
            client_y: s.client_y,
            modifiers: Modifiers {
                alt: s.alt_key,
                ctrl: s.ctrl_key,
                meta: s.meta_key,
                shift: s.shift_key,
            },
        }
    }
}

/// An event payload in its wire shape: a closed set of kinds, one variant
/// each.
#[derive(Clone, Debug, PartialEq, Eq)]
pub enum EventData {
    /// A mouse event.
    Mouse(SerializedMouseData),
    /// A keyboard event.
    Keyboard(SerializedKeyboardData),
    /// A pointer event.
    Pointer(SerializedPointerData),
}

/// A payload kind that can be taken out of an `EventData` value.
pub trait EventVariant: Sized {
    /// The payload this kind reads out of an event, if the event is of this
    /// kind.
    spec fn of_event_spec(e: EventData) -> Option<Self>;

    /// Borrows this kind's payload from an event of this kind.
    fn of_event(e: &EventData) -> (r: Option<&Self>)
        ensures
            match r {
                Some(v) => Self::of_event_spec(*e) == Some(*v),
                None => Self::of_event_spec(*e) is None,
            },
    ;

    /// Takes this kind's payload out of an event of this kind.
    fn take(e: EventData) -> (r: Option<Self>)
        ensures
            r == Self::of_event_spec(e),
    ;

    /// The event `e` with its payload of this kind replaced by `v`.
    spec fn update_event_spec(e: EventData, v: Self) -> EventData;

    /// Borrows this kind's payload mutably from an event of this kind.
    fn of_event_mut(e: &mut EventData) -> (r: Option<&mut Self>)
        ensures
            match r {
                Some(v) => Self::of_event_spec(*old(e)) == Some(*v) && *final(e)
                    == Self::update_event_spec(*old(e), *final(v)),
                None => Self::of_event_spec(*old(e)) is None && *final(e) == *old(e),
            },
    ;
}

impl EventVariant for SerializedMouseData {
    open spec fn of_event_spec(e: EventData) -> Option<SerializedMouseData> {
        match e {
            EventData::Mouse(d) => Some(d),
            _ => None,
        }
    }

    fn of_event(e: &EventData) -> (r: Option<&SerializedMouseData>) {
        match e {
            EventData::Mouse(d) => Some(d),
            _ => None,
        }
    }

    fn take(e: EventData) -> (r: Option<SerializedMouseData>) {
        match e {
            EventData::Mouse(d) => Some(d),
            _ => None,
        }
    }

    open spec fn update_event_spec(e: EventData, v: SerializedMouseData) -> EventData {
        EventData::Mouse(v)
    }

    fn of_event_mut(e: &mut EventData) -> (r: Option<&mut SerializedMouseData>) {
        match e {
            EventData::Mouse(d) => Some(d),
            _ => None,
        }
    }
}

impl EventVariant for SerializedKeyboardData {
    open spec fn of_event_spec(e: EventData) -> Option<SerializedKeyboardData> {
        match e {
            EventData::Keyboard(d) => Some(d),
            _ => None,
        }
    }

    fn of_event(e: &EventData) -> (r: Option<&SerializedKeyboardData>) {
        match e {
            EventData::Keyboard(d) => Some(d),
            _ => None,
        }
    }

    fn take(e: EventData) -> (r: Option<SerializedKeyboardData>) {
        match e {
            EventData::Keyboard(d) => Some(d),
            _ => None,
        }
    }

    open spec fn update_event_spec(e: EventData, v: SerializedKeyboardData) -> EventData {
        EventData::Keyboard(v)
    }

    fn of_event_mut(e: &mut EventData) -> (r: Option<&mut SerializedKeyboardData>) {
        match e {
            EventData::Keyboard(d) => Some(d),
            _ => None,
        }
    }
}

impl EventVariant for SerializedPointerData {
    open spec fn of_event_spec(e: EventData) -> Option<SerializedPointerData> {
        match e {
            EventData::Pointer(d) => Some(d),
            _ => None,
        }
    }

    fn of_event(e: &EventData) -> (r: Option<&SerializedPointerData>) {
        match e {
            EventData::Pointer(d) => Some(d),
            _ => None,
        }
    }

    fn take(e: EventData) -> (r: Option<SerializedPointerData>) {
        match e {
            EventData::Pointer(d) => Some(d),
            _ => None,
        }
    }

    open spec fn update_event_spec(e: EventData, v: SerializedPointerData) -> EventData {
        EventData::Pointer(v)
    }

    fn of_event_mut(e: &mut EventData) -> (r: Option<&mut SerializedPointerData>) {
        match e {
            EventData::Pointer(d) => Some(d),
            _ => None,
        }
    }
}

/// A platform specific event: one payload of a known kind.
pub struct PlatformEventData {
    event: EventData,
}

impl PlatformEventData {
    /// The payload carried.
    pub closed spec fn payload(&self) -> EventData {
        self.event
    }

    /// Wraps one payload.
    pub fn new(event: EventData) -> (r: PlatformEventData)
        ensures
            r.payload() == event,
    {
        PlatformEventData { event }
    }

    /// Borrows the payload.
    pub fn inner(&self) -> (r: &EventData)
        ensures
            *r == self.payload(),
    {
        &self.event
    }

    /// Borrows the payload as one kind, where the event is of that kind.
    pub fn downcast<T: EventVariant>(&self) -> (r: Option<&T>)
        ensures
            match r {
                Some(v) => T::of_event_spec(self.payload()) == Some(*v),
                None => T::of_event_spec(self.payload()) is None,
            },
    {
        T::of_event(&self.event)
    }

    /// Borrows the payload mutably as one kind, where the event is of that
    /// kind: what the caller writes through it is what the event carries
    /// afterwards.
    pub fn downcast_mut<T: EventVariant>(&mut self) -> (r: Option<&mut T>)
        ensures
            match r {
                Some(v) => T::of_event_spec(old(self).payload()) == Some(*v)
                    && final(self).payload() == T::update_event_spec(
                    old(self).payload(),
                    *final(v),
                ),
                None => T::of_event_spec(old(self).payload()) is None && final(self).payload()
                    == old(self).payload(),
            },
    {
        T::of_event_mut(&mut self.event)
    }

    /// Takes the payload out as one kind, where the event is of that kind.
    pub fn into_inner<T: EventVariant>(self) -> (r: Option<T>)
        ensures
            r == T::of_event_spec(self.payload()),
    {
        T::take(self.event)
    }
}

/// Converts platform events into typed payloads. A renderer implements this
/// once; which conversions it may be asked for is fixed by each method's
/// precondition: a converter is never handed an event of the wrong kind.
pub trait HtmlEventConverter {
    /// Converts an event known to carry keyboard data.
    fn convert_keyboard_data(&self, event: &PlatformEventData) -> KeyboardData
        requires
            event.payload() is Keyboard,
    ;

    /// Converts an event known to carry mouse data.
    fn convert_mouse_data(&self, event: &PlatformEventData) -> MouseData
        requires
            event.payload() is Mouse,
    ;

    /// Converts an event known to carry pointer data.
    fn convert_pointer_data(&self, event: &PlatformEventData) -> PointerData
        requires
            event.payload() is Pointer,
    ;
}

/// The one explicitly initialized home of the active event converter,
/// created at startup and passed down to whoever interprets events.
pub struct ConverterHandle<C> {
    converter: Option<C>,
}

impl<C> ConverterHandle<C> {
    /// The converter held, where one was set.
    pub closed spec fn stored(&self) -> Option<C> {
        self.converter
    }

    /// A handle with no converter chosen yet.
    pub fn empty() -> (r: ConverterHandle<C>)
        ensures
            r.stored() is None,
    {
        ConverterHandle { converter: None }
    }
}

/// Chooses the active event converter: from here on the handle answers with
/// this one.
pub fn set_event_converter<C: HtmlEventConverter>(handle: &mut ConverterHandle<C>, converter: C)
    ensures
        final(handle).stored() == Some(converter),
{
    handle.converter = Some(converter);
}

/// Hands the active converter to `f` and returns what `f` makes of it.
pub fn with_event_converter<C: HtmlEventConverter, R, F: FnOnce(&C) -> R>(
    handle: &ConverterHandle<C>,
    f: F,
) -> (r: R)
    requires
        handle.stored() is Some,
        forall|c: &C| *c == handle.stored()->0 ==> call_requires(f, (c,)),
    ensures
        exists|c: &C| *c == handle.stored()->0 && call_ensures(f, (c,), r),
{
    match &handle.converter {
        Some(c) => f(c),
        None => unreached(),
    }
}

} // verus!
