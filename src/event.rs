use vstd::prelude::*;

verus! {

/// The base of the synthesized key codes: beyond the Unicode range
/// (1_114_112), rounded up to 1_115_000, as the input service numbers them.
pub const KEY_BASE: u32 = 1_115_000;

/// The code of the first mouse key (motion) and of the last (button 11).
pub const KEY_MOUSE_FIRST: u32 = 1_115_000 + 200;
pub const KEY_MOUSE_LAST: u32 = 1_115_000 + 211;

/// A key that is not a character: a function, navigation or mouse key.
#[derive(Clone, Copy, Debug, PartialEq, Eq, Structural)]
pub struct Key {
    pub code: u32,
}

impl Key {
    pub open spec fn is_mouse_spec(self) -> bool {
        KEY_MOUSE_FIRST <= self.code <= KEY_MOUSE_LAST
    }

    /// Whether this is a mouse key: motion or a button.
    pub fn is_mouse(&self) -> (r: bool)
        ensures
            r == self.is_mouse_spec(),
    {
        KEY_MOUSE_FIRST <= self.code && self.code <= KEY_MOUSE_LAST
    }
}

/// What an input poll received.
#[derive(Clone, Copy, Debug, PartialEq, Eq, Structural)]
pub enum Received {
    NoInput,
    Key(Key),
    Char(char),
}

/// Keyboard modifiers, one bit each.
#[derive(Clone, Copy, Debug, PartialEq, Eq, Structural)]
pub struct KeyMod {
    pub bits: u32,
}

pub const KEYMOD_SHIFT: u32 = 0x1;
pub const KEYMOD_ALT: u32 = 0x2;
pub const KEYMOD_CTRL: u32 = 0x4;
pub const KEYMOD_SUPER: u32 = 0x8;
pub const KEYMOD_HYPER: u32 = 0x10;
pub const KEYMOD_META: u32 = 0x20;
pub const KEYMOD_CAPSLOCK: u32 = 0x40;
pub const KEYMOD_NUMLOCK: u32 = 0x80;

/// The kind of an input event.
#[derive(Clone, Copy, Debug, PartialEq, Eq, Structural)]
pub enum InputType {
    Unknown,
    Press,
    Repeat,
    Release,
}

/// The input type that a raw event-type code stands for.
pub open spec fn input_type_spec(code: u32) -> InputType {
    if code == 1 {
        InputType::Press
    } else if code == 2 {
        InputType::Repeat
    } else if code == 3 {
        InputType::Release
    } else {
        InputType::Unknown
    }
}

impl InputType {
    /// The input type of a raw event-type code; unknown codes give `Unknown`.
    pub fn from_code(code: u32) -> (r: InputType)
        ensures
            r == input_type_spec(code),
    {
        if code == 1 {
            InputType::Press
        } else if code == 2 {
            InputType::Repeat
        } else if code == 3 {
            InputType::Release
        } else {
            InputType::Unknown
        }
    }
}

/// A position in rows and columns.
#[derive(Clone, Copy, Debug, PartialEq, Eq, Structural)]
pub struct Position {
    pub y: i32,
    pub x: i32,
}

/// A raw input record as the input service delivers it. A coordinate of -1
/// stands for "undefined".
#[derive(Clone, Copy, Debug, PartialEq, Eq, Structural)]
pub struct RawInput {
    pub modifiers: u32,
    pub evtype: u32,
    pub y: i32,
    pub x: i32,
    pub ypx: i32,
    pub xpx: i32,
}

/// An input event.
#[derive(Clone, Copy, Debug, PartialEq, Eq, Structural)]
pub struct Event {
    /// A received key or character.
    pub received: Received,
    /// Keyboard modifiers.
    pub keymod: KeyMod,
    /// The type of the input.
    pub itype: InputType,
    /// The cell position of a mouse event, if defined.
    pub cell: Option<Position>,
    /// The pixel offset within the cell of a mouse event, if defined.
    pub offset: Option<Position>,
}

/// Whether `received` is a mouse key.
pub open spec fn is_mouse_event(received: Received) -> bool {
    received matches Received::Key(k) && k.is_mouse_spec()
}

/// The event made of what was received and its raw record.
pub open spec fn event_spec(received: Received, input: RawInput) -> Event {
    Event {
        received,
        keymod: KeyMod { bits: input.modifiers },
        itype: input_type_spec(input.evtype),
        cell: if is_mouse_event(received) && input.y != -1 {
            Some(Position { y: input.y, x: input.x })
        } else {
            None
        },
        offset: if is_mouse_event(received) && input.ypx != -1 {
            Some(Position { y: input.ypx, x: input.xpx })
        } else {
            None
        },
    }
}

impl Event {
    /// Builds the event for what was received and its raw record. Only mouse
    /// events carry a cell position and a pixel offset, and each only where
    /// the record defines it.
    pub fn from_input(received: Received, input: RawInput) -> (r: Event)
        ensures
            r == event_spec(received, input),
    {
        let mut cell: Option<Position> = None;
        let mut offset: Option<Position> = None;
        if let Received::Key(k) = received {
            if k.is_mouse() {
                if input.y != -1 {
                    cell = Some(Position { y: input.y, x: input.x });
                }
                if input.ypx != -1 {
                    offset = Some(Position { y: input.ypx, x: input.xpx });
                }
            }
        }
        Event {
            received,
            keymod: KeyMod { bits: input.modifiers },
            itype: InputType::from_code(input.evtype),
            cell,
            offset,
        }
    }

    /// Returns true if something has been received.
    pub fn is_received(&self) -> (r: bool)
        ensures
            r == !(self.received is NoInput),
    {
        !matches!(self.received, Received::NoInput)
    }

    /// Returns true if a key has been received.
    pub fn has_key(&self) -> (r: bool)
        ensures
            r == (self.received is Key),
    {
        matches!(self.received, Received::Key(_))
    }

    /// Returns true if the key `key` has been received.
    pub fn is_key(&self, key: Key) -> (r: bool)
        ensures
            r == (self.received == Received::Key(key)),
    {
        match self.received {
            Received::Key(k) => k.code == key.code,
            _ => false,
        }
    }

    /// Returns true if a character has been received.
    pub fn has_char(&self) -> (r: bool)
        ensures
            r == (self.received is Char),
    {
        matches!(self.received, Received::Char(_))
    }

    /// Returns true if the character `character` has been received.
    pub fn is_char(&self, character: char) -> (r: bool)
        ensures
            r == (self.received == Received::Char(character)),
    {
        match self.received {
            Received::Char(c) => c == character,
            _ => false,
        }
    }
}

/// Key and character events never carry a position; a mouse event carries a
/// cell position exactly when the record's row is defined, and it is the
/// record's position.
pub proof fn lemma_event_positions(received: Received, input: RawInput)
    ensures
        !is_mouse_event(received) ==> event_spec(received, input).cell is None
            && event_spec(received, input).offset is None,
        is_mouse_event(received) ==> (input.y == -1 <==> event_spec(received, input).cell is None),
        is_mouse_event(received) && input.y != -1 ==> event_spec(received, input).cell == Some(
            Position { y: input.y, x: input.x },
        ),
        is_mouse_event(received) ==> (input.ypx == -1 <==> event_spec(received, input).offset is None),
{
}

} // verus!
