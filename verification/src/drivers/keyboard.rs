//! The PS/2 keyboard: decoding of scan-code set 1 into key events, the
//! modifier state it keeps between scan codes, and the ring buffer that
//! holds decoded events until they are read.
use vstd::prelude::*;
use crate::drivers::vga::PortOp;

verus! {

pub const DATA_PORT: u16 = 0x60;

pub const STATUS_PORT: u16 = 0x64;

pub const PIC1_CMD: u16 = 0x20;

pub const PIC_EOI: u8 = 0x20;

pub const KEYBOARD_IRQ: u8 = 1;

pub const SHIFT_LEFT: u16 = 1;

pub const SHIFT_RIGHT: u16 = 2;

pub const GUI_LEFT: u16 = 4;

pub const GUI_RIGHT: u16 = 8;

pub const CTRL_LEFT: u16 = 16;

pub const CTRL_RIGHT: u16 = 32;

pub const ALT_LEFT: u16 = 64;

pub const ALT_RIGHT: u16 = 128;

pub const CAPS_LOCK: u16 = 256;

/// Number of slots of the ring buffer; one is always left free.
pub const RING_SLOTS: usize = 256;

#[derive(Clone, Copy, PartialEq, Eq, Structural, Debug)]
pub struct KeyModifiers {
    pub shift: bool,
    pub ctrl: bool,
    pub alt: bool,
    pub gui: bool,
    pub caps_lock: bool,
}

#[derive(Clone, Copy, PartialEq, Eq, Structural, Debug)]
pub enum NavKey {
    ArrowUp,
    ArrowDown,
    ArrowLeft,
    ArrowRight,
    Home,
    End,
    Insert,
    Delete,
    PageUp,
    PageDown,
}

#[derive(Clone, Copy, PartialEq, Eq, Structural, Debug)]
pub enum MediaKey {
    PrevTrack,
    NextTrack,
    Mute,
    Calculator,
    Play,
    Stop,
    VolumeDown,
    VolumeUp,
    WwwHome,
    WwwSearch,
    WwwFavorites,
    WwwRefresh,
    WwwStop,
    WwwForward,
    WwwBack,
    MyComputer,
    Email,
    MediaSelect,
}

#[derive(Clone, Copy, PartialEq, Eq, Structural, Debug)]
pub enum Key {
    Empty,
    Char(u8),
    Function(u8),
    Nav(NavKey),
    Media(MediaKey),
}

#[derive(Clone, Copy, PartialEq, Eq, Structural, Debug)]
pub struct KeyEvent {
    pub key: Key,
    pub mods: KeyModifiers,
}

pub open spec fn no_mods() -> KeyModifiers {
    KeyModifiers { shift: false, ctrl: false, alt: false, gui: false, caps_lock: false }
}

impl KeyEvent {
    /// The empty event: no key, no modifier.
    pub fn new() -> (r: Self)
        ensures
            r == (KeyEvent { key: Key::Empty, mods: no_mods() }),
    {
        KeyEvent {
            key: Key::Empty,
            mods: KeyModifiers { shift: false, ctrl: false, alt: false, gui: false, caps_lock: false },
        }
    }
}

/// A queue of key events in 256 slots: `head` is where the next event goes,
/// `tail` where the next one is read. It holds at most 255 events.
pub struct RingBuffer {
    head: u8,
    tail: u8,
    buffer: Vec<KeyEvent>,
}

impl View for RingBuffer {
    type V = Seq<KeyEvent>;

    /// The queued events, oldest first.
    closed spec fn view(&self) -> Seq<KeyEvent> {
        let len = (self.head - self.tail + 256) % 256;
        Seq::new(len as nat, |i: int| self.buffer@[(self.tail + i) % 256])
    }
}

impl RingBuffer {
    pub closed spec fn wf(&self) -> bool {
        self.buffer@.len() == RING_SLOTS
    }

    pub fn new() -> (r: Self)
        ensures
            r.wf(),
            r@ == Seq::<KeyEvent>::empty(),
    {
        let mut buffer: Vec<KeyEvent> = Vec::new();
        let mut i: usize = 0;
        while i < RING_SLOTS
            invariant
                i <= RING_SLOTS,
                buffer@.len() == i,
            decreases RING_SLOTS - i,
        {
            buffer.push(KeyEvent::new());
            i = i + 1;
        }
        let r = RingBuffer { head: 0, tail: 0, buffer };
        assert(r@ =~= Seq::<KeyEvent>::empty());
        r
    }

    pub fn len(&self) -> (r: usize)
        requires
            self.wf(),
        ensures
            r == self@.len(),
    {
        ((self.head as usize + 256 - self.tail as usize) % 256) as usize
    }

    proof fn lemma_len(&self)
        requires
            self.wf(),
        ensures
            self@.len() < RING_SLOTS,
            self@.len() == 0 <==> self.head == self.tail,
    {
    }

    /// Queues `value`; when 255 events are already queued the event is
    /// dropped.
    pub fn push(&mut self, value: KeyEvent)
        requires
            old(self).wf(),
        ensures
            final(self).wf(),
            old(self)@.len() == 255 ==> final(self)@ == old(self)@,
            old(self)@.len() < 255 ==> final(self)@ == old(self)@.push(value),
    {
        let next = self.head.wrapping_add(1);
        proof {
            self.lemma_len();
        }
        if next == self.tail {
            return;
        }
        let ghost old_v = self@;
        let ghost h = self.head as int;
        self.buffer.set(self.head as usize, value);
        self.head = next;
        assert forall|i: int| 0 <= i < old_v.len() implies #[trigger] old_v[i] == self@[i] by {
            assert((self.tail + i) % 256 != h);
        }
        assert(self@ =~= old_v.push(value));
    }

    /// Takes the oldest queued event.
    pub fn pop(&mut self) -> (r: Option<KeyEvent>)
        requires
            old(self).wf(),
        ensures
            final(self).wf(),
            old(self)@.len() == 0 ==> r is None && final(self)@ == old(self)@,
            old(self)@.len() > 0 ==> r == Some(old(self)@[0]) && final(self)@ == old(self)@.drop_first(),
    {
        proof {
            self.lemma_len();
        }
        if self.head == self.tail {
            return None;
        }
        let ghost old_v = self@;
        let ev = self.buffer[self.tail as usize];
        self.tail = self.tail.wrapping_add(1);
        assert(self@ =~= old_v.drop_first());
        Some(ev)
    }
}

/// A queue with room for one more event takes it at the back, and the
/// oldest event is read first: pushing onto an empty queue and popping gives
/// the event back and empties the queue again.
pub proof fn lemma_fifo(q: Seq<KeyEvent>, e: KeyEvent)
    requires
        q.len() < 255,
    ensures
        q.push(e).len() == q.len() + 1,
        q.len() == 0 ==> q.push(e)[0] == e && q.push(e).drop_first() =~= q,
        q.len() > 0 ==> q.push(e)[0] == q[0] && q.push(e).drop_first() =~= q.drop_first().push(e),
{
}


/// Character of a scan code with no shift in effect (0 for none).
pub open spec fn normal_char(sc: u8) -> u8 {
    match sc {
        0x02 => 0x31u8,
        0x03 => 0x32u8,
        0x04 => 0x33u8,
        0x05 => 0x34u8,
        0x06 => 0x35u8,
        0x07 => 0x36u8,
        0x08 => 0x37u8,
        0x09 => 0x38u8,
        0x0A => 0x39u8,
        0x0B => 0x30u8,
        0x0C => 0x2Du8,
        0x0D => 0x3Du8,
        0x0E => 0x08u8,
        0x0F => 0x09u8,
        0x10 => 0x71u8,
        0x11 => 0x77u8,
        0x12 => 0x65u8,
        0x13 => 0x72u8,
        0x14 => 0x74u8,
        0x15 => 0x79u8,
        0x16 => 0x75u8,
        0x17 => 0x69u8,
        0x18 => 0x6Fu8,
        0x19 => 0x70u8,
        0x1A => 0x5Bu8,
        0x1B => 0x5Du8,
        0x1C => 0x0Au8,
        0x1E => 0x61u8,
        0x1F => 0x73u8,
        0x20 => 0x64u8,
        0x21 => 0x66u8,
        0x22 => 0x67u8,
        0x23 => 0x68u8,
        0x24 => 0x6Au8,
        0x25 => 0x6Bu8,
        0x26 => 0x6Cu8,
        0x27 => 0x3Bu8,
        0x28 => 0x27u8,
        0x29 => 0x60u8,
        0x2B => 0x5Cu8,
        0x2C => 0x7Au8,
        0x2D => 0x78u8,
        0x2E => 0x63u8,
        0x2F => 0x76u8,
        0x30 => 0x62u8,
        0x31 => 0x6Eu8,
        0x32 => 0x6Du8,
        0x33 => 0x2Cu8,
        0x34 => 0x2Eu8,
        0x35 => 0x2Fu8,
        0x39 => 0x20u8,
        _ => 0u8,
    }
}

/// Character of a scan code with shift in effect (0 for none).
pub open spec fn shifted_char(sc: u8) -> u8 {
    match sc {
        0x02 => 0x21u8,
        0x03 => 0x40u8,
        0x04 => 0x23u8,
        0x05 => 0x24u8,
        0x06 => 0x25u8,
        0x07 => 0x5Eu8,
        0x08 => 0x26u8,
        0x09 => 0x2Au8,
        0x0A => 0x28u8,
        0x0B => 0x29u8,
        0x0C => 0x5Fu8,
        0x0D => 0x2Bu8,
        0x0E => 0x08u8,
        0x0F => 0x09u8,
        0x10 => 0x51u8,
        0x11 => 0x57u8,
        0x12 => 0x45u8,
        0x13 => 0x52u8,
        0x14 => 0x54u8,
        0x15 => 0x59u8,
        0x16 => 0x55u8,
        0x17 => 0x49u8,
        0x18 => 0x4Fu8,
        0x19 => 0x50u8,
        0x1A => 0x7Bu8,
        0x1B => 0x7Du8,
        0x1C => 0x0Au8,
        0x1E => 0x41u8,
        0x1F => 0x53u8,
        0x20 => 0x44u8,
        0x21 => 0x46u8,
        0x22 => 0x47u8,
        0x23 => 0x48u8,
        0x24 => 0x4Au8,
        0x25 => 0x4Bu8,
        0x26 => 0x4Cu8,
        0x27 => 0x3Au8,
        0x28 => 0x22u8,
        0x29 => 0x7Eu8,
        0x2B => 0x7Cu8,
        0x2C => 0x5Au8,
        0x2D => 0x58u8,
        0x2E => 0x43u8,
        0x2F => 0x56u8,
        0x30 => 0x42u8,
        0x31 => 0x4Eu8,
        0x32 => 0x4Du8,
        0x33 => 0x3Cu8,
        0x34 => 0x3Eu8,
        0x35 => 0x3Fu8,
        0x39 => 0x20u8,
        _ => 0u8,
    }
}

/// The key of a scan code that follows the 0xE0 prefix.
pub open spec fn extended_key(sc: u8) -> Key {
    match sc {
        0x47 => Key::Nav(NavKey::Home),
        0x48 => Key::Nav(NavKey::ArrowUp),
        0x4B => Key::Nav(NavKey::ArrowLeft),
        0x4D => Key::Nav(NavKey::ArrowRight),
        0x4F => Key::Nav(NavKey::End),
        0x50 => Key::Nav(NavKey::ArrowDown),
        0x51 => Key::Nav(NavKey::PageDown),
        0x52 => Key::Nav(NavKey::Insert),
        0x53 => Key::Nav(NavKey::Delete),
        0x49 => Key::Nav(NavKey::PageUp),
        0x10 => Key::Media(MediaKey::PrevTrack),
        0x19 => Key::Media(MediaKey::NextTrack),
        0x20 => Key::Media(MediaKey::Mute),
        0x21 => Key::Media(MediaKey::Calculator),
        0x22 => Key::Media(MediaKey::Play),
        0x24 => Key::Media(MediaKey::Stop),
        0x2E => Key::Media(MediaKey::VolumeDown),
        0x30 => Key::Media(MediaKey::VolumeUp),
        0x32 => Key::Media(MediaKey::WwwHome),
        0x65 => Key::Media(MediaKey::WwwSearch),
        0x66 => Key::Media(MediaKey::WwwFavorites),
        0x67 => Key::Media(MediaKey::WwwRefresh),
        0x68 => Key::Media(MediaKey::WwwStop),
        0x69 => Key::Media(MediaKey::WwwForward),
        0x6A => Key::Media(MediaKey::WwwBack),
        0x6B => Key::Media(MediaKey::MyComputer),
        0x6C => Key::Media(MediaKey::Email),
        0x6D => Key::Media(MediaKey::MediaSelect),
        _ => Key::Empty,
    }
}

fn scancode_normal(sc: u8) -> (r: u8)
    ensures
        r == normal_char(sc),
{
    match sc {
        0x02 => 0x31u8,
        0x03 => 0x32u8,
        0x04 => 0x33u8,
        0x05 => 0x34u8,
        0x06 => 0x35u8,
        0x07 => 0x36u8,
        0x08 => 0x37u8,
        0x09 => 0x38u8,
        0x0A => 0x39u8,
        0x0B => 0x30u8,
        0x0C => 0x2Du8,
        0x0D => 0x3Du8,
        0x0E => 0x08u8,
        0x0F => 0x09u8,
        0x10 => 0x71u8,
        0x11 => 0x77u8,
        0x12 => 0x65u8,
        0x13 => 0x72u8,
        0x14 => 0x74u8,
        0x15 => 0x79u8,
        0x16 => 0x75u8,
        0x17 => 0x69u8,
        0x18 => 0x6Fu8,
        0x19 => 0x70u8,
        0x1A => 0x5Bu8,
        0x1B => 0x5Du8,
        0x1C => 0x0Au8,
        0x1E => 0x61u8,
        0x1F => 0x73u8,
        0x20 => 0x64u8,
        0x21 => 0x66u8,
        0x22 => 0x67u8,
        0x23 => 0x68u8,
        0x24 => 0x6Au8,
        0x25 => 0x6Bu8,
        0x26 => 0x6Cu8,
        0x27 => 0x3Bu8,
        0x28 => 0x27u8,
        0x29 => 0x60u8,
        0x2B => 0x5Cu8,
        0x2C => 0x7Au8,
        0x2D => 0x78u8,
        0x2E => 0x63u8,
        0x2F => 0x76u8,
        0x30 => 0x62u8,
        0x31 => 0x6Eu8,
        0x32 => 0x6Du8,
        0x33 => 0x2Cu8,
        0x34 => 0x2Eu8,
        0x35 => 0x2Fu8,
        0x39 => 0x20u8,
        _ => 0u8,
    }
}

fn scancode_shifted(sc: u8) -> (r: u8)
    ensures
        r == shifted_char(sc),
{
    match sc {
        0x02 => 0x21u8,
        0x03 => 0x40u8,
        0x04 => 0x23u8,
        0x05 => 0x24u8,
        0x06 => 0x25u8,
        0x07 => 0x5Eu8,
        0x08 => 0x26u8,
        0x09 => 0x2Au8,
        0x0A => 0x28u8,
        0x0B => 0x29u8,
        0x0C => 0x5Fu8,
        0x0D => 0x2Bu8,
        0x0E => 0x08u8,
        0x0F => 0x09u8,
        0x10 => 0x51u8,
        0x11 => 0x57u8,
        0x12 => 0x45u8,
        0x13 => 0x52u8,
        0x14 => 0x54u8,
        0x15 => 0x59u8,
        0x16 => 0x55u8,
        0x17 => 0x49u8,
        0x18 => 0x4Fu8,
        0x19 => 0x50u8,
        0x1A => 0x7Bu8,
        0x1B => 0x7Du8,
        0x1C => 0x0Au8,
        0x1E => 0x41u8,
        0x1F => 0x53u8,
        0x20 => 0x44u8,
        0x21 => 0x46u8,
        0x22 => 0x47u8,
        0x23 => 0x48u8,
        0x24 => 0x4Au8,
        0x25 => 0x4Bu8,
        0x26 => 0x4Cu8,
        0x27 => 0x3Au8,
        0x28 => 0x22u8,
        0x29 => 0x7Eu8,
        0x2B => 0x7Cu8,
        0x2C => 0x5Au8,
        0x2D => 0x58u8,
        0x2E => 0x43u8,
        0x2F => 0x56u8,
        0x30 => 0x42u8,
        0x31 => 0x4Eu8,
        0x32 => 0x4Du8,
        0x33 => 0x3Cu8,
        0x34 => 0x3Eu8,
        0x35 => 0x3Fu8,
        0x39 => 0x20u8,
        _ => 0u8,
    }
}

fn extended(sc: u8) -> (r: Key)
    ensures
        r == extended_key(sc),
{
    match sc {
        0x47 => Key::Nav(NavKey::Home),
        0x48 => Key::Nav(NavKey::ArrowUp),
        0x4B => Key::Nav(NavKey::ArrowLeft),
        0x4D => Key::Nav(NavKey::ArrowRight),
        0x4F => Key::Nav(NavKey::End),
        0x50 => Key::Nav(NavKey::ArrowDown),
        0x51 => Key::Nav(NavKey::PageDown),
        0x52 => Key::Nav(NavKey::Insert),
        0x53 => Key::Nav(NavKey::Delete),
        0x49 => Key::Nav(NavKey::PageUp),
        0x10 => Key::Media(MediaKey::PrevTrack),
        0x19 => Key::Media(MediaKey::NextTrack),
        0x20 => Key::Media(MediaKey::Mute),
        0x21 => Key::Media(MediaKey::Calculator),
        0x22 => Key::Media(MediaKey::Play),
        0x24 => Key::Media(MediaKey::Stop),
        0x2E => Key::Media(MediaKey::VolumeDown),
        0x30 => Key::Media(MediaKey::VolumeUp),
        0x32 => Key::Media(MediaKey::WwwHome),
        0x65 => Key::Media(MediaKey::WwwSearch),
        0x66 => Key::Media(MediaKey::WwwFavorites),
        0x67 => Key::Media(MediaKey::WwwRefresh),
        0x68 => Key::Media(MediaKey::WwwStop),
        0x69 => Key::Media(MediaKey::WwwForward),
        0x6A => Key::Media(MediaKey::WwwBack),
        0x6B => Key::Media(MediaKey::MyComputer),
        0x6C => Key::Media(MediaKey::Email),
        0x6D => Key::Media(MediaKey::MediaSelect),
        _ => Key::Empty,
    }
}


/// The modifier keys held (one bit per key, CAPS_LOCK toggled) and whether
/// the previous scan code was the 0xE0 prefix.
#[derive(Clone, Copy, PartialEq, Eq, Structural, Debug)]
pub struct KeyboardState {
    pub mods: u16,
    pub ext: bool,
}

/// What one scan code does: the state after it, the event it queues, and
/// whether the interrupt controller is acknowledged.
pub struct Decoded {
    pub state: KeyboardState,
    pub event: Option<KeyEvent>,
    pub eoi: bool,
}

pub open spec fn has(mods: u16, mask: u16) -> bool {
    mods & mask == mask
}

pub open spec fn modifiers_of(mods: u16) -> KeyModifiers {
    KeyModifiers {
        shift: has(mods, SHIFT_LEFT) || has(mods, SHIFT_RIGHT),
        ctrl: has(mods, CTRL_LEFT) || has(mods, CTRL_RIGHT),
        alt: has(mods, ALT_LEFT) || has(mods, ALT_RIGHT),
        gui: has(mods, GUI_LEFT) || has(mods, GUI_RIGHT),
        caps_lock: has(mods, CAPS_LOCK),
    }
}

/// Scan codes of the letter keys, whose case caps lock inverts.
pub open spec fn is_letter(sc: u8) -> bool {
    (0x10 <= sc <= 0x19) || (0x1E <= sc <= 0x26) || (0x2C <= sc <= 0x32)
}

/// The character typed by make code `sc` under modifier bits `mods`.
pub open spec fn typed_char(mods: u16, sc: u8) -> u8 {
    let shift = has(mods, SHIFT_LEFT) || has(mods, SHIFT_RIGHT);
    let effective = if is_letter(sc) { shift != has(mods, CAPS_LOCK) } else { shift };
    if effective { shifted_char(sc) } else { normal_char(sc) }
}

pub open spec fn pressed(s: KeyboardState, mask: u16) -> KeyboardState {
    KeyboardState { mods: s.mods | mask, ..s }
}

pub open spec fn released(s: KeyboardState, mask: u16) -> KeyboardState {
    KeyboardState { mods: s.mods & !mask, ..s }
}

pub open spec fn toggled(s: KeyboardState, mask: u16) -> KeyboardState {
    KeyboardState { mods: s.mods ^ mask, ..s }
}

pub open spec fn ack(state: KeyboardState) -> Decoded {
    Decoded { state, event: None, eoi: true }
}

pub open spec fn emit(state: KeyboardState, key: Key) -> Decoded {
    Decoded { state, event: Some(KeyEvent { key, mods: modifiers_of(state.mods) }), eoi: true }
}

impl KeyboardState {
    pub open spec fn decode(self, sc: u8) -> Decoded {
        if sc == 0 {
            Decoded { state: self, event: None, eoi: false }
        } else if sc == 0xE0 {
            ack(KeyboardState { ext: true, ..self })
        } else if self.ext {
            let s = KeyboardState { ext: false, ..self };
            if sc >= 0x80 {
                let r = (sc - 0x80) as u8;
                ack(
                    if r == 0x1D { released(s, CTRL_RIGHT) }
                    else if r == 0x38 { released(s, ALT_RIGHT) }
                    else if r == 0x5B { released(s, GUI_LEFT) }
                    else if r == 0x5C { released(s, GUI_RIGHT) }
                    else { s }
                )
            } else if sc == 0x1D {
                ack(pressed(s, CTRL_RIGHT))
            } else if sc == 0x38 {
                ack(pressed(s, ALT_RIGHT))
            } else if sc == 0x5B {
                ack(pressed(s, GUI_LEFT))
            } else if sc == 0x5C {
                ack(pressed(s, GUI_RIGHT))
            } else if extended_key(sc) == Key::Empty {
                ack(s)
            } else {
                emit(s, extended_key(sc))
            }
        } else if sc >= 0x80 {
            let r = (sc - 0x80) as u8;
            ack(
                if r == 0x2A { released(self, SHIFT_LEFT) }
                else if r == 0x36 { released(self, SHIFT_RIGHT) }
                else if r == 0x1D { released(self, CTRL_LEFT) }
                else if r == 0x38 { released(self, ALT_LEFT) }
                else { self }
            )
        } else if sc == 0x2A {
            ack(pressed(self, SHIFT_LEFT))
        } else if sc == 0x36 {
            ack(pressed(self, SHIFT_RIGHT))
        } else if sc == 0x1D {
            ack(pressed(self, CTRL_LEFT))
        } else if sc == 0x38 {
            ack(pressed(self, ALT_LEFT))
        } else if sc == 0x3A {
            ack(toggled(self, CAPS_LOCK))
        } else if 0x3B <= sc <= 0x44 {
            emit(self, Key::Function((sc - 0x3B) as u8))
        } else if sc == 0x57 || sc == 0x58 {
            emit(self, Key::Function((sc - 0x57 + 10) as u8))
        } else {
            let c = typed_char(self.mods, sc);
            Decoded {
                state: self,
                event: if c == 0 { None } else { Some(KeyEvent { key: Key::Char(c), mods: modifiers_of(self.mods) }) },
                eoi: false,
            }
        }
    }
}

/// The keyboard's state at power-on: no modifier held, no prefix seen.
pub fn init_state() -> (r: KeyboardState)
    ensures
        r == (KeyboardState { mods: 0, ext: false }),
{
    KeyboardState { mods: 0, ext: false }
}

fn press_modifier(state: &mut KeyboardState, mask: u16)
    ensures
        *final(state) == pressed(*old(state), mask),
{
    state.mods = state.mods | mask;
}

fn release_modifier(state: &mut KeyboardState, mask: u16)
    ensures
        *final(state) == released(*old(state), mask),
{
    state.mods = state.mods & !mask;
}

fn toggle_modifier(state: &mut KeyboardState, mask: u16)
    ensures
        *final(state) == toggled(*old(state), mask),
{
    state.mods = state.mods ^ mask;
}

pub fn snapshot_mods(mods: u16) -> (r: KeyModifiers)
    ensures
        r == modifiers_of(mods),
{
    KeyModifiers {
        shift: (mods & SHIFT_LEFT == SHIFT_LEFT) || (mods & SHIFT_RIGHT == SHIFT_RIGHT),
        ctrl: (mods & CTRL_LEFT == CTRL_LEFT) || (mods & CTRL_RIGHT == CTRL_RIGHT),
        alt: (mods & ALT_LEFT == ALT_LEFT) || (mods & ALT_RIGHT == ALT_RIGHT),
        gui: (mods & GUI_LEFT == GUI_LEFT) || (mods & GUI_RIGHT == GUI_RIGHT),
        caps_lock: mods & CAPS_LOCK == CAPS_LOCK,
    }
}

proof fn lemma_high_bit(sc: u8)
    ensures
        (sc & 0x80 != 0) == (sc >= 0x80),
        sc >= 0x80 ==> sc & 0x7F == sc - 0x80,
{
    assert((sc & 0x80 != 0) == (sc >= 0x80)) by (bit_vector);
    assert(sc >= 0x80 ==> sc & 0x7F == sc - 0x80) by (bit_vector);
}

/// The byte the interrupt controller is sent at the end of an interrupt.
pub fn eoi() -> (r: (u16, u8))
    ensures
        r == (PIC1_CMD, PIC_EOI),
{
    (PIC1_CMD, PIC_EOI)
}

/// True when the controller's status byte says a scan code is waiting.
pub fn output_full(status: u8) -> (r: bool)
    ensures
        r == (status % 2 == 1),
{
    assert((status & 1 != 0) == (status % 2 == 1)) by (bit_vector);
    status & 1 != 0
}

/// One polling step, from the controller's status byte: the read of the
/// data port to perform when a scan code is waiting (its byte then goes to
/// `keyboard_handler`), nothing otherwise.
pub fn poll(status: u8) -> (r: Option<PortOp>)
    ensures
        status % 2 == 1 ==> r == Some(PortOp::In { port: DATA_PORT }),
        status % 2 == 0 ==> r is None,
{
    if output_full(status) {
        Some(PortOp::In { port: DATA_PORT })
    } else {
        None
    }
}

/// Handles one scan code read from the data port: updates the modifier
/// state, queues the event it stands for, and says whether the interrupt
/// is to be acknowledged.
pub fn keyboard_handler(state: &mut KeyboardState, rb: &mut RingBuffer, scancode: u8) -> (eoi: bool)
    requires
        old(rb).wf(),
    ensures
        final(rb).wf(),
        *final(state) == old(state).decode(scancode).state,
        eoi == old(state).decode(scancode).eoi,
        match old(state).decode(scancode).event {
            Some(e) => old(rb)@.len() < 255 ==> final(rb)@ == old(rb)@.push(e),
            None => final(rb)@ == old(rb)@,
        },
        old(rb)@.len() == 255 ==> final(rb)@ == old(rb)@,
{
    proof {
        lemma_high_bit(scancode);
    }
    if scancode == 0 {
        return false;
    }
    if scancode == 0xE0 {
        state.ext = true;
        return true;
    }
    if state.ext {
        state.ext = false;
        if scancode & 0x80 != 0 {
            let released = scancode & 0x7F;
            match released {
                0x1D => release_modifier(state, CTRL_RIGHT),
                0x38 => release_modifier(state, ALT_RIGHT),
                0x5B => release_modifier(state, GUI_LEFT),
                0x5C => release_modifier(state, GUI_RIGHT),
                _ => {},
            }
            return true;
        }
        match scancode {
            0x1D => {
                press_modifier(state, CTRL_RIGHT);
                return true;
            },
            0x38 => {
                press_modifier(state, ALT_RIGHT);
                return true;
            },
            0x5B => {
                press_modifier(state, GUI_LEFT);
                return true;
            },
            0x5C => {
                press_modifier(state, GUI_RIGHT);
                return true;
            },
            _ => {},
        }
        let val = extended(scancode);
        if !matches!(val, Key::Empty) {
            rb.push(KeyEvent { key: val, mods: snapshot_mods(state.mods) });
        }
        return true;
    }
    if scancode & 0x80 != 0 {
        let released = scancode & 0x7F;
        match released {
            0x2A => release_modifier(state, SHIFT_LEFT),
            0x36 => release_modifier(state, SHIFT_RIGHT),
            0x1D => release_modifier(state, CTRL_LEFT),
            0x38 => release_modifier(state, ALT_LEFT),
            _ => {},
        }
        return true;
    }
    match scancode {
        0x2A => {
            press_modifier(state, SHIFT_LEFT);
            return true;
        },
        0x36 => {
            press_modifier(state, SHIFT_RIGHT);
            return true;
        },
        0x1D => {
            press_modifier(state, CTRL_LEFT);
            return true;
        },
        0x38 => {
            press_modifier(state, ALT_LEFT);
            return true;
        },
        0x3A => {
            toggle_modifier(state, CAPS_LOCK);
            return true;
        },
        0x3B..=0x44 => {
            rb.push(KeyEvent { key: Key::Function(scancode - 0x3B), mods: snapshot_mods(state.mods) });
            return true;
        },
        0x57 | 0x58 => {
            rb.push(KeyEvent { key: Key::Function(scancode - 0x57 + 10), mods: snapshot_mods(state.mods) });
            return true;
        },
        _ => {},
    }
    let mods = state.mods;
    let shift_active = (mods & SHIFT_LEFT == SHIFT_LEFT) || (mods & SHIFT_RIGHT == SHIFT_RIGHT);
    let is_letter = (0x10 <= scancode && scancode <= 0x19) || (0x1E <= scancode && scancode <= 0x26)
        || (0x2C <= scancode && scancode <= 0x32);
    let effective_shift = if is_letter {
        shift_active != (mods & CAPS_LOCK == CAPS_LOCK)
    } else {
        shift_active
    };
    let c = if effective_shift {
        scancode_shifted(scancode)
    } else {
        scancode_normal(scancode)
    };
    if c != 0 {
        rb.push(KeyEvent { key: Key::Char(c), mods: snapshot_mods(state.mods) });
    }
    false
}


/// Function keys F1..F12 decode to `Key::Function(0)` ..
/// `Key::Function(11)`; no scan code decodes to a higher function number.
pub proof fn lemma_function_keys_below_twelve(s: KeyboardState, sc: u8)
    ensures
        s.decode(sc).event matches Some(e) ==> (e.key matches Key::Function(f) ==> f < 12),
        !s.ext && 0x3B <= sc <= 0x44 ==> s.decode(sc).event == Some(
            KeyEvent { key: Key::Function((sc - 0x3B) as u8), mods: modifiers_of(s.mods) },
        ),
        !s.ext && (sc == 0x57 || sc == 0x58) ==> s.decode(sc).event == Some(
            KeyEvent { key: Key::Function((sc - 0x57 + 10) as u8), mods: modifiers_of(s.mods) },
        ),
{
}

/// Caps lock inverts the case of letters only: a letter key gives the
/// shifted character exactly when one of shift and caps lock is in effect,
/// and any other key gives it exactly when shift is held; a letter key
/// always queues its character.
pub proof fn lemma_caps_lock_letters(mods: u16, sc: u8)
    ensures
        is_letter(sc) ==> (KeyboardState { mods, ext: false }).decode(sc).event == Some(
            KeyEvent { key: Key::Char(typed_char(mods, sc)), mods: modifiers_of(mods) },
        ),
        is_letter(sc) ==> (typed_char(mods, sc) == if (has(mods, SHIFT_LEFT) || has(mods, SHIFT_RIGHT)) != has(mods, CAPS_LOCK) {
            shifted_char(sc)
        } else {
            normal_char(sc)
        }),
        !is_letter(sc) ==> (typed_char(mods, sc) == if has(mods, SHIFT_LEFT) || has(mods, SHIFT_RIGHT) {
            shifted_char(sc)
        } else {
            normal_char(sc)
        }),
{
}

/// Pressing and releasing a modifier that was not held gives back the
/// modifier state; toggling caps lock twice changes nothing.
pub proof fn lemma_press_release(s: KeyboardState, mask: u16)
    requires
        s.mods & mask == 0,
    ensures
        released(pressed(s, mask), mask) == s,
        toggled(toggled(s, mask), mask) == s,
{
    let m = s.mods;
    assert((m | mask) & !mask == m) by (bit_vector)
        requires m & mask == 0;
    assert((m ^ mask) ^ mask == m) by (bit_vector);
}

/// Pressing a modifier key and letting it go gives back the state it was
/// pressed in, when that modifier was not held already: the left and right
/// shift keys, left ctrl and left alt, and (after the 0xE0 prefix) right
/// ctrl, right alt and the two GUI keys.
pub proof fn lemma_modifier_make_break(s: KeyboardState)
    requires
        !s.ext,
    ensures
        s.mods & SHIFT_LEFT == 0 ==> s.decode(0x2A).state.decode(0xAA).state == s,
        s.mods & SHIFT_RIGHT == 0 ==> s.decode(0x36).state.decode(0xB6).state == s,
        s.mods & CTRL_LEFT == 0 ==> s.decode(0x1D).state.decode(0x9D).state == s,
        s.mods & ALT_LEFT == 0 ==> s.decode(0x38).state.decode(0xB8).state == s,
        s.mods & CTRL_RIGHT == 0 ==> s.decode(0xE0).state.decode(0x1D).state.decode(0xE0).state.decode(0x9D).state == s,
        s.mods & ALT_RIGHT == 0 ==> s.decode(0xE0).state.decode(0x38).state.decode(0xE0).state.decode(0xB8).state == s,
        s.mods & GUI_LEFT == 0 ==> s.decode(0xE0).state.decode(0x5B).state.decode(0xE0).state.decode(0xDB).state == s,
        s.mods & GUI_RIGHT == 0 ==> s.decode(0xE0).state.decode(0x5C).state.decode(0xE0).state.decode(0xDC).state == s,
{
    let m = s.mods;
    assert(forall|k: u16| #![trigger m & k] m & k == 0 ==> (m | k) & !k == m) by (bit_vector);
}

/// A scan code after the 0xE0 prefix names an extended key: the prefix is
/// acknowledged, and a navigation or media make code then yields its key.
pub proof fn lemma_extended_sequence(s: KeyboardState, sc: u8)
    requires
        sc != 0,
        sc != 0xE0,
        sc < 0x80,
        sc != 0x1D && sc != 0x38 && sc != 0x5B && sc != 0x5C,
        extended_key(sc) != Key::Empty,
    ensures
        s.decode(0xE0).eoi,
        s.decode(0xE0).state.decode(sc).event == Some(
            KeyEvent { key: extended_key(sc), mods: modifiers_of(s.mods) },
        ),
        !s.decode(0xE0).state.decode(sc).state.ext,
{
}

/// The top letter row of a US keyboard, left to right.
pub open spec fn top_row() -> Seq<char> {
    seq!['q', 'w', 'e', 'r', 't', 'y', 'u', 'i', 'o', 'p']
}

/// The home row of letters.
pub open spec fn home_row() -> Seq<char> {
    seq!['a', 's', 'd', 'f', 'g', 'h', 'j', 'k', 'l']
}

/// The bottom row of letters.
pub open spec fn bottom_row() -> Seq<char> {
    seq!['z', 'x', 'c', 'v', 'b', 'n', 'm']
}

/// The number row.
pub open spec fn number_row() -> Seq<char> {
    seq!['1', '2', '3', '4', '5', '6', '7', '8', '9', '0']
}

/// The US QWERTY layout: the letter keys of the three rows (make codes
/// 0x10..0x19, 0x1E..0x26, 0x2C..0x32) give "qwertyuiop", "asdfghjkl" and
/// "zxcvbnm" without shift, and the same letters in upper case with it;
/// the number row (0x02..0x0B) gives "1234567890".
pub proof fn lemma_qwerty_layout()
    ensures
        forall|i: int| 0 <= i < 10 ==> normal_char((0x10 + i) as u8) as u32 == #[trigger] top_row()[i] as u32,
        forall|i: int| 0 <= i < 9 ==> normal_char((0x1E + i) as u8) as u32 == #[trigger] home_row()[i] as u32,
        forall|i: int| 0 <= i < 7 ==> normal_char((0x2C + i) as u8) as u32 == #[trigger] bottom_row()[i] as u32,
        forall|i: int| 0 <= i < 10 ==> normal_char((0x02 + i) as u8) as u32 == #[trigger] number_row()[i] as u32,
        forall|sc: u8| is_letter(sc) ==> 'a' as u32 <= #[trigger] normal_char(sc) as u32 <= 'z' as u32 && shifted_char(sc) + 32 == normal_char(sc),
{
    assert forall|i: int| 0 <= i < 10 implies normal_char((0x10 + i) as u8) as u32 == #[trigger] top_row()[i] as u32 by {
        assert(i == 0 || i == 1 || i == 2 || i == 3 || i == 4 || i == 5 || i == 6 || i == 7 || i == 8 || i == 9);
    }
    assert forall|i: int| 0 <= i < 9 implies normal_char((0x1E + i) as u8) as u32 == #[trigger] home_row()[i] as u32 by {
        assert(i == 0 || i == 1 || i == 2 || i == 3 || i == 4 || i == 5 || i == 6 || i == 7 || i == 8);
    }
    assert forall|i: int| 0 <= i < 7 implies normal_char((0x2C + i) as u8) as u32 == #[trigger] bottom_row()[i] as u32 by {
        assert(i == 0 || i == 1 || i == 2 || i == 3 || i == 4 || i == 5 || i == 6);
    }
    assert forall|i: int| 0 <= i < 10 implies normal_char((0x02 + i) as u8) as u32 == #[trigger] number_row()[i] as u32 by {
        assert(i == 0 || i == 1 || i == 2 || i == 3 || i == 4 || i == 5 || i == 6 || i == 7 || i == 8 || i == 9);
    }
}

} // verus!
