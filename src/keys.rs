use vstd::prelude::*;
use vstd::utf8::encode_utf8;

verus! {

/// A key on the keyboard, as far as the encoder tells keys apart.
#[derive(Clone, Copy, Debug, PartialEq, Eq, Structural)]
pub enum Key {
    Enter,
    Escape,
    Tab,
    Backspace,
    Delete,
    ArrowUp,
    ArrowDown,
    ArrowRight,
    ArrowLeft,
    Home,
    End,
    PageUp,
    PageDown,
    /// A key that types the given character.
    Letter(char),
    /// Any other key.
    Other,
}

/// One input event of a frame: a key press (with whether Control was held),
/// or text typed.
pub enum InputEvent {
    Key { key: Key, ctrl: bool },
    Text(String),
}

pub open spec fn is_ascii_letter(c: char) -> bool {
    (65 <= (c as u32) && (c as u32) <= 90) || (97 <= (c as u32) && (c as u32) <= 122)
}

/// Control plus a letter: the letter's place in the alphabet, 1 for A.
pub open spec fn control_code(c: char) -> u8 {
    if (c as u32) >= 97 {
        ((c as u32) - 96) as u8
    } else {
        ((c as u32) - 64) as u8
    }
}

/// The bytes a terminal sends for a key press.
pub open spec fn key_bytes(key: Key, ctrl: bool) -> Seq<u8> {
    match key {
        Key::Letter(c) => if ctrl && is_ascii_letter(c) {
            seq![control_code(c)]
        } else {
            Seq::empty()
        },
        Key::Enter => seq![0x0du8],
        Key::Escape => seq![0x1bu8],
        Key::Tab => seq![0x09u8],
        Key::Backspace => seq![0x7fu8],
        Key::Delete => seq![0x1bu8, 0x5bu8, 0x33u8, 0x7eu8],
        Key::ArrowUp => seq![0x1bu8, 0x5bu8, 0x41u8],
        Key::ArrowDown => seq![0x1bu8, 0x5bu8, 0x42u8],
        Key::ArrowRight => seq![0x1bu8, 0x5bu8, 0x43u8],
        Key::ArrowLeft => seq![0x1bu8, 0x5bu8, 0x44u8],
        Key::Home => seq![0x1bu8, 0x5bu8, 0x48u8],
        Key::End => seq![0x1bu8, 0x5bu8, 0x46u8],
        Key::PageUp => seq![0x1bu8, 0x5bu8, 0x35u8, 0x7eu8],
        Key::PageDown => seq![0x1bu8, 0x5bu8, 0x36u8, 0x7eu8],
        Key::Other => Seq::empty(),
    }
}

/// The bytes of the key presses among `events`, in order.
pub open spec fn key_stream(events: Seq<InputEvent>) -> Seq<u8>
    decreases events.len(),
{
    if events.len() == 0 {
        Seq::empty()
    } else {
        key_stream(events.drop_last()) + match events.last() {
            InputEvent::Key { key, ctrl } => key_bytes(key, ctrl),
            InputEvent::Text(_) => Seq::empty(),
        }
    }
}

/// The UTF-8 bytes of the text among `events`, in order.
pub open spec fn text_stream(events: Seq<InputEvent>) -> Seq<u8>
    decreases events.len(),
{
    if events.len() == 0 {
        Seq::empty()
    } else {
        text_stream(events.drop_last()) + match events.last() {
            InputEvent::Key { .. } => Seq::empty(),
            InputEvent::Text(t) => encode_utf8(t@),
        }
    }
}

/// What a frame's events send to the shell: the key presses first, then the
/// text.
pub open spec fn events_bytes(events: Seq<InputEvent>) -> Seq<u8> {
    key_stream(events) + text_stream(events)
}

/// The bytes a terminal sends for a key press.
pub fn encode_key(key: Key, ctrl: bool) -> (r: Vec<u8>)
    ensures
        r@ == key_bytes(key, ctrl),
{
    match key {
        Key::Letter(c) => {
            let u = c as u32;
            if ctrl && ((65 <= u && u <= 90) || (97 <= u && u <= 122)) {
                let code: u8 = if u >= 97 {
                    (u - 96) as u8
                } else {
                    (u - 64) as u8
                };
                vec![code]
            } else {
                Vec::new()
            }
        },
        Key::Enter => vec![0x0d],
        Key::Escape => vec![0x1b],
        Key::Tab => vec![0x09],
        Key::Backspace => vec![0x7f],
        Key::Delete => vec![0x1b, 0x5b, 0x33, 0x7e],
        Key::ArrowUp => vec![0x1b, 0x5b, 0x41],
        Key::ArrowDown => vec![0x1b, 0x5b, 0x42],
        Key::ArrowRight => vec![0x1b, 0x5b, 0x43],
        Key::ArrowLeft => vec![0x1b, 0x5b, 0x44],
        Key::Home => vec![0x1b, 0x5b, 0x48],
        Key::End => vec![0x1b, 0x5b, 0x46],
        Key::PageUp => vec![0x1b, 0x5b, 0x35, 0x7e],
        Key::PageDown => vec![0x1b, 0x5b, 0x36, 0x7e],
        Key::Other => Vec::new(),
    }
}

/// Appends `bytes` to `out`.
fn append_bytes(out: &mut Vec<u8>, bytes: &[u8])
    ensures
        final(out)@ == old(out)@ + bytes@,
{
    let ghost start = out@;
    let mut i: usize = 0;
    while i < bytes.len()
        invariant
            i <= bytes@.len(),
            out@ == start + bytes@.take(i as int),
        decreases bytes@.len() - i,
    {
        proof {
            assert(bytes@.take(i + 1) =~= bytes@.take(i as int).push(bytes@[i as int]));
        }
        out.push(bytes[i]);
        i = i + 1;
    }
    proof {
        assert(bytes@.take(i as int) =~= bytes@);
    }
}

/// The bytes a frame's events send to the shell: those of every key press,
/// in order, followed by the UTF-8 encoding of every text event, in order.
pub fn encode_events(events: &Vec<InputEvent>) -> (r: Vec<u8>)
    ensures
        r@ == events_bytes(events@),
{
    let mut keys: Vec<u8> = Vec::new();
    let mut text: Vec<u8> = Vec::new();
    let mut i: usize = 0;
    while i < events.len()
        invariant
            i <= events@.len(),
            keys@ == key_stream(events@.take(i as int)),
            text@ == text_stream(events@.take(i as int)),
        decreases events@.len() - i,
    {
        proof {
            assert(events@.take(i + 1).drop_last() =~= events@.take(i as int));
        }
        match &events[i] {
            InputEvent::Key { key, ctrl } => {
                let b = encode_key(*key, *ctrl);
                append_bytes(&mut keys, b.as_slice());
                proof {
                    assert(text_stream(events@.take(i + 1)) =~= text_stream(events@.take(i as int)));
                }
            },
            InputEvent::Text(t) => {
                append_bytes(&mut text, t.as_str().as_bytes());
                proof {
                    assert(key_stream(events@.take(i + 1)) =~= key_stream(events@.take(i as int)));
                }
            },
        }
        i = i + 1;
    }
    proof {
        assert(events@.take(i as int) =~= events@);
    }
    append_bytes(&mut keys, text.as_slice());
    keys
}

} // verus!
