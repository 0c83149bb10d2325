use vstd::prelude::*;
use vstd::string::{StrSliceExecFns, StringExecFns};

verus! {

/// Power-management state reported for a monitor output.
#[derive(Debug, Clone, Copy, PartialEq, Eq, Structural)]
pub enum DpmsState {
    On,
    Off,
    Unknown,
}

/// Whether an output is enabled in the display configuration.
#[derive(Debug, Clone, Copy, PartialEq, Eq, Structural)]
pub enum DisplayState {
    Enabled,
    Disabled,
}

/// Whether a monitor is plugged into an output.
#[derive(Debug, Clone, Copy, PartialEq, Eq, Structural)]
pub enum ConnectionState {
    Connected,
    Disconnected,
}

/// Appends one character; relies on `String::push`, which adds `c` at the end.
#[verifier::external_body]
fn push_char(s: &mut String, c: char)
    ensures
        final(s)@ == old(s)@.push(c),
{
    s.push(c)
}

pub open spec fn is_ascii_letter(c: char) -> bool {
    ('a' <= c && c <= 'z') || ('A' <= c && c <= 'Z')
}

/// Text kept from `s`, and whether `s` ends inside an escape sequence. An
/// escape sequence starts at ESC and runs through the next ASCII letter.
pub open spec fn strip_scan(s: Seq<char>) -> (Seq<char>, bool)
    decreases s.len(),
{
    if s.len() == 0 {
        (Seq::empty(), false)
    } else {
        let (kept, inside) = strip_scan(s.drop_last());
        let c = s.last();
        if inside {
            (kept, !is_ascii_letter(c))
        } else if c == '\x1b' {
            (kept, true)
        } else {
            (kept.push(c), false)
        }
    }
}

/// Removes ANSI escape sequences from `input`.
pub fn strip_ansi(input: &str) -> (r: String)
    ensures
        r@ == strip_scan(input@).0,
{
    let n = input.unicode_len();
    let mut result = String::new();
    let mut inside = false;
    let mut i: usize = 0;
    while i < n
        invariant
            n == input@.len(),
            i <= n,
            (result@, inside) == strip_scan(input@.subrange(0, i as int)),
        decreases n - i,
    {
        let c = input.get_char(i);
        proof {
            assert(input@.subrange(0, i + 1).drop_last() =~= input@.subrange(0, i as int));
        }
        if inside {
            inside = !(('a' <= c && c <= 'z') || ('A' <= c && c <= 'Z'));
        } else if c == '\x1b' {
            inside = true;
        } else {
            push_char(&mut result, c);
        }
        i = i + 1;
    }
    proof {
        assert(input@.subrange(0, n as int) =~= input@);
    }
    result
}

/// Arguments that make the display tool enable output `name` in its first mode.
pub fn enable_dummy_plug(name: &str) -> (r: Vec<String>)
    ensures
        r@.len() == 2,
        r@[0]@ == "output."@ + name@ + ".enable"@,
        r@[1]@ == "output."@ + name@ + ".mode.1"@,
{
    let mut enable = String::from_str("output.");
    enable.append(name);
    enable.append(".enable");
    let mut mode = String::from_str("output.");
    mode.append(name);
    mode.append(".mode.1");
    vec![enable, mode]
}

/// Arguments that make the display tool disable output `name`.
pub fn disable_dummy_plug(name: &str) -> (r: Vec<String>)
    ensures
        r@.len() == 1,
        r@[0]@ == "output."@ + name@ + ".disable"@,
{
    let mut disable = String::from_str("output.");
    disable.append(name);
    disable.append(".disable");
    vec![disable]
}

/// Whether `text` holds exactly the characters of `expected`.
fn same_text(text: &str, expected: &str) -> (r: bool)
    ensures
        r == (text@ == expected@),
{
    let n = text.unicode_len();
    if n != expected.unicode_len() {
        return false;
    }
    let mut i: usize = 0;
    while i < n
        invariant
            n == text@.len(),
            n == expected@.len(),
            i <= n,
            text@.subrange(0, i as int) == expected@.subrange(0, i as int),
        decreases n - i,
    {
        if text.get_char(i) != expected.get_char(i) {
            return false;
        }
        proof {
            assert(text@.subrange(0, i + 1) =~= text@.subrange(0, i as int).push(text@[i as int]));
            assert(expected@.subrange(0, i + 1) =~= expected@.subrange(0, i as int).push(expected@[i as int]));
        }
        i = i + 1;
    }
    proof {
        assert(text@ =~= text@.subrange(0, n as int));
        assert(expected@ =~= expected@.subrange(0, n as int));
    }
    true
}

/// The power state named by the (already trimmed) contents of a kernel
/// power-state file: `On`, `Off`, anything else is unknown.
pub fn dpms_from_text(text: &str) -> (r: DpmsState)
    ensures
        r == (if text@ == "On"@ {
            DpmsState::On
        } else if text@ == "Off"@ {
            DpmsState::Off
        } else {
            DpmsState::Unknown
        }),
{
    if same_text(text, "On") {
        DpmsState::On
    } else if same_text(text, "Off") {
        DpmsState::Off
    } else {
        DpmsState::Unknown
    }
}

/// Environment that lets the display tool reach the Wayland compositor.
pub fn wayland_env() -> (r: Vec<(&'static str, &'static str)>)
    ensures
        r@.len() == 2,
        r@[0].0@ == "WAYLAND_DISPLAY"@,
        r@[0].1@ == "wayland-0"@,
        r@[1].0@ == "DISPLAY"@,
        r@[1].1@ == ":0"@,
{
    vec![("WAYLAND_DISPLAY", "wayland-0"), ("DISPLAY", ":0")]
}

} // verus!
