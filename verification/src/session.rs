//! Starting and ending: the meter's address, the choice of the interface, the keys that quit.
use crate::text::join;
use vstd::prelude::*;

verus! {

/// How long the text interface waits for a key before it draws again, in milliseconds.
pub const KEY_WAIT_MILLIS: u64 = 100;

/// How often the window is brought up to date, in seconds.
pub const REFRESH_SECS: u64 = 1;

/// The user interfaces.
#[derive(Clone, Copy, Debug, PartialEq, Eq, Structural)]
pub enum Interface {
    Window,
    Terminal,
}

/// A key of the keyboard, as far as keys mean something here.
#[derive(Clone, Copy, Debug, PartialEq, Eq, Structural)]
pub enum Key {
    Char(char),
    Escape,
    Other,
}

/// The message for an argument that is no address.
pub open spec fn bad_address(s: Seq<char>) -> Seq<char> {
    "`"@ + s + "` is not a valid IP address"@
}

/// Turns what became of reading `s` as an address into the result for the command line.
pub fn parse_ip_addr<T>(s: &str, parsed: Option<T>) -> (r: Result<T, String>)
    ensures
        match parsed {
            Some(ip) => r == Ok::<T, String>(ip),
            None => r matches Err(message) && message@ == bad_address(s@),
        },
{
    match parsed {
        Some(ip) => Ok(ip),
        None => {
            let mut message = join("`", s);
            message.append("` is not a valid IP address");
            Err(message)
        },
    }
}

/// The address that is asked for data.
pub open spec fn data_address(ip: Seq<char>) -> Seq<char> {
    "http://"@ + ip + "/api/v1/data"@
}

/// Whether the program shows a window.
pub open spec fn shows_window(text_ui: bool, x11_display: bool, wayland_display: bool) -> bool {
    !text_ui && (x11_display || wayland_display)
}

/// Whether a key event ends the program.
pub open spec fn quit_event(key: Key, pressed: bool) -> bool {
    pressed && (key == Key::Char('q') || key == Key::Escape)
}

/// The address that is asked for data.
pub fn api_url(ip: &str) -> (url: String)
    ensures
        url@ == data_address(ip@),
        url@ == "http://"@ + ip@ + "/api/v1/data"@,
{
    let mut url = join("http://", ip);
    url.append("/api/v1/data");
    url
}

/// Chooses the interface: a window where there is a display to show it on and the text interface
/// was not asked for.
pub fn choose_interface(text_ui: bool, x11_display: bool, wayland_display: bool) -> (ui: Interface)
    ensures
        ui == Interface::Window <==> shows_window(text_ui, x11_display, wayland_display),
        ui == Interface::Window <==> !text_ui && (x11_display || wayland_display),
{
    if !text_ui && (x11_display || wayland_display) {
        Interface::Window
    } else {
        Interface::Terminal
    }
}

/// Whether a key event ends the program: `q` or Escape, when it is pressed (not repeated or
/// released).
pub fn quits(key: Key, pressed: bool) -> (b: bool)
    ensures
        b <==> quit_event(key, pressed),
        b <==> pressed && (key == Key::Char('q') || key == Key::Escape),
{
    pressed && match key {
        Key::Char(c) => c == 'q',
        Key::Escape => true,
        Key::Other => false,
    }
}

/// The message quotes the argument as it was given.
pub proof fn law_message_quotes_the_argument(s: Seq<char>)
    ensures
        bad_address(s).len() == s.len() + 28,
        bad_address(s)[0] == '`',
        bad_address(s).subrange(1, s.len() as int + 1) == s,
        bad_address(s).skip(s.len() as int + 1) == "` is not a valid IP address"@,
{
    reveal_strlit("`");
    reveal_strlit("` is not a valid IP address");
}

/// The pauses of the interfaces: a tenth of a second for a key, a second between two pictures of
/// the window.
pub proof fn law_interface_pace()
    ensures
        KEY_WAIT_MILLIS == 100,
        REFRESH_SECS == 1,
{
}

/// The address holds the whole text of the meter's IP address between a fixed start and a fixed
/// end; different meters have different addresses.
pub proof fn law_data_address_holds_the_ip(ip: Seq<char>, other: Seq<char>)
    ensures
        data_address(ip).len() == ip.len() + 19,
        data_address(ip).take(7) == "http://"@,
        data_address(ip).subrange(7, ip.len() as int + 7) == ip,
        data_address(ip).skip(ip.len() as int + 7) == "/api/v1/data"@,
        data_address(ip) == data_address(other) ==> ip == other,
{
    reveal_strlit("http://");
    reveal_strlit("/api/v1/data");
    assert(data_address(other).subrange(7, other.len() as int + 7) == other);
    assert(data_address(ip).subrange(7, ip.len() as int + 7) == ip);
}

/// Asking for text always gives text; without any display there is no window; otherwise either
/// kind of display is enough.
pub proof fn law_text_is_shown_on_request_or_without_a_display(x11: bool, wayland: bool)
    ensures
        !shows_window(true, x11, wayland),
        !shows_window(false, false, false),
        x11 ==> shows_window(false, x11, wayland),
        wayland ==> shows_window(false, x11, wayland),
{
}

/// Only a pressed key quits, and of all keys only Escape and the small letter q do.
pub proof fn law_only_q_and_escape_quit(key: Key, c: char)
    ensures
        !quit_event(key, false),
        quit_event(Key::Escape, true),
        !quit_event(Key::Other, true),
        quit_event(Key::Char(c), true) <==> c == 'q',
{
}

} // verus!
