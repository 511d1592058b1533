//! Whether the server process runs, and whether the desktop is Hyprland.
use crate::outside::{from_utf8_lossy, lossy_text, to_lowercase, unicode_lowercase};
use crate::session::CaptureState;
use crate::text::{
    ascii_lower, ascii_lower_char, contains_ascii_lower, contains_text, has_substring, occurs_at,
};
use vstd::prelude::*;

verus! {

/// Notes whether the server runs.
pub fn set_server_running(state: &mut CaptureState, is_running: bool)
    ensures
        *final(state) == (CaptureState { server_running: Some(is_running), ..*old(state) }),
{
    state.server_running = Some(is_running);
}

/// The command that lists the processes of the application.
pub fn process_list_command(app_name: &str) -> (r: String)
    ensures
        r@ == "ps aux | grep "@ + unicode_lowercase(app_name@),
{
    let mut out: String = "ps aux | grep ".to_owned();
    out.append(to_lowercase(app_name).as_str());
    out
}

/// A list of processes shows the server of an application.
pub open spec fn lists_server(list: Seq<char>, app_name: Seq<char>) -> bool {
    has_substring(list, app_name + " --server"@)
}

/// Whether a list of processes shows the server of an application.
pub fn shows_server(list: &str, app_name: &str) -> (r: bool)
    ensures
        r == lists_server(list@, app_name@),
{
    let mut command: String = app_name.to_owned();
    command.append(" --server");
    contains_text(list, command.as_str())
}

/// The server runs: as it was noted, else as the list of processes shows. Where the list could
/// not be had the answer is no.
pub open spec fn runs_server(
    noted: Option<bool>,
    app_name: Seq<char>,
    list: Option<Seq<u8>>,
) -> bool {
    match (noted, list) {
        (Some(running), _) => running,
        (None, Some(bytes)) => lists_server(lossy_text(bytes), unicode_lowercase(app_name)),
        (None, None) => false,
    }
}

/// Tells whether the server runs, and notes it once it was found out. `list` is what the command
/// that lists the processes printed, or `None` where it failed; it is not read where the answer
/// is noted already.
///
/// While the server runs, input goes through a virtual device and the ScreenCast portal is used,
/// which can restore sessions. Else the RemoteDesktop portal is used for input too.
pub fn is_server_running(state: &mut CaptureState, app_name: &str, list: Option<&Vec<u8>>) -> (r:
    bool)
    ensures
        r == runs_server(
            old(state).server_running,
            app_name@,
            match list {
                Some(bytes) => Some(bytes@),
                None => None,
            },
        ),
        *final(state) == (CaptureState {
            server_running: if old(state).server_running is None && list is None {
                None
            } else {
                Some(r)
            },
            ..*old(state)
        }),
{
    match state.server_running {
        Some(running) => running,
        None => match list {
            Some(bytes) => {
                let running: bool = shows_server(
                    from_utf8_lossy(bytes.as_slice()).as_str(),
                    to_lowercase(app_name).as_str(),
                );
                state.server_running = Some(running);
                running
            },
            None => false,
        },
    }
}

/// The name of a desktop tells Hyprland, in any case of its letters.
pub open spec fn names_hyprland(desktop: Seq<char>) -> bool {
    has_substring(ascii_lower(desktop), "hyprland"@)
}

/// Whether the environment leaves open that the desktop is Hyprland, so that a search beyond it
/// is needed. The arguments are those of [`is_hyprland_session`].
pub fn needs_detection(signature_set: bool, desktop: Option<&str>) -> (r: bool)
    ensures
        r == !(signature_set || (desktop matches Some(d) && names_hyprland(d@))),
{
    !is_hyprland_session(signature_set, desktop, false)
}

/// Whether the desktop is Hyprland. `signature_set` tells whether a Hyprland instance is named in
/// the environment, `desktop` is the current desktop there, and `detected` is what a search
/// beyond the environment found.
pub fn is_hyprland_session(signature_set: bool, desktop: Option<&str>, detected: bool) -> (r: bool)
    ensures
        r == (signature_set || (desktop matches Some(d) && names_hyprland(d@)) || detected),
{
    if signature_set {
        return true;
    }
    match desktop {
        Some(name) => {
            if contains_ascii_lower(name, "hyprland") {
                return true;
            }
        },
        None => {},
    }
    detected
}

/// What was noted of the server stands, whatever a list of processes shows later.
pub proof fn law_noted_answer_stands(noted: bool, app_name: Seq<char>, list: Option<Seq<u8>>)
    ensures
        runs_server(Some(noted), app_name, list) == noted,
{
}

/// The server is found in a list of processes exactly where the list holds, somewhere, the name of
/// the application and ` --server` right behind it.
pub proof fn law_server_is_found_in_the_list(
    before: Seq<char>,
    app_name: Seq<char>,
    after: Seq<char>,
    list: Seq<char>,
)
    ensures
        lists_server(before + app_name + " --server"@ + after, app_name),
        lists_server(list, app_name) ==> exists|a: Seq<char>, b: Seq<char>|
            list == #[trigger] (a + app_name + " --server"@ + b),
{
    let needle = app_name + " --server"@;
    let whole = before + app_name + " --server"@ + after;
    let at = before.len() as int;
    assert(whole.subrange(at, at + needle.len()) =~= needle);
    assert(occurs_at(whole, needle, at));
    if lists_server(list, app_name) {
        let i = choose|i: int| #[trigger] occurs_at(list, needle, i);
        let (a, b) = (list.take(i), list.skip(i + needle.len()));
        assert(list =~= a + app_name + " --server"@ + b) by {
            assert(list =~= a + list.subrange(i, i + needle.len()) + b);
        }
    }
}

/// While nothing is noted of the server, the list of processes decides, taken as text and with the
/// name of the application in lower case. Without a list the answer is no.
pub proof fn law_list_decides(app_name: Seq<char>, list: Seq<u8>)
    ensures
        runs_server(None, app_name, Some(list)) <==> exists|a: Seq<char>, b: Seq<char>|
            lossy_text(list) == #[trigger] (a + unicode_lowercase(app_name) + " --server"@ + b),
        !runs_server(None, app_name, None),
{
    let (text, name) = (lossy_text(list), unicode_lowercase(app_name));
    law_server_is_found_in_the_list(seq![], name, seq![], text);
    if exists|a: Seq<char>, b: Seq<char>| text == #[trigger] (a + name + " --server"@ + b) {
        let (a, b) = choose|a: Seq<char>, b: Seq<char>|
            text == #[trigger] (a + name + " --server"@ + b);
        law_server_is_found_in_the_list(a, name, b, text);
    }
}

/// A character is a letter of the alphabet in either case.
pub open spec fn is_letter_of(c: char, lower: char, upper: char) -> bool {
    c == lower || c == upper
}

/// The word `hyprland` stands at an index, in any case of each of its letters.
pub open spec fn hyprland_at(desktop: Seq<char>, i: int) -> bool {
    &&& 0 <= i && i + 8 <= desktop.len()
    &&& is_letter_of(desktop[i], 'h', 'H')
    &&& is_letter_of(desktop[i + 1], 'y', 'Y')
    &&& is_letter_of(desktop[i + 2], 'p', 'P')
    &&& is_letter_of(desktop[i + 3], 'r', 'R')
    &&& is_letter_of(desktop[i + 4], 'l', 'L')
    &&& is_letter_of(desktop[i + 5], 'a', 'A')
    &&& is_letter_of(desktop[i + 6], 'n', 'N')
    &&& is_letter_of(desktop[i + 7], 'd', 'D')
}

proof fn lemma_hyprland_at(desktop: Seq<char>, i: int)
    ensures
        occurs_at(ascii_lower(desktop), "hyprland"@, i) <==> hyprland_at(desktop, i),
{
    reveal_strlit("hyprland");
    let needle = "hyprland"@;
    let lower = ascii_lower(desktop);
    assert(needle.len() == 8);
    assert(needle[0] == 'h' && needle[1] == 'y' && needle[2] == 'p' && needle[3] == 'r');
    assert(needle[4] == 'l' && needle[5] == 'a' && needle[6] == 'n' && needle[7] == 'd');
    if 0 <= i && i + 8 <= desktop.len() {
        let part = lower.subrange(i, i + 8);
        assert(part[0] == ascii_lower_char(desktop[i]));
        assert(part[1] == ascii_lower_char(desktop[i + 1]));
        assert(part[2] == ascii_lower_char(desktop[i + 2]));
        assert(part[3] == ascii_lower_char(desktop[i + 3]));
        assert(part[4] == ascii_lower_char(desktop[i + 4]));
        assert(part[5] == ascii_lower_char(desktop[i + 5]));
        assert(part[6] == ascii_lower_char(desktop[i + 6]));
        assert(part[7] == ascii_lower_char(desktop[i + 7]));
        if hyprland_at(desktop, i) {
            assert(part =~= needle);
        }
    }
}

/// The name of a desktop tells Hyprland exactly where it holds that word, in any case of each of
/// its letters.
pub proof fn law_hyprland_is_named_in_any_case(desktop: Seq<char>)
    ensures
        names_hyprland(desktop) <==> exists|i: int| #[trigger] hyprland_at(desktop, i),
{
    if names_hyprland(desktop) {
        let i = choose|i: int| #[trigger] occurs_at(ascii_lower(desktop), "hyprland"@, i);
        lemma_hyprland_at(desktop, i);
    }
    if exists|i: int| #[trigger] hyprland_at(desktop, i) {
        let i = choose|i: int| #[trigger] hyprland_at(desktop, i);
        lemma_hyprland_at(desktop, i);
    }
}

} // verus!
