//! What a client of the daemon needs beside the sockets: the reading of
//! event frames, and the requests that the widgets send.

use vstd::prelude::*;
use vstd::string::StringExecFns;

use crate::text::{chars_of, decimal_text, i32_literal, parse_i32, str_eq, u32_to_string};

verus! {

/// An event as a client receives it: the topic and the value.
#[derive(Debug, PartialEq, Eq)]
pub struct RsbarEvent {
    pub name: String,
    pub value: String,
}

/// How often `p` occurs in `s`.
pub open spec fn occurrences_of(s: Seq<char>, p: char) -> nat
    decreases s.len(),
{
    if s.len() == 0 {
        0
    } else {
        occurrences_of(s.drop_last(), p) + if s.last() == p {
            1nat
        } else {
            0nat
        }
    }
}

/// Cuts `s` before the occurrence of `p` that has `n` occurrences before
/// it: the right part begins with that `p`. `None` if `p` occurs no more
/// than `n` times.
pub fn split_at_nth_char<'a>(s: &'a str, p: char, n: usize) -> (r: Option<(&'a str, &'a str)>)
    ensures
        match r {
            Some((left, right)) => {
                &&& left@ + right@ == s@
                &&& right@.len() > 0
                &&& right@[0] == p
                &&& occurrences_of(left@, p) == n
            },
            None => occurrences_of(s@, p) <= n,
        },
{
    let chars = chars_of(s);
    let len: usize = chars.len();
    let mut seen: usize = 0;
    let mut i: usize = 0;
    while i < len
        invariant
            i <= len,
            len == chars@.len(),
            chars@ == s@,
            seen == occurrences_of(s@.take(i as int), p),
            seen <= n,
            seen <= i,
        decreases len - i,
    {
        proof {
            assert(s@.take(i + 1).drop_last() =~= s@.take(i as int));
            assert(s@.take(i + 1).last() == chars@[i as int]);
        }
        if chars[i] == p {
            if seen == n {
                let left = s.substring_char(0, i);
                let right = s.substring_char(i, len);
                proof {
                    assert(left@ =~= s@.take(i as int));
                    assert(left@ + right@ =~= s@);
                }
                return Some((left, right));
            }
            seen = seen + 1;
        }
        i = i + 1;
    }
    assert(s@.take(len as int) =~= s@);
    None
}

/// Cuts `s` at the occurrence of `p` that has `n` occurrences before it,
/// and leaves that `p` out: the parts are what stands before it and what
/// stands behind it. `None` if `p` occurs no more than `n` times.
pub fn split_at_nth_char_ex<'a>(s: &'a str, p: char, n: usize) -> (r: Option<(&'a str, &'a str)>)
    ensures
        match r {
            Some((left, right)) => left@ + seq![p] + right@ == s@ && occurrences_of(left@, p)
                == n,
            None => occurrences_of(s@, p) <= n,
        },
{
    match split_at_nth_char(s, p, n) {
        Some((left, right)) => {
            let count: usize = right.unicode_len();
            let rest = right.substring_char(1, count);
            proof {
                assert(seq![p] + rest@ =~= right@);
                assert(left@ + seq![p] + rest@ =~= left@ + right@);
            }
            Some((left, rest))
        },
        None => None,
    }
}

/// Reads an event frame: the topic is what stands before the second slash,
/// the value all that stands behind it. `None` if the frame holds fewer
/// than two slashes.
pub fn parse_event(event: &str) -> (r: Option<RsbarEvent>)
    ensures
        match r {
            Some(read) => read.name@ + seq!['/'] + read.value@ == event@ && occurrences_of(
                read.name@,
                '/',
            ) == 1,
            None => occurrences_of(event@, '/') <= 1,
        },
{
    match split_at_nth_char_ex(event, '/', 1) {
        Some((name, value)) => Some(
            RsbarEvent { name: String::from_str(name), value: String::from_str(value) },
        ),
        None => None,
    }
}

/// The workspace that an event value names, if it is one of the
/// workspaces from 1 to `max_id`.
pub open spec fn workspace_id(value: Seq<char>, max_id: usize) -> Option<usize> {
    match i32_literal(value) {
        Some(id) => if 1 <= id && id <= max_id {
            Some(id as usize)
        } else {
            None
        },
        None => None,
    }
}

/// Reads the workspace that an event value names.
pub fn get_workspace_id(value: &str, max_id: usize) -> (r: Option<usize>)
    ensures
        r == workspace_id(value@, max_id),
{
    match parse_i32(value) {
        None => None,
        Some(id) => {
            if id < 1 || id as usize > max_id {
                None
            } else {
                Some(id as usize)
            }
        },
    }
}

/// The call that a click on the volume widget sends.
pub fn toggle_mute() -> (call: String)
    ensures
        call@ == "volume/toggleMute/"@,
{
    "volume/toggleMute/".to_owned()
}

/// The call that sets the volume to `percent`.
pub fn set_volume_call(percent: u32) -> (call: String)
    ensures
        call@ == "volume/setVolume/"@ + decimal_text(percent as nat),
{
    let mut call = String::from_str("volume/setVolume/");
    let level = u32_to_string(percent);
    call.append(level.as_str());
    call
}

/// What an event means to a slider: the mute is off or on, or the event
/// carries the level, as it was written; or the event is none of the
/// slider's.
#[derive(Debug, PartialEq, Eq)]
pub enum SliderFetchResult {
    On,
    Off,
    Value(String),
    Nothing,
}

/// What an event means to the slider of the volume. An event on
/// `volume/volume` carries the level. An event on `volume/isMuted` switches
/// the slider on at `false` and off at `true`. Every other event means
/// nothing to it.
pub fn get_system_volume(name: &str, value: &str) -> (r: SliderFetchResult)
    ensures
        match r {
            SliderFetchResult::Value(level) => name@ == "volume/volume"@ && level@ == value@,
            SliderFetchResult::On => name@ == "volume/isMuted"@ && value@ == "false"@,
            SliderFetchResult::Off => name@ == "volume/isMuted"@ && value@ == "true"@,
            SliderFetchResult::Nothing => name@ != "volume/volume"@ && !(name@ == "volume/isMuted"@
                && (value@ == "false"@ || value@ == "true"@)),
        },
{
    proof {
        reveal_strlit("volume/volume");
        reveal_strlit("volume/isMuted");
        reveal_strlit("false");
        reveal_strlit("true");
        assert("volume/volume"@.len() != "volume/isMuted"@.len());
        assert("false"@.len() != "true"@.len());
    }
    if str_eq(name, "volume/volume") {
        SliderFetchResult::Value(String::from_str(value))
    } else if str_eq(name, "volume/isMuted") {
        if str_eq(value, "false") {
            SliderFetchResult::On
        } else if str_eq(value, "true") {
            SliderFetchResult::Off
        } else {
            SliderFetchResult::Nothing
        }
    } else {
        SliderFetchResult::Nothing
    }
}

/// What an event means to the slider of the brightness: an event on
/// `brightness/brightness` carries the level, as it was written; every
/// other event means nothing to it.
pub fn get_system_brightness(name: &str, value: &str) -> (r: Option<String>)
    ensures
        match r {
            Some(level) => name@ == "brightness/brightness"@ && level@ == value@,
            None => name@ != "brightness/brightness"@,
        },
{
    if str_eq(name, "brightness/brightness") {
        Some(String::from_str(value))
    } else {
        None
    }
}

/// The call of a widget that sends none on a click: the empty text.
pub fn dummy_click() -> (call: String)
    ensures
        call@ == Seq::<char>::empty(),
{
    String::new()
}

} // verus!
