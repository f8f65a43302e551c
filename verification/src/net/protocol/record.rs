//! Record types: the `type` byte of the header.

use vstd::prelude::*;

verus! {

/// One Annex-B access unit, client to server.
pub const VIDEO: u8 = 0x01;

/// Empty, sent while the screen is static, client to server.
pub const HEARTBEAT: u8 = 0x02;

/// JSON: what the encoder produces, client to server.
pub const CONFIG: u8 = 0x03;

/// JSON, reserved, client to server.
pub const STATS: u8 = 0x04;

/// UTF-8 line for our log, client to server.
pub const LOG: u8 = 0x05;

/// Empty, asks the phone for a keyframe, server to client.
pub const REQUEST_KEYFRAME: u8 = 0x10;

/// JSON, applied live, server to client.
pub const SET_PARAMS: u8 = 0x11;

/// What each record type is called.
pub open spec fn name_of(rtype: u8) -> Seq<char> {
    if rtype == VIDEO {
        "video"@
    } else if rtype == HEARTBEAT {
        "heartbeat"@
    } else if rtype == CONFIG {
        "config"@
    } else if rtype == STATS {
        "stats"@
    } else if rtype == LOG {
        "log"@
    } else if rtype == REQUEST_KEYFRAME {
        "request_keyframe"@
    } else if rtype == SET_PARAMS {
        "set_params"@
    } else {
        "unknown"@
    }
}

/// Human-readable name for logs.
pub fn name(rtype: u8) -> (name: &'static str)
    ensures
        name@ == name_of(rtype),
{
    match rtype {
        VIDEO => "video",
        HEARTBEAT => "heartbeat",
        CONFIG => "config",
        STATS => "stats",
        LOG => "log",
        REQUEST_KEYFRAME => "request_keyframe",
        SET_PARAMS => "set_params",
        _ => "unknown",
    }
}

/// The record types that both sides of the wire agreed on.
pub proof fn types_are_agreed_on()
    ensures
        VIDEO == 1 && HEARTBEAT == 2 && CONFIG == 3 && STATS == 4 && LOG == 5,
        REQUEST_KEYFRAME == 0x10 && SET_PARAMS == 0x11,
{
}

/// No two of the agreed types are called alike, and none of them is called unknown.
pub proof fn types_have_names_of_their_own(a: u8, b: u8)
    requires
        name_of(a) == name_of(b),
    ensures
        a == b || name_of(a) == "unknown"@,
        name_of(a) == "unknown"@ <==> !(1 <= a <= 5 || a == 0x10 || a == 0x11),
{
    reveal_strlit("video");
    reveal_strlit("heartbeat");
    reveal_strlit("config");
    reveal_strlit("stats");
    reveal_strlit("log");
    reveal_strlit("request_keyframe");
    reveal_strlit("set_params");
    reveal_strlit("unknown");
    assert("video"@[0] != "stats"@[0]);
    assert("unknown"@.len() == 7);
    assert("video"@.len() == 5 && "heartbeat"@.len() == 9 && "config"@.len() == 6);
    assert("stats"@.len() == 5 && "log"@.len() == 3 && "set_params"@.len() == 10);
    assert("request_keyframe"@.len() == 16);
}

/// Each agreed type is called by what it carries.
pub proof fn types_are_called_by_what_they_carry(rtype: u8)
    ensures
        rtype == 1 ==> name_of(rtype) == "video"@,
        rtype == 2 ==> name_of(rtype) == "heartbeat"@,
        rtype == 3 ==> name_of(rtype) == "config"@,
        rtype == 4 ==> name_of(rtype) == "stats"@,
        rtype == 5 ==> name_of(rtype) == "log"@,
        rtype == 0x10 ==> name_of(rtype) == "request_keyframe"@,
        rtype == 0x11 ==> name_of(rtype) == "set_params"@,
{
}

} // verus!
