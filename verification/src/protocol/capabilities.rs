//! Capability tokens negotiated between client and agent during the
//! handshake. Both sides operate on the intersection of what the client asks
//! for and what the server offers, in the server's preference order; unknown
//! tokens on either side are ignored.
use vstd::prelude::*;
use vstd::string::StringExecFns;
use crate::text::str_eq;

verus! {

/// Legacy single-frame PNG video.
pub const CAP_VIDEO_PNG: &'static str = "video.png";
/// H.264 elementary stream.
pub const CAP_VIDEO_H264: &'static str = "video.h264";
/// Opus-encoded remote audio playback.
pub const CAP_AUDIO_OPUS: &'static str = "audio.opus";
/// Keyboard / mouse input injection.
pub const CAP_INPUT: &'static str = "input";
/// Plain-text clipboard synchronisation.
pub const CAP_CLIPBOARD_TEXT: &'static str = "clipboard.text";
/// Image clipboard synchronisation.
pub const CAP_CLIPBOARD_IMAGE: &'static str = "clipboard.image";
/// File transfer channel.
pub const CAP_FILE_TRANSFER: &'static str = "file.transfer";
/// Multiple physical monitors can be enumerated and switched.
pub const CAP_MULTI_MONITOR: &'static str = "display.multi";
/// Hardware-accelerated screen capture.
pub const CAP_HW_CAPTURE: &'static str = "capture.hardware";
/// Sessions survive a transient network drop and can be resumed.
pub const CAP_SESSION_RESUME: &'static str = "session.resume";
/// Unattended access is permitted.
pub const CAP_UNATTENDED: &'static str = "access.unattended";

/// The character sequences of a list of tokens.
pub open spec fn tokens(v: Seq<String>) -> Seq<Seq<char>> {
    v.map_values(|s: String| s@)
}

/// The tokens of `server` that `client` also holds, in `server`'s order.
pub open spec fn negotiated(client: Seq<Seq<char>>, server: Seq<Seq<char>>) -> Seq<Seq<char>>
    decreases server.len(),
{
    if server.len() == 0 {
        Seq::empty()
    } else {
        let rest = negotiated(client, server.drop_last());
        if client.contains(server.last()) {
            rest.push(server.last())
        } else {
            rest
        }
    }
}

/// The capabilities this agent build can offer, in preference order.
pub fn server_capabilities() -> (r: Vec<String>)
    ensures
        tokens(r@) == seq![
            CAP_VIDEO_PNG@, CAP_VIDEO_H264@, CAP_INPUT@, CAP_CLIPBOARD_TEXT@,
            CAP_CLIPBOARD_IMAGE@, CAP_FILE_TRANSFER@, CAP_MULTI_MONITOR@, CAP_HW_CAPTURE@,
            CAP_SESSION_RESUME@, CAP_UNATTENDED@,
        ],
{
    let mut r: Vec<String> = Vec::new();
    r.push(String::from_str(CAP_VIDEO_PNG));
    r.push(String::from_str(CAP_VIDEO_H264));
    r.push(String::from_str(CAP_INPUT));
    r.push(String::from_str(CAP_CLIPBOARD_TEXT));
    r.push(String::from_str(CAP_CLIPBOARD_IMAGE));
    r.push(String::from_str(CAP_FILE_TRANSFER));
    r.push(String::from_str(CAP_MULTI_MONITOR));
    r.push(String::from_str(CAP_HW_CAPTURE));
    r.push(String::from_str(CAP_SESSION_RESUME));
    r.push(String::from_str(CAP_UNATTENDED));
    assert(tokens(r@) =~= seq![
        CAP_VIDEO_PNG@, CAP_VIDEO_H264@, CAP_INPUT@, CAP_CLIPBOARD_TEXT@,
        CAP_CLIPBOARD_IMAGE@, CAP_FILE_TRANSFER@, CAP_MULTI_MONITOR@, CAP_HW_CAPTURE@,
        CAP_SESSION_RESUME@, CAP_UNATTENDED@,
    ]);
    r
}

/// Does `caps` contain `cap`?
pub fn has(caps: &[String], cap: &str) -> (r: bool)
    ensures
        r <==> tokens(caps@).contains(cap@),
{
    let mut i: usize = 0;
    while i < caps.len()
        invariant
            i <= caps@.len(),
            forall|j: int| 0 <= j < i ==> caps@[j]@ != cap@,
        decreases caps.len() - i,
    {
        if str_eq(caps[i].as_str(), cap) {
            assert(tokens(caps@)[i as int] == cap@);
            return true;
        }
        i = i + 1;
    }
    assert forall|j: int| 0 <= j < tokens(caps@).len() implies tokens(caps@)[j] != cap@ by {
        assert(tokens(caps@)[j] == caps@[j]@);
    }
    false
}

/// The negotiated capability set: every token the client requested that the
/// server also supports, in the server's order.
pub fn negotiate(client: &[String], server: &[String]) -> (r: Vec<String>)
    ensures
        tokens(r@) == negotiated(tokens(client@), tokens(server@)),
{
    let mut r: Vec<String> = Vec::new();
    let mut i: usize = 0;
    while i < server.len()
        invariant
            i <= server@.len(),
            tokens(r@) == negotiated(tokens(client@), tokens(server@).take(i as int)),
        decreases server.len() - i,
    {
        let ghost before = r@;
        assert(tokens(server@).take(i + 1).drop_last() =~= tokens(server@).take(i as int));
        assert(tokens(server@).take(i + 1).last() == server@[i as int]@);
        if has(client, server[i].as_str()) {
            r.push(server[i].clone());
            assert(tokens(r@) =~= tokens(before).push(server@[i as int]@));
        }
        i = i + 1;
    }
    assert(tokens(server@).take(server@.len() as int) =~= tokens(server@));
    r
}

/// A token is negotiated exactly when both sides hold it.
pub proof fn lemma_negotiated_is_intersection(client: Seq<Seq<char>>, server: Seq<Seq<char>>, cap: Seq<char>)
    ensures
        negotiated(client, server).contains(cap) <==> (client.contains(cap) && server.contains(cap)),
    decreases server.len(),
{
    if server.len() > 0 {
        let init = server.drop_last();
        lemma_negotiated_is_intersection(client, init, cap);
        assert(server =~= init.push(server.last()));
        if server.contains(cap) && cap != server.last() {
            let k = choose|k: int| 0 <= k < server.len() && server[k] == cap;
            assert(init[k] == cap);
        }
        if init.contains(cap) {
            let k = choose|k: int| 0 <= k < init.len() && init[k] == cap;
            assert(server[k] == cap);
        }
        let rest = negotiated(client, init);
        if client.contains(server.last()) {
            if rest.push(server.last()).contains(cap) && cap != server.last() {
                let k = choose|k: int| 0 <= k < rest.len() + 1 && rest.push(server.last())[k] == cap;
                assert(rest[k] == cap);
            }
            if rest.contains(cap) {
                let k = choose|k: int| 0 <= k < rest.len() && rest[k] == cap;
                assert(rest.push(server.last())[k] == cap);
            }
            assert(rest.push(server.last())[rest.len() as int] == server.last());
        }
    }
}

/// The negotiated set is at most as long as the server's list.
pub proof fn lemma_negotiated_len(client: Seq<Seq<char>>, server: Seq<Seq<char>>)
    ensures
        negotiated(client, server).len() <= server.len(),
    decreases server.len(),
{
    if server.len() > 0 {
        lemma_negotiated_len(client, server.drop_last());
    }
}

/// Negotiating again against the negotiated set changes nothing.
pub proof fn lemma_negotiate_idempotent(client: Seq<Seq<char>>, server: Seq<Seq<char>>)
    ensures
        negotiated(client, negotiated(client, server)) == negotiated(client, server),
    decreases server.len(),
{
    if server.len() > 0 {
        let init = server.drop_last();
        lemma_negotiate_idempotent(client, init);
        let rest = negotiated(client, init);
        if client.contains(server.last()) {
            assert(rest.push(server.last()).drop_last() =~= rest);
        }
    }
}

}
