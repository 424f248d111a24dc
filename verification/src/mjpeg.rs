//! The bytes of an MJPEG stream served over HTTP as a multipart response:
//! the opening boundary, one part per frame, and the response's content type.
use vstd::prelude::*;
use vstd::string::*;
use crate::text::{decimal, decimal_string};
use crate::keyed::{key_index, find_key};
use crate::server_state::{StateUpdate, ServerOutputState};

verus! {

/// The boundary between parts.
pub open spec fn boundary_text() -> Seq<char> {
    "lolthisismyboundlol"@
}

/// The bytes of a text whose characters are all ASCII.
pub open spec fn ascii(s: Seq<char>) -> Seq<u8> {
    s.map_values(|c: char| c as u8)
}

/// The bytes of `s`, one per character.
pub fn ascii_bytes(s: &str) -> (r: Vec<u8>)
    ensures
        r@ == ascii(s@),
{
    let n = s.unicode_len();
    let mut r: Vec<u8> = Vec::with_capacity(n);
    let mut i: usize = 0;
    while i < n
        invariant
            n == s@.len(),
            i <= n,
            r@ == ascii(s@.subrange(0, i as int)),
        decreases n - i,
    {
        let c = s.get_char(i);
        r.push(c as u8);
        proof {
            assert(r@ =~= ascii(s@.subrange(0, i + 1)));
        }
        i = i + 1;
    }
    proof {
        assert(s@.subrange(0, n as int) =~= s@);
    }
    r
}

/// The text that opens the stream.
pub open spec fn stream_start_text() -> Seq<char> {
    "--"@ + boundary_text() + "\r\n"@
}

/// The header of a part that carries `len` bytes.
pub open spec fn part_header(len: nat) -> Seq<char> {
    "Content-Type: image/jpeg\r\nContent-Length: "@ + decimal(len) + "\r\n\r\n"@
}

/// The text that closes a part and separates it from the next.
pub open spec fn part_trailer() -> Seq<char> {
    "\r\n--"@ + boundary_text() + "\r\n"@
}

/// The bytes sent for one frame: nothing for an empty frame, else a part
/// with the frame.
pub open spec fn frame_part_spec(frame: Seq<u8>) -> Seq<u8> {
    if frame.len() == 0 {
        Seq::empty()
    } else {
        ascii(part_header(frame.len())) + frame + ascii(part_trailer())
    }
}

/// The bytes that open the stream: the first boundary.
pub fn stream_start() -> (r: Vec<u8>)
    ensures
        r@ == ascii(stream_start_text()),
{
    let mut s = String::from_str("--");
    s.append("lolthisismyboundlol");
    s.append("\r\n");
    ascii_bytes(s.as_str())
}

/// The response's content type, naming the boundary.
pub fn content_type() -> (r: String)
    ensures
        r@ == "multipart/x-mixed-replace;boundary=\""@ + boundary_text() + "\""@,
{
    let mut s = String::from_str("multipart/x-mixed-replace;boundary=\"");
    s.append("lolthisismyboundlol");
    s.append("\"");
    s
}

/// The bytes sent for one frame.
pub fn frame_part(frame: &Vec<u8>) -> (r: Vec<u8>)
    ensures
        r@ == frame_part_spec(frame@),
{
    if frame.len() == 0 {
        return Vec::new();
    }
    let mut header = String::from_str("Content-Type: image/jpeg\r\nContent-Length: ");
    let len_text = decimal_string(frame.len() as u64);
    header.append(len_text.as_str());
    header.append("\r\n\r\n");
    let mut trailer = String::from_str("\r\n--");
    trailer.append("lolthisismyboundlol");
    trailer.append("\r\n");
    let mut bytes = ascii_bytes(header.as_str());
    let mut i: usize = 0;
    let ghost h = bytes@;
    while i < frame.len()
        invariant
            i <= frame@.len(),
            bytes@ == h + frame@.subrange(0, i as int),
        decreases frame.len() - i,
    {
        bytes.push(frame[i]);
        proof {
            assert(bytes@ =~= h + frame@.subrange(0, i + 1));
        }
        i = i + 1;
    }
    let t = ascii_bytes(trailer.as_str());
    let ghost mid = bytes@;
    let mut j: usize = 0;
    while j < t.len()
        invariant
            j <= t@.len(),
            bytes@ == mid + t@.subrange(0, j as int),
        decreases t.len() - j,
    {
        bytes.push(t[j]);
        proof {
            assert(bytes@ =~= mid + t@.subrange(0, j + 1));
        }
        j = j + 1;
    }
    proof {
        assert(frame@.subrange(0, frame@.len() as int) =~= frame@);
        assert(t@.subrange(0, t@.len() as int) =~= t@);
    }
    bytes
}

/// A part carries its frame unchanged right after its header, and its header
/// announces the frame's length.
pub proof fn law_part_carries_frame(frame: Seq<u8>)
    requires
        frame.len() > 0,
    ensures
        frame_part_spec(frame).subrange(
            ascii(part_header(frame.len())).len() as int,
            (ascii(part_header(frame.len())).len() + frame.len()) as int,
        ) == frame,
        frame_part_spec(frame).len() == ascii(part_header(frame.len())).len() + frame.len() + ascii(part_trailer()).len(),
{
    let h = ascii(part_header(frame.len()));
    let t = ascii(part_trailer());
    assert((h + frame + t).subrange(h.len() as int, (h.len() + frame.len()) as int) =~= frame);
}

/// The frame that an update carries for the Binary output `output`, if it
/// carries a value for it.
pub open spec fn frame_of(update: StateUpdate, output: Seq<char>) -> Option<Seq<u8>> {
    match key_index(update.outputs@, output) {
        Some(j) => match update.outputs@[j].1 {
            ServerOutputState::Binary { value: Some(f) } => Some(f@),
            _ => None,
        },
        None => None,
    }
}

/// The frame that an update carries for the Binary output `output`.
pub fn frame_from_update(update: &StateUpdate, output: &String) -> (r: Option<Vec<u8>>)
    ensures
        match r {
            Some(f) => frame_of(*update, output@) == Some(f@),
            None => frame_of(*update, output@) is None,
        },
{
    match find_key(&update.outputs, output) {
        Some(j) => match &update.outputs[j].1 {
            ServerOutputState::Binary { value: Some(f) } => Some(crate::value::copy_bytes(f)),
            _ => None,
        },
        None => None,
    }
}

} // verus!
