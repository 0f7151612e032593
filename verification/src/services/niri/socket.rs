//! Framing of the messages exchanged over niri's socket.

use vstd::prelude::*;

verus! {

/// A request as written to the socket: its JSON encoding followed by a line break.
pub fn frame_request(json: Vec<u8>) -> (r: Vec<u8>)
    ensures
        r@ == json@.push(10u8),
{
    let mut r = json;
    r.push(10u8);
    r
}

/// The bytes of a reply line; a closed stream reads as an empty line.
pub fn reply_bytes(line: Option<Vec<u8>>) -> (r: Vec<u8>)
    ensures
        r@ == match line {
            Some(l) => l@,
            None => Seq::empty(),
        },
{
    match line {
        Some(l) => l,
        None => Vec::new(),
    }
}

} // verus!
