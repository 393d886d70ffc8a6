//! The decision step of the mailbox driver's device-request loop: given
//! the received request's message id and the translated channel, decide
//! the reply. The lane traffic around it (accepting the conversation,
//! sending the reply, pushing the channel's stream end) stays with the
//! host program.

use vstd::prelude::*;

verus! {

/// The little-endian encoding of a 32-bit value, least significant byte
/// first.
pub open spec fn le32_bytes(v: u32) -> Seq<u8> {
    seq![
        (v % 0x100) as u8,
        ((v / 0x100) % 0x100) as u8,
        ((v / 0x10000) % 0x100) as u8,
        ((v / 0x1000000) % 0x100) as u8,
    ]
}

/// Decides the reply to a device-level channel request: when the request
/// carries the expected message id and the address specifier translated
/// to a channel, the reply is that channel number, little-endian;
/// otherwise the request is refused and no reply is owed.
pub fn answer_channel_request(request_id: u32, expected_id: u32, channel: Option<u32>) -> (r:
    Option<Vec<u8>>)
    ensures
        (r is Some) <==> (request_id == expected_id && channel is Some),
        r matches Some(bytes) ==> (channel matches Some(c) && bytes@ == le32_bytes(c)),
{
    if request_id == expected_id {
        match channel {
            Some(c) => {
                let mut bytes: Vec<u8> = Vec::new();
                bytes.push((c % 0x100) as u8);
                bytes.push(((c / 0x100) % 0x100) as u8);
                bytes.push(((c / 0x10000) % 0x100) as u8);
                bytes.push(((c / 0x1000000) % 0x100) as u8);
                proof {
                    assert(bytes@ =~= le32_bytes(c));
                }
                Some(bytes)
            },
            None => None,
        }
    } else {
        None
    }
}

} // verus!
