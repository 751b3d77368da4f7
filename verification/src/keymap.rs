//! Keymap payload packaging.
//!
//! The host's keyboard layout is compiled to a textual keymap by the
//! platform's layout library, outside this crate; what crosses the wire is
//! that text plus a single trailing terminator byte, and the transfer
//! header carries the payload's exact byte length. This module owes exactly
//! that packaging. Writing the payload into a shareable memory region and
//! sealing it are the embedder's work; the seal is best-effort there, and a
//! failed layout compilation means a degraded keyboard, never an error.

use vstd::prelude::*;

verus! {

/// Package a compiled keymap text for transfer: the text followed by one
/// terminator byte, together with the payload's exact length for the
/// transfer header. Yields nothing only when the text cannot fit the
/// header's 32-bit length field.
pub fn keymap_payload(text: &Vec<u8>) -> (r: Option<(Vec<u8>, u32)>)
    ensures
        match r {
            Some(p) => {
                &&& text@.len() + 1 <= u32::MAX
                &&& p.0@ == text@.push(0u8)
                &&& p.1 == p.0@.len()
            },
            None => text@.len() + 1 > u32::MAX,
        },
{
    if text.len() > (u32::MAX - 1) as usize {
        return None;
    }
    let mut payload: Vec<u8> = Vec::new();
    let mut i: usize = 0;
    while i < text.len()
        invariant
            i <= text@.len(),
            payload@ == text@.take(i as int),
        decreases text@.len() - i,
    {
        let b = text[i];
        payload.push(b);
        proof {
            assert(text@.take(i + 1) =~= text@.take(i as int).push(text@[i as int]));
        }
        i = i + 1;
    }
    proof {
        assert(text@.take(text@.len() as int) =~= text@);
    }
    payload.push(0u8);
    let size = payload.len() as u32;
    Some((payload, size))
}

} // verus!
