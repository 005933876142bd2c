//! The command encoder: builds the LED color-update payload for one
//! controller. Batches across controllers are independent single-controller
//! commands sent one after another; the underlying protocol has no
//! multi-controller atomic update.

use vstd::prelude::*;

verus! {

use vstd::bytes::{spec_u16_to_le_bytes, spec_u32_to_le_bytes, u16_to_le_bytes, u32_to_le_bytes};

use crate::color::RGBColor;

/// One batch unit of a color update: which controller, and how many of its
/// LEDs to write from index zero. Built per call from the directory, never
/// persisted.
#[derive(PartialEq, Eq, Structural, Copy, Clone, Debug)]
pub struct ControllerLedSetCommand {
    pub controller_id: u32,
    pub led_count: u16,
}

/// `n` repetitions of the 4-byte wire entry for one color: red, green,
/// blue, and a fixed zero padding byte required by the wire format.
pub open spec fn spec_color_entries(n: int, c: RGBColor) -> Seq<u8>
    decreases n,
{
    if n <= 0 {
        Seq::<u8>::empty()
    } else {
        spec_color_entries(n - 1, c) + seq![c.red, c.green, c.blue, 0u8]
    }
}

/// The LED entries take exactly four bytes each.
pub proof fn lemma_color_entries_len(n: int, c: RGBColor)
    requires
        0 <= n,
    ensures
        spec_color_entries(n, c).len() == 4 * n,
    decreases n,
{
    if n > 0 {
        lemma_color_entries_len(n - 1, c);
    }
}

/// The update-leds payload: a 4-byte total-length field holding
/// `4 * led_count + 6`, the 2-byte LED count, then one 4-byte entry per
/// LED — `4 * led_count + 6` bytes in all.
pub open spec fn spec_color_payload(led_count: u16, c: RGBColor) -> Seq<u8> {
    spec_u32_to_le_bytes((4 * led_count + 6) as u32) + spec_u16_to_le_bytes(led_count)
        + spec_color_entries(led_count as int, c)
}

/// Builds the update-leds payload that sets the first `led_count` LEDs of a
/// controller to `color`.
pub fn build_color_payload(led_count: u16, color: &RGBColor) -> (r: Vec<u8>)
    ensures
        r@ == spec_color_payload(led_count, *color),
        r@.len() == 4 * (led_count as int) + 6,
{
    let total: u32 = 4 * (led_count as u32) + 6;
    let mut data = u32_to_le_bytes(total);
    let mut count_bytes = u16_to_le_bytes(led_count);
    data.append(&mut count_bytes);
    let ghost header = data@;
    let mut i: u16 = 0;
    while i < led_count
        invariant
            i <= led_count,
            data@ == header + spec_color_entries(i as int, *color),
            header == spec_u32_to_le_bytes((4 * led_count + 6) as u32) + spec_u16_to_le_bytes(
                led_count,
            ),
            header.len() == 6,
        decreases led_count - i,
    {
        data.push(color.red);
        data.push(color.green);
        data.push(color.blue);
        data.push(0x00);
        i = i + 1;
        proof {
            assert(data@ =~= header + spec_color_entries(i as int, *color));
        }
    }
    proof {
        assert(data@ =~= spec_color_payload(led_count, *color));
        lemma_color_entries_len(led_count as int, *color);
    }
    data
}

} // verus!
