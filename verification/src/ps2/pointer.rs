//! What a mouse says with the bytes of a packet.
use vstd::prelude::*;
use crate::ps2::mouse::sample;

verus! {

proof fn lemma_packet_bits(first: u8, last: u8)
    by (bit_vector)
    ensures
        first & (0x40u8 | 0x80u8) != 0 <==> first >= 0x40,
        (first & (0x01u8 | 0x02u8 | 0x04u8) & 0x37u8) == first & 0x07,
        (first & 0x07) | (0x10u8 & 0x37u8) == (first & 0x07) + 0x10,
        (first & 0x07) | (0x20u8 & 0x37u8) == (first & 0x07) + 0x20,
        (first & 0x07) | (0x10u8 & 0x37u8) | (0x20u8 & 0x37u8) == (first & 0x07) + 0x30,
        first & 0x07 == first % 8,
        last & 0x0F == last % 16,
        (last & 0x0F) & 0x08 != 0 <==> last % 16 >= 8,
        last & 0x10 != 0 <==> last / 16 % 2 == 1,
        last & 0x20 != 0 <==> last / 32 % 2 == 1,
        first & 0x10 != 0 <==> first / 16 % 2 == 1,
        first & 0x20 != 0 <==> first / 32 % 2 == 1,
{
}

/// A packet moves the pointer by the numbers of nine bits whose signs are bits four
/// and five of its first byte, and whose rest are its second and third; down is
/// positive.  Its first three bits are the left, the right and the middle button.
/// With a fourth byte the wheel moves by the four lowest bits of that, and the next
/// two are the outer buttons.  A packet that ran over says nothing.
pub proof fn lemma_packet_is_read(bytes: Seq<u8>, four_byte: bool)
    requires
        bytes.len() >= 4,
    ensures
        ({
            let flags = bytes[0] as int;
            let event = sample(bytes, four_byte)->0;
            let wheel = bytes[3] as int % 16;
            &&& sample(bytes, four_byte) is None <==> flags >= 0x40
            &&& flags < 0x40 ==> {
                &&& event.dx == bytes[1] - 256 * (flags / 16 % 2)
                &&& event.dy == 256 * (flags / 32 % 2) - bytes[2]
                &&& event.dz == (if !four_byte {
                    0
                } else if wheel >= 8 {
                    wheel - 16
                } else {
                    wheel
                })
                &&& event.buttons.bits == flags % 8 + (if four_byte {
                    16 * (bytes[3] as int / 16 % 2) + 32 * (bytes[3] as int / 32 % 2)
                } else {
                    0
                })
            }
        }),
{
    lemma_packet_bits(bytes[0], bytes[3]);
}

} // verus!
