//! The binary PPM image format: header and pixel bytes. Writing them to disk
//! is the caller's business; this module only computes the bytes.

use vstd::prelude::*;

use crate::color::Color;
use crate::color::channel_byte_spec;

verus! {

/// Decimal digits of a number, most significant first, as ASCII bytes.
pub open spec fn dec_spec(n: nat) -> Seq<u8>
    decreases n,
{
    if n < 10 {
        seq![(48 + n) as u8]
    } else {
        dec_spec(n / 10).push((48 + n % 10) as u8)
    }
}

/// The header of a binary PPM image: magic, dimensions, color depth.
pub open spec fn header_spec(width: nat, height: nat) -> Seq<u8> {
    seq![80u8, 54u8, 10u8] + dec_spec(width) + seq![32u8] + dec_spec(height) + seq![
        10u8,
        50u8,
        53u8,
        53u8,
        10u8,
    ]
}

pub struct PPMImage {
    pub file_path: String,
}

impl PPMImage {
    pub fn new(file_path: String) -> (r: PPMImage)
        ensures
            r.file_path == file_path,
    {
        PPMImage { file_path }
    }

    /// The header bytes for an image of the given dimensions.
    pub fn header_bytes(width: u64, height: u64) -> (r: Vec<u8>)
        ensures
            r@ == header_spec(width as nat, height as nat),
    {
        let mut out: Vec<u8> = Vec::new();
        out.push(80);
        out.push(54);
        out.push(10);
        let mut w: Vec<u8> = decimal_digits(width);
        out.append(&mut w);
        out.push(32);
        let mut h: Vec<u8> = decimal_digits(height);
        out.append(&mut h);
        out.push(10);
        out.push(50);
        out.push(53);
        out.push(53);
        out.push(10);
        proof {
            assert(out@ =~= header_spec(width as nat, height as nat));
        }
        out
    }

    /// The row-major pixel bytes of a buffer: three display bytes per color.
    pub fn pixel_bytes(buff: &Vec<Color>) -> (r: Vec<u8>)
        requires
            buff@.len() * 3 <= usize::MAX,
        ensures
            r@.len() == 3 * buff@.len(),
            forall|i: int|
                0 <= i < buff@.len() ==> r@[3 * i] as int == channel_byte_spec(
                    #[trigger] buff@[i].r.val as int,
                ) && r@[3 * i + 1] as int == channel_byte_spec(buff@[i].g.val as int) && r@[3 * i
                + 2] as int == channel_byte_spec(buff@[i].b.val as int),
    {
        let mut out: Vec<u8> = Vec::new();
        let mut i: usize = 0;
        while i < buff.len()
            invariant
                0 <= i <= buff@.len(),
                buff@.len() * 3 <= usize::MAX,
                out@.len() == 3 * i,
                forall|j: int|
                    0 <= j < i ==> out@[3 * j] as int == channel_byte_spec(
                        #[trigger] buff@[j].r.val as int,
                    ) && out@[3 * j + 1] as int == channel_byte_spec(buff@[j].g.val as int) && out@[
                        3 * j + 2
                    ] as int == channel_byte_spec(buff@[j].b.val as int),
            decreases buff@.len() - i,
        {
            let bytes: [u8; 3] = buff[i].rgb();
            out.push(bytes[0]);
            out.push(bytes[1]);
            out.push(bytes[2]);
            i += 1;
        }
        proof {
            assert forall|j: int| 0 <= j < buff@.len() implies out@[3 * j] as int
                == channel_byte_spec(#[trigger] buff@[j].r.val as int) && out@[3 * j + 1] as int
                == channel_byte_spec(buff@[j].g.val as int) && out@[3 * j + 2] as int
                == channel_byte_spec(buff@[j].b.val as int) by {
                assert(out@[3 * j] as int == channel_byte_spec(buff@[j].r.val as int));
                assert(out@[3 * j + 1] as int == channel_byte_spec(buff@[j].g.val as int));
                assert(out@[3 * j + 2] as int == channel_byte_spec(buff@[j].b.val as int));
            }
        }
        out
    }
}

/// Decimal digits of a number as ASCII bytes; see [`dec_spec`].
pub fn decimal_digits(n: u64) -> (r: Vec<u8>)
    ensures
        r@ == dec_spec(n as nat),
    decreases n,
{
    if n < 10 {
        let mut out: Vec<u8> = Vec::new();
        out.push(48 + (n as u8));
        proof {
            assert(out@ =~= dec_spec(n as nat));
        }
        out
    } else {
        let mut out: Vec<u8> = decimal_digits(n / 10);
        out.push(48 + ((n % 10) as u8));
        out
    }
}

} // verus!
