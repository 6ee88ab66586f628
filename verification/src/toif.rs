//! The compressed icon format: a header of twelve bytes (the letters
//! `TOI`, a format letter, width and height as 16-bit and the length of
//! the data as 32-bit little-endian numbers) followed by the compressed
//! pixels.

use vstd::prelude::*;
use vstd::slice::slice_subrange;

verus! {

/// Length of the header in bytes.
pub const TOIF_HEADER_LENGTH: usize = 12;

/// Pixel formats of an icon.
#[derive(Copy, Clone, Debug, PartialEq, Eq, Structural)]
pub enum ToifFormat {
    /// Sixteen bits per pixel, big endian (letter `f`).
    FullColorBE,
    /// Four bits per pixel, odd pixel in the high half (letter `g`).
    GrayScaleOH,
    /// Sixteen bits per pixel, little endian (letter `F`).
    FullColorLE,
    /// Four bits per pixel, even pixel in the high half (letter `G`).
    GrayScaleEH,
}

/// The 16-bit little-endian number at `at`.
pub open spec fn le16(data: Seq<u8>, at: int) -> int {
    data[at] as int + 256 * (data[at + 1] as int)
}

/// The 32-bit little-endian number at `at`.
pub open spec fn le32(data: Seq<u8>, at: int) -> int {
    data[at] as int + 256 * (data[at + 1] as int) + 65536 * (data[at + 2] as int) + 16777216 * (
    data[at + 3] as int)
}

/// True for the four format letters.
pub open spec fn is_format_letter(b: u8) -> bool {
    b == 0x66 || b == 0x67 || b == 0x46 || b == 0x47
}

/// True when `data` is a well-formed icon: a complete header with the
/// magic letters and a known format, and exactly as many bytes after the
/// header as the header says.
pub open spec fn is_toif(data: Seq<u8>) -> bool {
    &&& data.len() >= TOIF_HEADER_LENGTH
    &&& data[0] == 0x54
    &&& data[1] == 0x4F
    &&& data[2] == 0x49
    &&& is_format_letter(data[3])
    &&& le32(data, 8) + TOIF_HEADER_LENGTH == data.len()
}

/// Tells whether two byte strings are equal.
pub fn bytes_eq(a: &[u8], b: &[u8]) -> (e: bool)
    ensures
        e == (a@ == b@),
{
    if a.len() != b.len() {
        return false;
    }
    let n = a.len();
    let mut i: usize = 0;
    while i < n
        invariant
            i <= n,
            n == a@.len(),
            n == b@.len(),
            forall|j: int| 0 <= j < i ==> a@[j] == b@[j],
        decreases n - i,
    {
        if a[i] != b[i] {
            return false;
        }
        i += 1;
    }
    assert(a@ =~= b@);
    true
}

/// Reads a 16-bit little-endian number.
pub fn read_le16(data: &[u8], at: usize) -> (v: u16)
    requires
        at + 1 < data@.len(),
    ensures
        v == le16(data@, at as int),
{
    let lo: u16 = data[at] as u16;
    let hi: u16 = data[at + 1] as u16;
    lo + 256 * hi
}

/// A well-formed icon.
#[derive(Copy, Clone)]
pub struct Toif {
    data: &'static [u8],
    zdata: &'static [u8],
}

impl Toif {
    /// All bytes of the icon, header included.
    pub closed spec fn bytes(self) -> Seq<u8> {
        self.data@
    }

    /// The compressed pixels, as a specification.
    pub closed spec fn spec_zdata(self) -> &'static [u8] {
        self.zdata
    }

    /// The icon is well-formed, and its compressed pixels are the bytes
    /// after the header.
    pub open spec fn wf(self) -> bool {
        &&& is_toif(self.bytes())
        &&& self.spec_zdata()@ == self.bytes().subrange(
            TOIF_HEADER_LENGTH as int,
            self.bytes().len() as int,
        )
    }

    /// Width in pixels, as a specification: the header's number taken as a
    /// signed 16-bit value.
    pub open spec fn spec_width(self) -> i16 {
        le16(self.bytes(), 4) as u16 as i16
    }

    /// Height in pixels, as a specification.
    pub open spec fn spec_height(self) -> i16 {
        le16(self.bytes(), 6) as u16 as i16
    }

    /// The format, as a specification.
    pub open spec fn spec_format(self) -> ToifFormat {
        let b = self.bytes()[3];
        if b == 0x66 {
            ToifFormat::FullColorBE
        } else if b == 0x67 {
            ToifFormat::GrayScaleOH
        } else if b == 0x46 {
            ToifFormat::FullColorLE
        } else {
            ToifFormat::GrayScaleEH
        }
    }

    /// True for the two formats of four bits per pixel.
    pub open spec fn spec_is_grayscale(self) -> bool {
        self.spec_format() == ToifFormat::GrayScaleOH || self.spec_format()
            == ToifFormat::GrayScaleEH
    }

    /// Bytes of one row of decompressed pixels, as a specification.
    pub open spec fn spec_stride(self) -> int {
        if self.spec_is_grayscale() {
            le16(self.bytes(), 4) / 2
        } else {
            le16(self.bytes(), 4) * 2
        }
    }

    /// Takes `data` as an icon if it is well-formed.
    pub fn new(data: &'static [u8]) -> (r: Option<Toif>)
        ensures
            r.is_some() <==> is_toif(data@),
            r matches Some(t) ==> t.bytes() == data@ && t.wf(),
    {
        if data.len() < TOIF_HEADER_LENGTH {
            return None;
        }
        if data[0] != 0x54 || data[1] != 0x4F || data[2] != 0x49 {
            return None;
        }
        let f = data[3];
        if !(f == 0x66 || f == 0x67 || f == 0x46 || f == 0x47) {
            return None;
        }
        let zlen: u64 = data[8] as u64 + 256 * (data[9] as u64) + 65536 * (data[10] as u64)
            + 16777216 * (data[11] as u64);
        if zlen + TOIF_HEADER_LENGTH as u64 != data.len() as u64 {
            return None;
        }
        let zdata = slice_subrange(data, TOIF_HEADER_LENGTH, data.len());
        Some(Toif { data, zdata })
    }

    /// Tells whether the icon is well-formed.
    pub fn is_valid(&self) -> (ok: bool)
        ensures
            ok == self.wf(),
    {
        if Toif::new(self.data).is_some() {
            bytes_eq(self.zdata, slice_subrange(self.data, TOIF_HEADER_LENGTH, self.data.len()))
        } else {
            false
        }
    }

    pub fn format(&self) -> (f: ToifFormat)
        requires
            self.wf(),
        ensures
            f == self.spec_format(),
    {
        let b = self.data[3];
        if b == 0x66 {
            ToifFormat::FullColorBE
        } else if b == 0x67 {
            ToifFormat::GrayScaleOH
        } else if b == 0x46 {
            ToifFormat::FullColorLE
        } else {
            ToifFormat::GrayScaleEH
        }
    }

    pub fn is_grayscale(&self) -> (g: bool)
        requires
            self.wf(),
        ensures
            g == self.spec_is_grayscale(),
    {
        let b = self.data[3];
        b == 0x67 || b == 0x47
    }

    pub fn width(&self) -> (w: i16)
        requires
            self.wf(),
        ensures
            w == self.spec_width(),
    {
        #[verifier::truncate]
        (read_le16(self.data, 4) as i16)
    }

    pub fn height(&self) -> (h: i16)
        requires
            self.wf(),
        ensures
            h == self.spec_height(),
    {
        #[verifier::truncate]
        (read_le16(self.data, 6) as i16)
    }

    /// The compressed pixels: everything after the header.
    pub fn zdata(&self) -> (z: &'static [u8])
        requires
            self.wf(),
        ensures
            z == self.spec_zdata(),
            z@ == self.bytes().subrange(TOIF_HEADER_LENGTH as int, self.bytes().len() as int),
    {
        self.zdata
    }

    /// Bytes of one row of decompressed pixels: half the width for a
    /// grayscale icon, twice the width for a color icon.
    pub fn stride(&self) -> (s: usize)
        requires
            self.wf(),
        ensures
            s == self.spec_stride(),
    {
        let w: usize = read_le16(self.data, 4) as usize;
        if self.is_grayscale() {
            w / 2
        } else {
            w * 2
        }
    }
}

} // verus!
