//! Color-type tags and header sniffing for the decode boundary: which
//! (format, channel layout) combination a decoded file carried, which
//! format a path's extension suggests, and the dimensions a PNG or JPEG
//! header declares. The byte-level scans are pure functions of the buffer
//! they are handed; reading the file itself is the boundary's business.

use crate::utils::{after_last, low8, lower_seq, png_bytes};
use vstd::prelude::*;
use vstd::string::StringSliceAdditionalSpecFns;

verus! {

/// The color layout a decoded image file carried, by file format.
#[derive(Debug, Clone, PartialEq)]
pub enum ColorType {
    /// A PNG file with three color channels per pixel.
    PNGRgb,
    /// A PNG file with three color channels and alpha per pixel.
    PNGRgba,
    /// A PNG file with one luma channel per pixel.
    PNGGrayscale,
    /// A PNG file with a luma and an alpha channel per pixel.
    PNGGrayscaleAlpha,
    /// A PNG file whose pixels index a palette.
    PNGIndexed,
    /// A JPEG file with three color channels per pixel.
    JPEGRgb,
}

/// A file format the header sniffer understands.
#[derive(Debug, Clone, PartialEq)]
pub enum ImageExt {
    /// The PNG file format.
    PNG,
    /// The JPEG family of file formats.
    JPG,
}

/// An ASCII whitespace byte, as trimming removes it.
pub open spec fn is_ws(b: u8) -> bool {
    b == 32 || (9 <= b && b <= 13)
}

/// The bytes of `s` with leading ASCII whitespace removed.
pub open spec fn trim_start(s: Seq<u8>) -> Seq<u8>
    decreases s.len(),
{
    if s.len() > 0 && is_ws(s[0]) {
        trim_start(s.skip(1))
    } else {
        s
    }
}

/// The bytes of `s` with trailing ASCII whitespace removed.
pub open spec fn trim_end(s: Seq<u8>) -> Seq<u8>
    decreases s.len(),
{
    if s.len() > 0 && is_ws(s.last()) {
        trim_end(s.drop_last())
    } else {
        s
    }
}

/// The bytes of `s` with ASCII whitespace removed from both ends.
pub open spec fn trim_bytes(s: Seq<u8>) -> Seq<u8> {
    trim_end(trim_start(s))
}

/// The extension `extension` matches against: the last `.`-suffix of the
/// path's last `/`-segment, trimmed and lowercased.
pub open spec fn trimmed_ext(s: Seq<u8>) -> Seq<u8> {
    lower_seq(trim_bytes(after_last(after_last(s, 47), 46)))
}

/// The extensions the JPEG family answers to: `jif`, `jpg`, `jpe`, `jpeg`,
/// `jfif` and `jfi`, as bytes.
pub open spec fn is_jpg_ext(s: Seq<u8>) -> bool {
    ||| s == seq![106u8, 105u8, 102u8]
    ||| s == seq![106u8, 112u8, 103u8]
    ||| s == seq![106u8, 112u8, 101u8]
    ||| s == seq![106u8, 112u8, 101u8, 103u8]
    ||| s == seq![106u8, 102u8, 105u8, 102u8]
    ||| s == seq![106u8, 102u8, 105u8]
}

/// A cut `lo` with whitespace before it and none at it picks out exactly
/// the suffix that `trim_start` leaves.
proof fn lemma_trim_start_cut(s: Seq<u8>, lo: int)
    requires
        0 <= lo <= s.len(),
        forall|k: int| 0 <= k < lo ==> is_ws(s[k]),
        lo == s.len() || !is_ws(s[lo]),
    ensures
        trim_start(s) == s.skip(lo),
    decreases s.len(),
{
    if lo == 0 {
        assert(s.skip(0) =~= s);
    } else {
        assert(is_ws(s[0]));
        lemma_trim_start_cut(s.skip(1), lo - 1);
        assert(s.skip(1).skip(lo - 1) =~= s.skip(lo));
    }
}

/// A cut `hi` with whitespace from it on and none just before it picks out
/// exactly the prefix that `trim_end` leaves.
proof fn lemma_trim_end_cut(s: Seq<u8>, hi: int)
    requires
        0 <= hi <= s.len(),
        forall|k: int| hi <= k < s.len() ==> is_ws(s[k]),
        hi == 0 || !is_ws(s[hi - 1]),
    ensures
        trim_end(s) == s.take(hi),
    decreases s.len(),
{
    if hi == s.len() {
        if s.len() > 0 {
            assert(!is_ws(s.last()));
        }
        assert(s.take(hi) =~= s);
    } else {
        assert(is_ws(s.last()));
        lemma_trim_end_cut(s.drop_last(), hi);
        assert(s.drop_last().take(hi) =~= s.take(hi));
    }
}

/// Guesses the file format a path points to from its extension, trimmed
/// and matched without regard to ASCII case: `png` names PNG; `jif`,
/// `jpg`, `jpe`, `jpeg`, `jfif` and `jfi` name the JPEG family; anything
/// else names nothing.
#[verifier::rlimit(60)]
pub fn extension(path: &str) -> (r: Option<ImageExt>)
    ensures
        r == Some(ImageExt::PNG) <==> trimmed_ext(path.spec_bytes()) == png_bytes(),
        r == Some(ImageExt::JPG) <==> is_jpg_ext(trimmed_ext(path.spec_bytes())),
{
    let bytes = path.as_bytes();
    let n = bytes.len();
    let mut i: usize = n;
    while i > 0
        invariant
            i <= n,
            n == bytes@.len(),
            forall|k: int| i <= k < n ==> bytes@[k] != 46 && bytes@[k] != 47,
        ensures
            i <= n,
            forall|k: int| i <= k < n ==> bytes@[k] != 46 && bytes@[k] != 47,
            i == 0 || bytes@[i - 1] == 46 || bytes@[i - 1] == 47,
        decreases i,
    {
        let b = bytes[i - 1];
        if b == 46 || b == 47 {
            break;
        }
        i = i - 1;
    }
    proof {
        crate::utils::lemma_after_last_cut(bytes@, i as int);
    }
    let ghost suffix = bytes@.skip(i as int);
    let mut lo = i;
    while lo < n
        invariant
            i <= lo <= n,
            n == bytes@.len(),
            forall|k: int| i <= k < lo ==> is_ws(bytes@[k]),
        ensures
            i <= lo <= n,
            forall|k: int| i <= k < lo ==> is_ws(bytes@[k]),
            lo == n || !is_ws(bytes@[lo as int]),
        decreases n - lo,
    {
        let b = bytes[lo];
        if !(b == 32 || (9 <= b && b <= 13)) {
            break;
        }
        lo = lo + 1;
    }
    proof {
        assert forall|k: int| 0 <= k < lo - i implies is_ws(suffix[k]) by {
            assert(suffix[k] == bytes@[i + k]);
        }
        lemma_trim_start_cut(suffix, lo as int - i as int);
        assert(suffix.skip(lo as int - i as int) =~= bytes@.skip(lo as int));
    }
    let mut hi = n;
    while hi > lo
        invariant
            lo <= hi <= n,
            n == bytes@.len(),
            forall|k: int| hi <= k < n ==> is_ws(bytes@[k]),
        ensures
            lo <= hi <= n,
            forall|k: int| hi <= k < n ==> is_ws(bytes@[k]),
            hi == lo || !is_ws(bytes@[hi - 1]),
        decreases hi,
    {
        let b = bytes[hi - 1];
        if !(b == 32 || (9 <= b && b <= 13)) {
            break;
        }
        hi = hi - 1;
    }
    proof {
        let started = bytes@.skip(lo as int);
        assert forall|k: int| hi - lo <= k < started.len() implies is_ws(started[k]) by {
            assert(started[k] == bytes@[lo + k]);
        }
        if hi > lo {
            assert(!is_ws(started[hi - lo - 1]));
        }
        lemma_trim_end_cut(started, hi as int - lo as int);
        assert(trim_bytes(suffix) == started.take(hi as int - lo as int));
    }
    let mut ext: Vec<u8> = Vec::new();
    let mut j = lo;
    while j < hi
        invariant
            lo <= j <= hi <= n,
            n == bytes@.len(),
            ext@.len() == j - lo,
            forall|k: int| 0 <= k < ext@.len() ==> ext@[k] == low8(bytes@[lo + k]),
        decreases hi - j,
    {
        let b = bytes[j];
        let lb: u8 = if b >= 65 && b <= 90 {
            b + 32
        } else {
            b
        };
        ext.push(lb);
        j = j + 1;
    }
    proof {
        assert(ext@ =~= trimmed_ext(path.spec_bytes()));
    }
    if ext.len() == 3 && ext[0] == 112 && ext[1] == 110 && ext[2] == 103 {
        proof {
            assert(ext@ =~= png_bytes());
        }
        Some(ImageExt::PNG)
    } else if ext.len() == 3 && ext[0] == 106 && ((ext[1] == 105 && ext[2] == 102) || (ext[1]
        == 112 && (ext[2] == 103 || ext[2] == 101)) || (ext[1] == 102 && ext[2] == 105)) {
        proof {
            if ext@[1] == 105 {
                assert(ext@ =~= seq![106u8, 105u8, 102u8]);
            } else if ext@[1] == 112 && ext@[2] == 103 {
                assert(ext@ =~= seq![106u8, 112u8, 103u8]);
            } else if ext@[1] == 112 {
                assert(ext@ =~= seq![106u8, 112u8, 101u8]);
            } else {
                assert(ext@ =~= seq![106u8, 102u8, 105u8]);
            }
            assert(is_jpg_ext(ext@));
        }
        Some(ImageExt::JPG)
    } else if ext.len() == 4 && ext[0] == 106 && ((ext[1] == 112 && ext[2] == 101 && ext[3]
        == 103) || (ext[1] == 102 && ext[2] == 105 && ext[3] == 102)) {
        proof {
            if ext@[1] == 112 {
                assert(ext@ =~= seq![106u8, 112u8, 101u8, 103u8]);
            } else {
                assert(ext@ =~= seq![106u8, 102u8, 105u8, 102u8]);
            }
            assert(is_jpg_ext(ext@));
        }
        Some(ImageExt::JPG)
    } else {
        None
    }
}

/// The big-endian 32-bit value whose four bytes start at `p`.
pub open spec fn be32(s: Seq<u8>, p: int) -> int {
    (s[p] as int) * 0x1000000 + (s[p + 1] as int) * 0x10000 + (s[p + 2] as int) * 0x100 + (s[p
        + 3] as int)
}

/// The big-endian 16-bit value whose two bytes start at `p`.
pub open spec fn be16(s: Seq<u8>, p: int) -> int {
    (s[p] as int) * 0x100 + (s[p + 1] as int)
}

/// The eight signature bytes every PNG file starts with.
pub open spec fn png_sig() -> Seq<u8> {
    seq![137u8, 80u8, 78u8, 71u8, 13u8, 10u8, 26u8, 10u8]
}

/// The bytes of the PNG chunk type `IHDR`.
pub open spec fn ihdr_bytes() -> Seq<u8> {
    seq![73u8, 72u8, 68u8, 82u8]
}

/// The dimensions the PNG chunk scan yields from `pos` on. Each chunk is a
/// four-byte length, a four-byte type, the data and a four-byte checksum;
/// the `IHDR` chunk's first eight data bytes hold width and height, each
/// taken into 16 bits. The scan ends empty at the declared size, and at any
/// read the buffer cannot satisfy.
pub open spec fn png_scan(data: Seq<u8>, size: int, pos: int) -> Option<(u16, u16)>
    decreases size - pos,
{
    if pos >= size {
        None
    } else if pos + 8 > data.len() {
        None
    } else if data.subrange(pos + 4, pos + 8) == ihdr_bytes() {
        if pos + 16 <= data.len() {
            Some(
                (
                    (be32(data, pos + 8) % 0x10000) as u16,
                    (be32(data, pos + 12) % 0x10000) as u16,
                ),
            )
        } else {
            None
        }
    } else {
        let next = pos + 12 + be32(data, pos);
        if next >= size {
            None
        } else {
            png_scan(data, size, next)
        }
    }
}

/// The dimensions the JPEG segment scan yields from `pos` on. Each segment
/// is a `0xFF` byte, a marker and a length-prefixed payload; a baseline
/// start-of-frame marker's payload holds height then width. The scan ends
/// empty at the declared size, at a byte that is no segment start, and at
/// any read the buffer cannot satisfy.
pub open spec fn jpg_scan(data: Seq<u8>, size: int, pos: int) -> Option<(u16, u16)>
    decreases size - pos,
{
    if pos >= size {
        None
    } else if pos + 4 > data.len() {
        None
    } else if data[pos] != 255 {
        None
    } else if 192 <= data[pos + 1] && data[pos + 1] <= 194 {
        if pos + 9 <= data.len() {
            Some((be16(data, pos + 7) as u16, be16(data, pos + 5) as u16))
        } else {
            None
        }
    } else {
        let next = pos + 2 + be16(data, pos + 2);
        if next >= size {
            None
        } else {
            jpg_scan(data, size, next)
        }
    }
}

/// The dimensions `dimension` reads from a buffer, a declared size and a
/// format: for PNG, the signature is checked and the chunks scanned from
/// just after it; for JPEG, the segments are scanned from just after the
/// start-of-image marker.
pub open spec fn dimension_spec(data: Seq<u8>, size: int, ext: ImageExt) -> Option<(u16, u16)> {
    match ext {
        ImageExt::PNG => if data.len() < 8 || data.subrange(0, 8) != png_sig() {
            None
        } else {
            png_scan(data, size, 8)
        },
        ImageExt::JPG => jpg_scan(data, size, 2),
    }
}

/// The PNG chunk scan, from just after the signature.
fn png_dim(data: &Vec<u8>, limit: u64) -> (r: Option<(u16, u16)>)
    ensures
        r == png_scan(data@, limit as int, 8),
{
    let n = data.len();
    let mut pos: u64 = 8;
    while pos < limit
        invariant
            n == data@.len(),
            8 <= pos,
            png_scan(data@, limit as int, 8) == png_scan(data@, limit as int, pos as int),
        decreases limit - pos,
    {
        if (n as u64) < 8 || pos > (n as u64) - 8 {
            proof {
                assert(png_scan(data@, limit as int, pos as int) is None);
            }
            return None;
        }
        let p = pos as usize;
        if data[p + 4] == 73 && data[p + 5] == 72 && data[p + 6] == 68 && data[p + 7] == 82 {
            proof {
                assert(data@.subrange(pos as int + 4, pos as int + 8) =~= ihdr_bytes());
            }
            if (n as u64) >= 16 && pos <= (n as u64) - 16 {
                let w = (data[p + 8] as u64) * 0x1000000 + (data[p + 9] as u64) * 0x10000 + (
                data[p + 10] as u64) * 0x100 + (data[p + 11] as u64);
                let h = (data[p + 12] as u64) * 0x1000000 + (data[p + 13] as u64) * 0x10000 + (
                data[p + 14] as u64) * 0x100 + (data[p + 15] as u64);
                proof {
                    assert(w == be32(data@, pos as int + 8));
                    assert(h == be32(data@, pos as int + 12));
                }
                return Some(((w % 0x10000) as u16, (h % 0x10000) as u16));
            } else {
                return None;
            }
        } else {
            proof {
                if data@.subrange(pos as int + 4, pos as int + 8) == ihdr_bytes() {
                    assert(data@[pos as int + 4] == ihdr_bytes()[0]);
                    assert(data@[pos as int + 5] == ihdr_bytes()[1]);
                    assert(data@[pos as int + 6] == ihdr_bytes()[2]);
                    assert(data@[pos as int + 7] == ihdr_bytes()[3]);
                }
            }
            let chunk_length = (data[p] as u64) * 0x1000000 + (data[p + 1] as u64) * 0x10000 + (
            data[p + 2] as u64) * 0x100 + (data[p + 3] as u64);
            proof {
                assert(chunk_length == be32(data@, pos as int));
            }
            let remaining = limit - pos;
            if chunk_length + 12 >= remaining {
                proof {
                    assert(png_scan(data@, limit as int, pos as int) is None);
                }
                return None;
            }
            pos = pos + 12 + chunk_length;
        }
    }
    proof {
        assert(png_scan(data@, limit as int, pos as int) is None);
    }
    None
}

/// The JPEG segment scan, from just after the start-of-image marker.
fn jpg_dim(data: &Vec<u8>, limit: u64) -> (r: Option<(u16, u16)>)
    ensures
        r == jpg_scan(data@, limit as int, 2),
{
    let n = data.len();
    let mut pos: u64 = 2;
    while pos < limit
        invariant
            n == data@.len(),
            2 <= pos,
            jpg_scan(data@, limit as int, 2) == jpg_scan(data@, limit as int, pos as int),
        decreases limit - pos,
    {
        if (n as u64) < 4 || pos > (n as u64) - 4 {
            proof {
                assert(jpg_scan(data@, limit as int, pos as int) is None);
            }
            return None;
        }
        let p = pos as usize;
        if data[p] != 255 {
            proof {
                assert(jpg_scan(data@, limit as int, pos as int) is None);
            }
            return None;
        }
        let marker = data[p + 1];
        let segment_length = (data[p + 2] as u64) * 0x100 + (data[p + 3] as u64);
        proof {
            assert(segment_length == be16(data@, pos as int + 2));
        }
        if marker >= 192 && marker <= 194 {
            if (n as u64) >= 9 && pos <= (n as u64) - 9 {
                let height = (data[p + 5] as u64) * 0x100 + (data[p + 6] as u64);
                let width = (data[p + 7] as u64) * 0x100 + (data[p + 8] as u64);
                proof {
                    assert(height == be16(data@, pos as int + 5));
                    assert(width == be16(data@, pos as int + 7));
                }
                return Some((width as u16, height as u16));
            } else {
                return None;
            }
        } else {
            let remaining = limit - pos;
            if segment_length + 2 >= remaining {
                proof {
                    assert(jpg_scan(data@, limit as int, pos as int) is None);
                }
                return None;
            }
            pos = pos + 2 + segment_length;
        }
    }
    proof {
        assert(jpg_scan(data@, limit as int, pos as int) is None);
    }
    None
}

/// Reads the dimensions `(width, height)` that an image buffer's header
/// declares, scanning at most `size` bytes of `data`. A malformed or
/// truncated header yields `None`; no read ever leaves the buffer.
pub fn dimension(size: &usize, data: &Vec<u8>, extension: &ImageExt) -> (r: Option<(u16, u16)>)
    ensures
        r == dimension_spec(data@, *size as int, *extension),
{
    let n = data.len();
    let limit = *size as u64;
    match extension {
        ImageExt::PNG => {
            if n < 8 {
                return None;
            }
            if !(data[0] == 137 && data[1] == 80 && data[2] == 78 && data[3] == 71 && data[4]
                == 13 && data[5] == 10 && data[6] == 26 && data[7] == 10) {
                proof {
                    if data@.subrange(0, 8) == png_sig() {
                        assert(data@[0] == png_sig()[0]);
                        assert(data@[1] == png_sig()[1]);
                        assert(data@[2] == png_sig()[2]);
                        assert(data@[3] == png_sig()[3]);
                        assert(data@[4] == png_sig()[4]);
                        assert(data@[5] == png_sig()[5]);
                        assert(data@[6] == png_sig()[6]);
                        assert(data@[7] == png_sig()[7]);
                    }
                }
                return None;
            }
            proof {
                assert(data@.subrange(0, 8) =~= png_sig());
            }
            png_dim(data, limit)
        },
        ImageExt::JPG => jpg_dim(data, limit),
    }
}

} // verus!
