//! Path utilities of the file boundary: whether a path points to an
//! existing file, and which image format its extension names.

use crate::errors::{Error, ErrorCode};
use crate::extensions::ImageExtension;
use vstd::prelude::*;
use vstd::string::StringSliceAdditionalSpecFns;

verus! {

/// The bytes of `s` after its last occurrence of `sep`; all of `s` when
/// `sep` does not occur.
pub open spec fn after_last(s: Seq<u8>, sep: u8) -> Seq<u8>
    decreases s.len(),
{
    if s.len() == 0 {
        Seq::empty()
    } else if s.last() == sep {
        Seq::empty()
    } else {
        after_last(s.drop_last(), sep).push(s.last())
    }
}

/// An ASCII byte lowercased.
pub open spec fn low8(b: u8) -> u8 {
    if 65 <= b <= 90 {
        (b + 32) as u8
    } else {
        b
    }
}

/// A byte sequence lowercased, ASCII letter by ASCII letter.
pub open spec fn lower_seq(s: Seq<u8>) -> Seq<u8> {
    s.map_values(|b: u8| low8(b))
}

/// The extension a path carries, lowercased: what follows the last `.` of
/// what follows the last `/`. A path without a `.` in its last segment
/// yields that whole segment.
pub open spec fn ext_bytes(s: Seq<u8>) -> Seq<u8> {
    lower_seq(after_last(after_last(s, 47), 46))
}

/// The bytes of the extension `png`.
pub open spec fn png_bytes() -> Seq<u8> {
    seq![112u8, 110u8, 103u8]
}

/// The bytes of the extension `jpg`.
pub open spec fn jpg_bytes() -> Seq<u8> {
    seq![106u8, 112u8, 103u8]
}

/// The bytes of the extension `jpeg`.
pub open spec fn jpeg_bytes() -> Seq<u8> {
    seq![106u8, 112u8, 101u8, 103u8]
}

/// A cut `i` with a `.` or `/` just before it and neither from it on picks
/// out exactly the suffix that the two nested after-last splits (first `/`,
/// then `.`) leave.
pub proof fn lemma_after_last_cut(s: Seq<u8>, i: int)
    requires
        0 <= i <= s.len(),
        i == 0 || s[i - 1] == 46 || s[i - 1] == 47,
        forall|k: int| i <= k < s.len() ==> s[k] != 46 && s[k] != 47,
    ensures
        after_last(after_last(s, 47), 46) == s.skip(i),
    decreases s.len(),
{
    if s.len() == i {
        if i == 0 {
            assert(s =~= Seq::<u8>::empty());
            assert(s.skip(0) =~= Seq::<u8>::empty());
        } else if s[i - 1] == 47 {
            assert(s.last() == 47);
            assert(after_last(s, 47) == Seq::<u8>::empty());
            assert(s.skip(i) =~= Seq::<u8>::empty());
        } else {
            assert(s.last() == 46);
            let a = after_last(s, 47);
            assert(a == after_last(s.drop_last(), 47).push(46u8));
            assert(a.last() == 46);
            assert(after_last(a, 46) == Seq::<u8>::empty());
            assert(s.skip(i) =~= Seq::<u8>::empty());
        }
    } else {
        let c = s.last();
        assert(c != 46 && c != 47);
        lemma_after_last_cut(s.drop_last(), i);
        let a = after_last(s.drop_last(), 47);
        assert(after_last(s, 47) == a.push(c));
        assert(a.push(c).last() == c);
        assert(a.push(c).drop_last() =~= a);
        assert(after_last(a.push(c), 46) == after_last(a, 46).push(c));
        assert(after_last(a, 46) == s.drop_last().skip(i));
        assert(s.drop_last().skip(i).push(c) =~= s.skip(i));
    }
}

/// Checks whether a file format extension is one this library recognises:
/// `png` names PNG and `jpg` or `jpeg` names JPEG, matched without regard
/// to ASCII case in the last `.`-suffix of the path's last `/`-segment.
/// Any other suffix fails with `InvalidExtension`.
pub fn check_extension(path: &str) -> (r: Result<ImageExtension, Error>)
    ensures
        r == Ok::<ImageExtension, Error>(ImageExtension::PNG) <==> ext_bytes(path.spec_bytes())
            == png_bytes(),
        r == Ok::<ImageExtension, Error>(ImageExtension::JPEG) <==> (ext_bytes(path.spec_bytes())
            == jpg_bytes() || ext_bytes(path.spec_bytes()) == jpeg_bytes()),
        r is Err ==> r->Err_0.code == ErrorCode::InvalidExtension,
{
    let bytes = path.as_bytes();
    let n = bytes.len();
    let mut i: usize = n;
    while i > 0
        invariant
            i <= n,
            n == bytes@.len(),
            forall|k: int| i <= k < n ==> bytes@[k] != 46 && bytes@[k] != 47,
        ensures
            i <= n,
            forall|k: int| i <= k < n ==> bytes@[k] != 46 && bytes@[k] != 47,
            i == 0 || bytes@[i - 1] == 46 || bytes@[i - 1] == 47,
        decreases i,
    {
        let b = bytes[i - 1];
        if b == 46 || b == 47 {
            break;
        }
        i = i - 1;
    }
    proof {
        lemma_after_last_cut(bytes@, i as int);
    }
    let mut ext: Vec<u8> = Vec::new();
    let mut j = i;
    while j < n
        invariant
            i <= j <= n,
            n == bytes@.len(),
            ext@.len() == j - i,
            forall|k: int| 0 <= k < ext@.len() ==> ext@[k] == low8(bytes@[i + k]),
        decreases n - j,
    {
        let b = bytes[j];
        let lb: u8 = if b >= 65 && b <= 90 {
            b + 32
        } else {
            b
        };
        ext.push(lb);
        j = j + 1;
    }
    proof {
        assert(ext@ =~= ext_bytes(path.spec_bytes()));
    }
    if ext.len() == 3 && ext[0] == 112 && ext[1] == 110 && ext[2] == 103 {
        proof {
            assert(ext@ =~= png_bytes());
        }
        Ok(ImageExtension::PNG)
    } else if ext.len() == 3 && ext[0] == 106 && ext[1] == 112 && ext[2] == 103 {
        proof {
            assert(ext@ =~= jpg_bytes());
        }
        Ok(ImageExtension::JPEG)
    } else if ext.len() == 4 && ext[0] == 106 && ext[1] == 112 && ext[2] == 101 && ext[3] == 103 {
        proof {
            assert(ext@ =~= jpeg_bytes());
        }
        Ok(ImageExtension::JPEG)
    } else {
        Error::custom_error(
            Error {
                code: ErrorCode::InvalidExtension,
                message: "unrecognized extension".to_owned(),
            },
        )
    }
}

/// Checks whether a path exists on the system, by asking it.
///
/// Relies on std::path::Path::try_exists: `Ok(true)` when the path points
/// to an existing entity, `Ok(false)` when it does not, `Err` when the
/// check itself failed (a permission denied on a directory of the path).
/// What comes back depends on the file system, so nothing more is claimed
/// of it.
#[verifier::external_body]
pub fn check_path(path: &str) -> (r: Result<bool, std::io::Error>) {
    std::path::Path::new(&path).try_exists()
}

/// Error type of the operating system's file interface.
#[verifier::external_type_specification]
#[verifier::external_body]
pub struct ExIoError(std::io::Error);

} // verus!
