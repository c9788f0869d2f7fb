//! Telling the container format from the first bytes of a file.

use vstd::prelude::*;
use crate::bytes::{read_u32, spec_has_at, spec_u32_at, Endian};
use crate::error::Error;
use crate::raf::{has_raf_magic, spec_raf_magic};

verus! {

/// The container formats that are told apart.
#[derive(Clone, Copy, Debug, PartialEq, Eq, Structural)]
pub enum FileFormat {
    /// A JPEG stream.
    Jpeg,
    /// A TIFF file.
    Tiff,
    /// A HEIF image: ISO base media with one of the HEIF brands.
    Heif,
    /// A QuickTime movie: ISO base media with the brand `qt  `.
    QuickTime,
    /// ISO base media with any other brand, such as MP4 and 3GP.
    IsoBmff,
    /// A Canon CR3 raw image: ISO base media with the brand `crx `.
    Cr3,
    /// An EBML document: Matroska, WebM.
    Ebml,
    /// A Fujifilm RAF raw image.
    Raf,
}

/// The box type `ftyp`.
pub const FTYP: u32 = 0x6674_7970;

/// The brand `crx `.
pub const BRAND_CRX: u32 = 0x6372_7820;

/// The brand `qt  `.
pub const BRAND_QT: u32 = 0x7174_2020;

/// The number of bytes that are enough to tell any format.
pub const PREFIX_LEN: usize = 15;

/// Whether `brand` is one of the HEIF brands: `heic`, `heix`, `hevc`,
/// `hevx`, `heim`, `heis`, `hevm`, `hevs`, `mif1`, `msf1`, `avif`.
pub open spec fn spec_is_heif_brand(brand: u32) -> bool {
    ||| brand == 0x6865_6963
    ||| brand == 0x6865_6978
    ||| brand == 0x6865_7663
    ||| brand == 0x6865_7678
    ||| brand == 0x6865_696D
    ||| brand == 0x6865_6973
    ||| brand == 0x6865_766D
    ||| brand == 0x6865_7673
    ||| brand == 0x6D69_6631
    ||| brand == 0x6D73_6631
    ||| brand == 0x6176_6966
}

/// The format that an ISO base media file with the major brand `brand`
/// is taken for.
pub open spec fn spec_format_of_brand(brand: u32) -> FileFormat {
    if brand == BRAND_CRX {
        FileFormat::Cr3
    } else if brand == BRAND_QT {
        FileFormat::QuickTime
    } else if spec_is_heif_brand(brand) {
        FileFormat::Heif
    } else {
        FileFormat::IsoBmff
    }
}

/// The format of a file that begins with the bytes `s`. The signatures
/// are tried in this order, and the first that matches decides:
///
/// - `FF D8`: JPEG;
/// - `49 49 2A 00` or `4D 4D 00 2A`: TIFF;
/// - `1A 45 DF A3`: EBML;
/// - `FUJIFILMCCD-RAW`: RAF;
/// - `ftyp` in bytes 4 to 7, with the major brand in bytes 8 to 11: ISO
///   base media, told apart by the brand.
///
/// Where none matches, the format is not recognised.
pub open spec fn spec_sniff(s: Seq<u8>) -> Result<FileFormat, Error> {
    if s.len() >= 2 && s[0] == 0xFF && s[1] == 0xD8 {
        Ok(FileFormat::Jpeg)
    } else if s.len() >= 4 && ((s[0] == 0x49 && s[1] == 0x49 && s[2] == 0x2A && s[3] == 0x00) || (
    s[0] == 0x4D && s[1] == 0x4D && s[2] == 0x00 && s[3] == 0x2A)) {
        Ok(FileFormat::Tiff)
    } else if s.len() >= 4 && s[0] == 0x1A && s[1] == 0x45 && s[2] == 0xDF && s[3] == 0xA3 {
        Ok(FileFormat::Ebml)
    } else if spec_has_at(s, 0, spec_raf_magic()) {
        Ok(FileFormat::Raf)
    } else if s.len() >= 12 && spec_u32_at(s, 4, Endian::Big) == FTYP {
        Ok(spec_format_of_brand(spec_u32_at(s, 8, Endian::Big) as u32))
    } else {
        Err(Error::UnrecognizedFormat)
    }
}

impl FileFormat {
    /// Whether files of this format carry EXIF-style metadata.
    pub open spec fn spec_has_exif(self) -> bool {
        match self {
            FileFormat::Jpeg | FileFormat::Tiff | FileFormat::Heif | FileFormat::Cr3
            | FileFormat::Raf => true,
            FileFormat::QuickTime | FileFormat::IsoBmff | FileFormat::Ebml => false,
        }
    }

    /// Whether files of this format carry track-style metadata.
    pub open spec fn spec_has_track(self) -> bool {
        !self.spec_has_exif()
    }

    /// Tells whether files of this format carry EXIF-style metadata.
    pub fn has_exif(&self) -> (r: bool)
        ensures
            r == self.spec_has_exif(),
    {
        match *self {
            FileFormat::Jpeg | FileFormat::Tiff | FileFormat::Heif | FileFormat::Cr3
            | FileFormat::Raf => true,
            FileFormat::QuickTime | FileFormat::IsoBmff | FileFormat::Ebml => false,
        }
    }

    /// Tells whether files of this format carry track-style metadata.
    pub fn has_track(&self) -> (r: bool)
        ensures
            r == self.spec_has_track(),
    {
        !self.has_exif()
    }
}

/// Tells whether `brand` is one of the HEIF brands.
pub fn is_heif_brand(brand: u32) -> (r: bool)
    ensures
        r == spec_is_heif_brand(brand),
{
    brand == 0x6865_6963 || brand == 0x6865_6978 || brand == 0x6865_7663 || brand == 0x6865_7678
        || brand == 0x6865_696D || brand == 0x6865_6973 || brand == 0x6865_766D || brand
        == 0x6865_7673 || brand == 0x6D69_6631 || brand == 0x6D73_6631 || brand == 0x6176_6966
}

/// Tells the format of a file from its first bytes; [`PREFIX_LEN`] bytes
/// are always enough.
pub fn sniff(prefix: &[u8]) -> (r: Result<FileFormat, Error>)
    ensures
        r == spec_sniff(prefix@),
{
    let n: usize = prefix.len();
    if n >= 2 && prefix[0] == 0xFF && prefix[1] == 0xD8 {
        Ok(FileFormat::Jpeg)
    } else if n >= 4 && ((prefix[0] == 0x49 && prefix[1] == 0x49 && prefix[2] == 0x2A && prefix[3]
        == 0x00) || (prefix[0] == 0x4D && prefix[1] == 0x4D && prefix[2] == 0x00 && prefix[3]
        == 0x2A)) {
        Ok(FileFormat::Tiff)
    } else if n >= 4 && prefix[0] == 0x1A && prefix[1] == 0x45 && prefix[2] == 0xDF && prefix[3]
        == 0xA3 {
        Ok(FileFormat::Ebml)
    } else if has_raf_magic(prefix) {
        Ok(FileFormat::Raf)
    } else if n >= 12 && read_u32(prefix, 4, Endian::Big).unwrap() == FTYP {
        let brand = read_u32(prefix, 8, Endian::Big).unwrap();
        if brand == BRAND_CRX {
            Ok(FileFormat::Cr3)
        } else if brand == BRAND_QT {
            Ok(FileFormat::QuickTime)
        } else if is_heif_brand(brand) {
            Ok(FileFormat::Heif)
        } else {
            Ok(FileFormat::IsoBmff)
        }
    } else {
        Err(Error::UnrecognizedFormat)
    }
}

/// The format is decided by the first [`PREFIX_LEN`] bytes: whatever
/// follows them changes nothing.
pub proof fn lemma_sniff_needs_prefix_only(s: Seq<u8>)
    requires
        s.len() >= PREFIX_LEN,
    ensures
        spec_sniff(s) == spec_sniff(s.take(PREFIX_LEN as int)),
{
    let p = s.take(PREFIX_LEN as int);
    assert forall|k: int| 0 <= k < PREFIX_LEN implies p[k] == s[k] by {}
    assert(p[0] == s[0] && p[1] == s[1] && p[2] == s[2] && p[3] == s[3]);
    assert(p[4] == s[4] && p[5] == s[5] && p[6] == s[6] && p[7] == s[7]);
    assert(p[8] == s[8] && p[9] == s[9] && p[10] == s[10] && p[11] == s[11]);
    let magic = spec_raf_magic();
    assert(s.subrange(0, 15) =~= p.subrange(0, 15));
}

} // verus!
