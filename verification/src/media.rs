//! One entry point for every format: tell the format, find the TIFF data,
//! decode it.

use vstd::prelude::*;
use vstd::slice::slice_to_vec;
use crate::cr3::{cr3_extract_exif, spec_cr3_extract};
use crate::error::{Context, Error};
use crate::exif::{spec_assemble, Exif, FieldModel};
use crate::heif::{find_heif_exif, spec_heif_exif};
use crate::ifd::{spec_start, spec_walk, ExifIter};
use crate::jpeg::{find_exif, spec_jpeg_exif};
use crate::raf::{find_raf_exif, spec_raf_exif};
use crate::sniff::{sniff, spec_sniff, FileFormat};
use crate::span::Span;
use crate::tiff::spec_tiff_header;

verus! {

/// The bytes of `s` in the range that was found, or the failure to find
/// one.
pub open spec fn spec_cut(s: Seq<u8>, found: Result<Span, Error>) -> Result<Seq<u8>, Error> {
    match found {
        Err(e) => Err(e),
        Ok(span) => Ok(span.of(s)),
    }
}

/// The TIFF data of a file `s` of the format `format`. A TIFF file is its
/// own TIFF data. The formats that carry tracks and no EXIF data are
/// `ExifNotFound`, and so is a CR3 file without usable `CMT` boxes.
pub open spec fn spec_locate(s: Seq<u8>, format: FileFormat) -> Result<Seq<u8>, Error> {
    match format {
        FileFormat::Jpeg => spec_cut(s, spec_jpeg_exif(s)),
        FileFormat::Tiff => Ok(s),
        FileFormat::Raf => spec_cut(s, spec_raf_exif(s)),
        FileFormat::Heif => spec_cut(s, spec_heif_exif(s)),
        FileFormat::Cr3 => match spec_cr3_extract(s) {
            Err(e) => Err(e),
            Ok(None) => Err(Error::ExifNotFound),
            Ok(Some(tiff)) => Ok(tiff),
        },
        FileFormat::QuickTime | FileFormat::IsoBmff | FileFormat::Ebml => Err(
            Error::ExifNotFound,
        ),
    }
}

/// The place that a failure to find the TIFF data of a file of the format
/// `format` is reported in.
pub open spec fn spec_context_of(format: FileFormat) -> Context {
    match format {
        FileFormat::Jpeg => Context::JpegSegments,
        FileFormat::Raf => Context::RafHeader,
        FileFormat::Cr3 => Context::MoovBody,
        FileFormat::Tiff => Context::TiffHeader,
        FileFormat::Heif | FileFormat::QuickTime | FileFormat::IsoBmff | FileFormat::Ebml =>
            Context::BoxTree,
    }
}

/// The TIFF data of the file `s`, whatever its format.
pub open spec fn spec_extract_exif(s: Seq<u8>) -> Result<Seq<u8>, Error> {
    match spec_sniff(s) {
        Err(e) => Err(e),
        Ok(format) => spec_locate(s, format),
    }
}

/// The decoded metadata of TIFF data, each failure with its place: a
/// header that cannot be read in `TiffHeader`, a walk that fails in `Ifd`.
pub open spec fn spec_decode(tiff: Seq<u8>) -> Result<Seq<FieldModel>, Error> {
    match spec_tiff_header(tiff) {
        Err(e) => Err(e.spec_in_context(Context::TiffHeader)),
        Ok(h) => {
            let (entries, end) = spec_walk(tiff, h.endian, spec_start(h));
            match end {
                Some(e) => Err(e.spec_in_context(Context::Ifd)),
                None => Ok(spec_assemble(tiff, h.endian, entries)),
            }
        },
    }
}

/// The decoded metadata of the file `s`, whatever its format. A format
/// that is not recognised is reported as it is; a failure to find the
/// TIFF data is reported in the place that goes with the format; a
/// failure to decode it is reported as [`spec_decode`] says.
pub open spec fn spec_parse_file(s: Seq<u8>) -> Result<Seq<FieldModel>, Error> {
    match spec_sniff(s) {
        Err(e) => Err(e),
        Ok(format) => match spec_locate(s, format) {
            Err(e) => Err(e.spec_in_context(spec_context_of(format))),
            Ok(tiff) => spec_decode(tiff),
        },
    }
}

/// Copies the range that was found out of `file`.
fn cut(file: &[u8], found: Result<Span, Error>) -> (r: Result<Vec<u8>, Error>)
    requires
        found matches Ok(span) ==> span.fits(file@.len() as int),
    ensures
        match r {
            Ok(v) => spec_cut(file@, found) == Ok::<Seq<u8>, Error>(v@),
            Err(e) => spec_cut(file@, found) == Err::<Seq<u8>, Error>(e),
        },
{
    match found {
        Err(e) => Err(e),
        Ok(span) => Ok(slice_to_vec(span.slice(file).unwrap())),
    }
}

/// Finds the TIFF data of a file of the format `format`.
pub fn locate(file: &[u8], format: FileFormat) -> (r: Result<Vec<u8>, Error>)
    ensures
        match r {
            Ok(v) => spec_locate(file@, format) == Ok::<Seq<u8>, Error>(v@),
            Err(e) => spec_locate(file@, format) == Err::<Seq<u8>, Error>(e),
        },
{
    match format {
        FileFormat::Jpeg => cut(file, find_exif(file)),
        FileFormat::Tiff => Ok(slice_to_vec(file)),
        FileFormat::Raf => cut(file, find_raf_exif(file)),
        FileFormat::Heif => cut(file, find_heif_exif(file)),
        FileFormat::Cr3 => match cr3_extract_exif(file) {
            Err(e) => Err(e),
            Ok(None) => Err(Error::ExifNotFound),
            Ok(Some(tiff)) => Ok(tiff),
        },
        FileFormat::QuickTime | FileFormat::IsoBmff | FileFormat::Ebml => Err(
            Error::ExifNotFound,
        ),
    }
}

/// Returns the place that failures to find the TIFF data are reported in.
pub fn context_of(format: FileFormat) -> (c: Context)
    ensures
        c == spec_context_of(format),
{
    match format {
        FileFormat::Jpeg => Context::JpegSegments,
        FileFormat::Raf => Context::RafHeader,
        FileFormat::Cr3 => Context::MoovBody,
        FileFormat::Tiff => Context::TiffHeader,
        FileFormat::Heif | FileFormat::QuickTime | FileFormat::IsoBmff | FileFormat::Ebml =>
            Context::BoxTree,
    }
}

/// Finds the TIFF data of a file that is wholly in memory.
pub fn extract_exif(file: &[u8]) -> (r: Result<Vec<u8>, Error>)
    ensures
        match r {
            Ok(v) => spec_extract_exif(file@) == Ok::<Seq<u8>, Error>(v@),
            Err(e) => spec_extract_exif(file@) == Err::<Seq<u8>, Error>(e),
        },
{
    match sniff(file) {
        Err(e) => Err(e),
        Ok(format) => locate(file, format),
    }
}

/// Decodes TIFF data into the metadata it holds.
pub fn decode(tiff: Vec<u8>) -> (r: Result<Exif, Error>)
    ensures
        match r {
            Ok(x) => spec_decode(tiff@) == Ok::<Seq<FieldModel>, Error>(x@),
            Err(e) => spec_decode(tiff@) == Err::<Seq<FieldModel>, Error>(e),
        },
{
    let mut iter = match ExifIter::new(tiff) {
        Err(e) => {
            return Err(e.in_context(Context::TiffHeader));
        },
        Ok(it) => it,
    };
    let (entries, end) = iter.collect();
    match end {
        Some(e) => Err(e.in_context(Context::Ifd)),
        None => Ok(Exif::assemble(iter.data(), iter.endian(), &entries)),
    }
}

/// Decodes the metadata of a file that is wholly in memory.
pub fn parse_file(file: &[u8]) -> (r: Result<Exif, Error>)
    ensures
        match r {
            Ok(x) => spec_parse_file(file@) == Ok::<Seq<FieldModel>, Error>(x@),
            Err(e) => spec_parse_file(file@) == Err::<Seq<FieldModel>, Error>(e),
        },
{
    let format = match sniff(file) {
        Err(e) => {
            return Err(e);
        },
        Ok(f) => f,
    };
    match locate(file, format) {
        Err(e) => Err(e.in_context(context_of(format))),
        Ok(tiff) => decode(tiff),
    }
}

} // verus!
