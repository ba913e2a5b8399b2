//! Derives a deterministic 16-slot terminal color scheme, plus a background
//! alpha value, from a raster image: the image is decoded and resized, one or
//! more color-quantization strategies reduce it to a small set of colors, the
//! set is deduplicated and augmented to a minimum size, ordered by perceived
//! brightness, and mapped onto a fixed 16-color palette with
//! brightness/saturation grading and grayscale overrides for two slots.

use vstd::prelude::*;

pub mod backend;
pub mod builder;
pub mod color;
pub mod format;
pub mod imaging;
pub mod quantize;
pub mod slots;

use crate::backend::{parse_backend, parse_backend_spec, Backend, Selector};
use crate::builder::{
    augment_spec, dedup_spec, remove_duplicates, sort_by_luma_spec, augment_colors, sort_by_luma,
};
use crate::imaging::{decode_accepts, decode_rgba, decoded_buffer_of};
use crate::quantize::{extract_colors, extract_spec};
use crate::slots::{lemma_foreground_slots_gray, map_slots, palette_spec};

verus! {

/// The errors the palette pipeline can fail with. All of them are fatal for
/// the invocation that raised them: no partial palette is ever produced.
#[derive(Clone, Copy, Debug, PartialEq, Eq, Structural)]
pub enum PaletteError {
    /// The image is corrupt, unsupported, or empty.
    ImageDecodeError,
    /// The backend selector names no known quantization strategy.
    UnknownBackendError,
    /// A quantization strategy failed internally or produced no usable colors.
    QuantizationError,
    /// The working color set reached the slot mapper below its minimum size.
    InvariantViolation,
}

/// The color count the initial extraction asks the strategy for.
pub const INITIAL_EXTRACT_COUNT: u8 = 30;

/// The brightness or saturation a caller that supplied none gets.
pub open spec fn user_value(v: Option<i8>) -> int {
    match v {
        Some(x) => x as int,
        None => 0,
    }
}

/// The palette and alpha the pipeline yields for decoded image bytes and a
/// strategy: decode and resize, extract, deduplicate, augment, order by
/// luma, map onto the 16 slots; the background alpha is read from pixel
/// (0,0) of the resized buffer. Every step is a function of the inputs, so
/// the whole pipeline is deterministic.
pub open spec fn palette_of(bytes: Seq<u8>, strategy: Backend, br: int, sat: int) -> Result<
    (Seq<(u8, u8, u8)>, u8),
    PaletteError,
> {
    if !decode_accepts(bytes) {
        Err(PaletteError::ImageDecodeError)
    } else {
        let data = decoded_buffer_of(bytes).0;
        match extract_spec(data, strategy, INITIAL_EXTRACT_COUNT) {
            Err(e) => Err(e),
            Ok(raw) => {
                let deduped = dedup_spec(raw);
                if deduped.len() == 0 {
                    Err(PaletteError::QuantizationError)
                } else {
                    let sorted = sort_by_luma_spec(augment_spec(deduped, 0));
                    Ok((palette_spec(sorted, br, sat), data[3]))
                }
            },
        }
    }
}

/// What `get_colors` yields: the pipeline for a selector string that names a
/// strategy, and `UnknownBackendError` for every other string. The listing
/// pseudo-selector names no strategy: callers that want the table recognize
/// it with `parse_backend` before asking for a palette.
pub open spec fn get_colors_spec(
    bytes: Seq<u8>,
    backend: Seq<char>,
    br: Option<i8>,
    sat: Option<i8>,
) -> Result<(Seq<(u8, u8, u8)>, u8), PaletteError> {
    match parse_backend_spec(backend) {
        Ok(Selector::Strategy(b)) => palette_of(bytes, b, user_value(br), user_value(sat)),
        _ => Err(PaletteError::UnknownBackendError),
    }
}

/// A palette result, viewed at the specification level, meets the contract
/// of `get_colors` for the given inputs.
pub open spec fn meets_get_colors_spec(
    r: Result<(Seq<(u8, u8, u8)>, u8), PaletteError>,
    bytes: Seq<u8>,
    backend: Seq<char>,
    br: Option<i8>,
    sat: Option<i8>,
) -> bool {
    &&& (r is Ok <==> get_colors_spec(bytes, backend, br, sat) is Ok)
    &&& (r matches Ok(v) ==> get_colors_spec(bytes, backend, br, sat) matches Ok(s) && v.0 == s.0
        && v.1 == s.1)
    &&& (r matches Err(e) ==> get_colors_spec(bytes, backend, br, sat) matches Err(e2) && e == e2)
}

/// Determinism of the pipeline: identical image bytes, backend selector,
/// brightness and saturation always yield an identical palette and alpha.
/// Any two results that meet the contract of `get_colors` for the same
/// inputs are equal, because that contract pins each of them to
/// `get_colors_spec`, a function of those four inputs alone.
pub proof fn lemma_get_colors_deterministic(
    bytes: Seq<u8>,
    backend: Seq<char>,
    br: Option<i8>,
    sat: Option<i8>,
    r1: Result<(Seq<(u8, u8, u8)>, u8), PaletteError>,
    r2: Result<(Seq<(u8, u8, u8)>, u8), PaletteError>,
)
    requires
        meets_get_colors_spec(r1, bytes, backend, br, sat),
        meets_get_colors_spec(r2, bytes, backend, br, sat),
    ensures
        r1 == r2,
{
    match get_colors_spec(bytes, backend, br, sat) {
        Ok(s) => {
            assert(r1 == Ok::<(Seq<(u8, u8, u8)>, u8), PaletteError>((s.0, s.1)));
            assert(r2 == Ok::<(Seq<(u8, u8, u8)>, u8), PaletteError>((s.0, s.1)));
        },
        Err(e) => {
            assert(r1 == Err::<(Seq<(u8, u8, u8)>, u8), PaletteError>(e));
            assert(r2 == Err::<(Seq<(u8, u8, u8)>, u8), PaletteError>(e));
        },
    }
}

/// Generates the 16-color palette and the background alpha from the bytes of
/// an image file.
///
/// Fails with `ImageDecodeError` exactly where the bytes do not decode to an
/// image with at least one pixel; with `UnknownBackendError` exactly where
/// the selector string names no quantization strategy; and with
/// `QuantizationError` exactly where the selected strategy fails internally
/// or yields no color. It never fails with `InvariantViolation`: the builder
/// guarantees the slot mapper its minimum working-set size.
pub fn get_colors(image: &[u8], backend: &str, brightness: Option<i8>, saturation: Option<i8>) -> (r:
    Result<(Vec<(u8, u8, u8)>, u8), PaletteError>)
    ensures
        r is Ok <==> get_colors_spec(image@, backend@, brightness, saturation) is Ok,
        r matches Ok(v) ==> get_colors_spec(image@, backend@, brightness, saturation) matches Ok(s)
            && v.0@ == s.0 && v.1 == s.1,
        r matches Err(e) ==> get_colors_spec(image@, backend@, brightness, saturation) matches Err(
            e2,
        ) && e == e2,
        r matches Ok(v) ==> v.0@.len() == 16,
        r matches Ok(v) ==> v.0@[7] == v.0@[15] && v.0@[7].0 == v.0@[7].1 && v.0@[7].1
            == v.0@[7].2,
        r matches Err(e) ==> e != PaletteError::InvariantViolation,
{
    let strategy = match parse_backend(backend) {
        Ok(Selector::Strategy(b)) => b,
        _ => {
            return Err(PaletteError::UnknownBackendError);
        },
    };
    let buf = match decode_rgba(image) {
        Ok(b) => b,
        Err(e) => {
            return Err(e);
        },
    };
    proof {
        assert(4 * buf.width * buf.height >= 4) by (nonlinear_arith)
            requires
                buf.width >= 1,
                buf.height >= 1,
        ;
    }
    let alpha: u8 = buf.data[3];
    let raw = match extract_colors(INITIAL_EXTRACT_COUNT, strategy, &buf) {
        Ok(v) => v,
        Err(e) => {
            return Err(e);
        },
    };
    let mut working = remove_duplicates(raw);
    if working.len() == 0 {
        return Err(PaletteError::QuantizationError);
    }
    augment_colors(&mut working);
    sort_by_luma(&mut working);
    let br: i8 = match brightness {
        Some(v) => v,
        None => 0,
    };
    let sat: i8 = match saturation {
        Some(v) => v,
        None => 0,
    };
    proof {
        lemma_foreground_slots_gray(working@, br as int, sat as int);
    }
    match map_slots(&working, br, sat) {
        Ok(palette) => Ok((palette, alpha)),
        Err(e) => Err(e),
    }
}

} // verus!
