//! The quantization backends: each reduces the RGBA working buffer to a
//! small set of representative colors.
//!
//! The clustering itself is done by outside crates behind trusted
//! declarations; every backend here is a pure function of the buffer and its
//! parameters, so the whole extraction is deterministic.

use vstd::prelude::*;

use palette::FromColor;
use palette::IntoColor;

use crate::backend::Backend;
use crate::imaging::PixelBuffer;
use crate::PaletteError;

verus! {

/// The cluster count a single-strategy extraction asks for.
pub const SINGLE_BACKEND_COUNT: u8 = 10;

/// The fixed iteration bound of the k-means refinement.
pub const KMEANS_MAX_ITER: u32 = 10;

/// The fixed, non-random seed of the k-means clustering.
pub const KMEANS_SEED: u64 = 0;

/// The fixed sample-rate parameter handed to the median-cut quantizer.
pub const THIEF_QUALITY: u8 = 5;

/// The fixed quality parameter handed to the filtered quantizer.
pub const EXTRACT_QUALITY: u8 = 5;

// ---------------------------------------------------------------------------
// Opaque-pixel collection
// ---------------------------------------------------------------------------
/// The RGB triples of the pixels of a row-major RGBA byte buffer whose alpha
/// is above zero: transparent pixels are excluded from clustering input.
pub open spec fn opaque_pixels(data: Seq<u8>) -> Seq<(u8, u8, u8)>
    decreases data.len(),
{
    if data.len() < 4 {
        Seq::empty()
    } else {
        let rest = opaque_pixels(data.skip(4));
        if data[3] > 0 {
            seq![(data[0], data[1], data[2])] + rest
        } else {
            rest
        }
    }
}

fn collect_opaque(data: &Vec<u8>) -> (res: Vec<(u8, u8, u8)>)
    ensures
        res@ == opaque_pixels(data@),
{
    let mut out: Vec<(u8, u8, u8)> = Vec::new();
    let mut i: usize = 0;
    proof {
        assert(data@.skip(0) =~= data@);
        assert(Seq::<(u8, u8, u8)>::empty() + opaque_pixels(data@) =~= opaque_pixels(data@));
    }
    while data.len() - i >= 4
        invariant
            i <= data@.len(),
            i % 4 == 0,
            out@ + opaque_pixels(data@.skip(i as int)) == opaque_pixels(data@),
        decreases data@.len() - i,
    {
        let ghost pre = data@.skip(i as int);
        proof {
            assert(pre.len() >= 4);
            assert(pre.skip(4) =~= data@.skip(i + 4));
            assert(pre[0] == data@[i as int]);
            assert(pre[1] == data@[i + 1]);
            assert(pre[2] == data@[i + 2]);
            assert(pre[3] == data@[i + 3]);
        }
        if data[i + 3] > 0 {
            let c = (data[i], data[i + 1], data[i + 2]);
            let ghost prev = out@;
            out.push(c);
            proof {
                assert(opaque_pixels(pre) == seq![c] + opaque_pixels(data@.skip(i + 4)));
                assert(prev.push(c) + opaque_pixels(data@.skip(i + 4)) =~= prev + (seq![c]
                    + opaque_pixels(data@.skip(i + 4))));
            }
        } else {
            proof {
                assert(opaque_pixels(pre) == opaque_pixels(data@.skip(i + 4)));
            }
        }
        i += 4;
    }
    proof {
        assert(opaque_pixels(data@.skip(i as int)) =~= Seq::empty());
        assert(out@ =~= out@ + Seq::empty());
    }
    out
}

/// The white-filtering quantizer keeps the pixel starting at byte `4 * i`:
/// alpha above 125, and not all three channels above 250.
pub open spec fn sampled_pixel_kept(data: Seq<u8>, i: int) -> bool {
    &&& data[4 * i + 3] > 125
    &&& !(data[4 * i] > 250 && data[4 * i + 1] > 250 && data[4 * i + 2] > 250)
}

/// Some pixel the white-filtering quantizer samples (every `quality`-th one)
/// survives its filters. On a buffer where none does, the quantizer has an
/// empty histogram and does not return.
pub open spec fn has_sampled_pixel(data: Seq<u8>, quality: u8) -> bool {
    exists|k: int|
        0 <= k && #[trigger] (k * quality) < data.len() as int / 4 && sampled_pixel_kept(
            data,
            k * quality,
        )
}

fn has_quantizable_pixel(data: &Vec<u8>, quality: u8) -> (r: bool)
    requires
        quality >= 1,
    ensures
        r == has_sampled_pixel(data@, quality),
{
    let count = data.len() / 4;
    let mut idx: usize = 0;
    let ghost q = quality as int;
    let ghost mut steps: int = 0;
    while idx < count
        invariant
            count == data@.len() as int / 4,
            4 * count <= usize::MAX,
            quality >= 1,
            q == quality as int,
            steps >= 0,
            idx == steps * q,
            forall|k: int| #![trigger sampled_pixel_kept(data@, k * q)]
                0 <= k < steps ==> !sampled_pixel_kept(data@, k * q),
        decreases count + quality - idx,
    {
        if data[4 * idx + 3] > 125 && !(data[4 * idx] > 250 && data[4 * idx + 1] > 250 && data[4
            * idx + 2] > 250) {
            proof {
                assert(sampled_pixel_kept(data@, steps * q));
                assert(steps * q < data@.len() as int / 4);
            }
            return true;
        }
        proof {
            assert forall|k: int| #![trigger sampled_pixel_kept(data@, k * q)]
                0 <= k < steps + 1 implies !sampled_pixel_kept(data@, k * q) by {
                if k == steps {
                    assert(!sampled_pixel_kept(data@, steps * q));
                }
            }
            assert((steps + 1) * q == steps * q + q) by (nonlinear_arith);
            steps = steps + 1;
        }
        idx += quality as usize;
    }
    proof {
        assert forall|k: int|
            0 <= k && #[trigger] (k * q) < data@.len() as int / 4 implies !sampled_pixel_kept(
            data@,
            k * q,
        ) by {
            if k >= steps {
                assert(k * q >= steps * q) by (nonlinear_arith)
                    requires
                        k >= steps,
                        q >= 1,
                ;
            }
        }
    }
    false
}

// ---------------------------------------------------------------------------
// Trusted quantizer calls
// ---------------------------------------------------------------------------
/// The centroids seeded k-means clustering finds for the given opaque
/// pixels, cluster count, iteration bound and seed, converted back to 8-bit
/// RGB.
pub uninterp spec fn kmeans_of(pixels: Seq<(u8, u8, u8)>, k: nat, max_iter: nat, seed: u64) -> Seq<
    (u8, u8, u8),
>;

/// The palette median-cut quantization finds for the given RGBA bytes,
/// sample rate and color count, or nothing where it fails internally.
pub uninterp spec fn thief_of(data: Seq<u8>, quality: u8, max_colors: u8) -> Option<
    Seq<(u8, u8, u8)>,
>;

/// The palette the white-filtering quantizer finds for the given RGBA bytes,
/// quality and color count.
pub uninterp spec fn extract_of(data: Seq<u8>, quality: u8, max_colors: u8) -> Seq<(u8, u8, u8)>;

/// Relies on kmeans_colors::get_kmeans over Lab points, with the palette
/// crate converting each pixel sRGB -> linear -> Lab and each centroid back
/// to 8-bit sRGB. The clustering is seeded and iteration-bounded, so the
/// result depends on the arguments alone. It initializes its centroids from
/// the buffer and panics on an empty one, so that case is excluded here; it
/// returns between 1 and `k` centroids for a nonempty buffer.
#[verifier::external_body]
fn kmeans_centroids(pixels: &Vec<(u8, u8, u8)>, k: u8, max_iter: u32, seed: u64) -> (r: Vec<
    (u8, u8, u8),
>)
    requires
        pixels@.len() >= 1,
    ensures
        r@ == kmeans_of(pixels@, k as nat, max_iter as nat, seed),
        r@.len() <= k,
        k >= 1 ==> r@.len() >= 1,
{
    let points: Vec<palette::Lab> = pixels
        .iter()
        .map(|&(r, g, b)| {
            let s: palette::Srgb = palette::Srgb::new(r, g, b).into_format();
            s.into_linear().into_color()
        })
        .collect();
    let result = kmeans_colors::get_kmeans(k as usize, max_iter as usize, 1u8.into(), false, &points, seed);
    result.centroids
        .iter()
        .map(|&lab| {
            let s: palette::Srgb<u8> = palette::Srgb::from_color(lab).into_format();
            (s.red, s.green, s.blue)
        })
        .collect()
}

/// Relies on color_thief::get_palette on raw RGBA bytes: deterministic
/// median-cut quantization that reports internal failure as an error. It
/// asserts a quality within 1..=10 and a color count above 1, so other
/// inputs are excluded here.
#[verifier::external_body]
fn color_thief_palette(data: &Vec<u8>, quality: u8, max_colors: u8) -> (r: Option<
    Vec<(u8, u8, u8)>,
>)
    requires
        1 <= quality <= 10,
        max_colors >= 2,
    ensures
        r is Some <==> thief_of(data@, quality, max_colors) is Some,
        r matches Some(v) ==> v@ == thief_of(data@, quality, max_colors).unwrap(),
{
    match color_thief::get_palette(data, color_thief::ColorFormat::Rgba, quality, max_colors) {
        Ok(colors) => Some(colors.iter().map(|c| (c.r, c.g, c.b)).collect()),
        Err(_) => None,
    }
}

/// Relies on palette_extract::get_palette_with_options on raw RGBA bytes
/// with the white-pixel filter: a deterministic quantization. It does not
/// return where every sampled pixel is filtered out, where the quality is
/// zero, or where fewer than two colors are asked for, so those inputs are
/// excluded here.
#[verifier::external_body]
fn palette_extract_palette(data: &Vec<u8>, quality: u8, max_colors: u8) -> (r: Vec<(u8, u8, u8)>)
    requires
        quality >= 1,
        max_colors >= 2,
        has_sampled_pixel(data@, quality),
    ensures
        r@ == extract_of(data@, quality, max_colors),
{
    let colors = palette_extract::get_palette_with_options(
        data,
        palette_extract::PixelEncoding::Rgba,
        palette_extract::Quality::new(quality),
        palette_extract::MaxColors::new(max_colors),
        palette_extract::PixelFilter::White,
    );
    colors.iter().map(|c| (c.r, c.g, c.b)).collect()
}

// ---------------------------------------------------------------------------
// Verified backends
// ---------------------------------------------------------------------------
/// What the k-means backend yields for a buffer: the clustered opaque
/// pixels, or `QuantizationError` where every pixel is transparent and there
/// is nothing to cluster.
pub open spec fn kmeans_spec(data: Seq<u8>, k: u8) -> Result<Seq<(u8, u8, u8)>, PaletteError> {
    let px = opaque_pixels(data);
    if px.len() == 0 {
        Err(PaletteError::QuantizationError)
    } else {
        Ok(kmeans_of(px, k as nat, KMEANS_MAX_ITER as nat, KMEANS_SEED))
    }
}

/// What the median-cut backend yields for a buffer: its palette, or
/// `QuantizationError` where the quantizer failed internally.
pub open spec fn thief_spec(data: Seq<u8>, max_colors: u8) -> Result<
    Seq<(u8, u8, u8)>,
    PaletteError,
> {
    match thief_of(data, THIEF_QUALITY, max_colors) {
        Some(s) => Ok(s),
        None => Err(PaletteError::QuantizationError),
    }
}

/// What the white-filtering backend yields for a buffer: its palette, or
/// `QuantizationError` where the filters leave it no usable pixel.
pub open spec fn palette_extract_spec(data: Seq<u8>, max_colors: u8) -> Result<
    Seq<(u8, u8, u8)>,
    PaletteError,
> {
    if has_sampled_pixel(data, EXTRACT_QUALITY) {
        Ok(extract_of(data, EXTRACT_QUALITY, max_colors))
    } else {
        Err(PaletteError::QuantizationError)
    }
}

/// The k-means backend: clusters the opaque pixels of the buffer into `len`
/// clusters in a perceptually uniform space, with a fixed seed and iteration
/// bound. Fails exactly where the buffer holds no opaque pixel.
pub fn kmeans_colors(len: u8, buf: &PixelBuffer) -> (r: Result<Vec<(u8, u8, u8)>, PaletteError>)
    ensures
        r matches Ok(v) ==> kmeans_spec(buf.data@, len) matches Ok(s) && v@ == s && v@.len() <= len,
        r matches Err(e) ==> kmeans_spec(buf.data@, len) matches Err(e2) && e == e2,
        r is Ok <==> opaque_pixels(buf.data@).len() >= 1,
{
    let px = collect_opaque(&buf.data);
    if px.len() == 0 {
        Err(PaletteError::QuantizationError)
    } else {
        Ok(kmeans_centroids(&px, len, KMEANS_MAX_ITER, KMEANS_SEED))
    }
}

/// The median-cut backend, asking for at most `len` colors at the fixed
/// sample rate. Fails exactly where the quantizer reports an internal
/// failure.
pub fn color_thief_colors(len: u8, buf: &PixelBuffer) -> (r: Result<
    Vec<(u8, u8, u8)>,
    PaletteError,
>)
    requires
        len >= 2,
    ensures
        r matches Ok(v) ==> thief_spec(buf.data@, len) matches Ok(s) && v@ == s,
        r matches Err(e) ==> thief_spec(buf.data@, len) matches Err(e2) && e == e2,
        r is Ok <==> thief_of(buf.data@, THIEF_QUALITY, len) is Some,
{
    match color_thief_palette(&buf.data, THIEF_QUALITY, len) {
        Some(v) => Ok(v),
        None => Err(PaletteError::QuantizationError),
    }
}

/// The white-filtering backend, asking for at most `len` colors at the fixed
/// quality. Fails exactly where its filters leave no usable pixel.
pub fn palette_extract_colors(len: u8, buf: &PixelBuffer) -> (r: Result<
    Vec<(u8, u8, u8)>,
    PaletteError,
>)
    requires
        len >= 2,
    ensures
        r matches Ok(v) ==> palette_extract_spec(buf.data@, len) matches Ok(s) && v@ == s,
        r matches Err(e) ==> palette_extract_spec(buf.data@, len) matches Err(e2) && e == e2,
        r is Ok <==> has_sampled_pixel(buf.data@, EXTRACT_QUALITY),
{
    if has_quantizable_pixel(&buf.data, EXTRACT_QUALITY) {
        Ok(palette_extract_palette(&buf.data, EXTRACT_QUALITY, len))
    } else {
        Err(PaletteError::QuantizationError)
    }
}

// ---------------------------------------------------------------------------
// Strategy dispatch
// ---------------------------------------------------------------------------
/// What extraction with a strategy yields for a buffer. A composite run
/// concatenates k-means at the full count with the other two at a third of
/// it each; any participating backend failing aborts the whole extraction.
pub open spec fn extract_spec(data: Seq<u8>, backend: Backend, len: u8) -> Result<
    Seq<(u8, u8, u8)>,
    PaletteError,
> {
    match backend {
        Backend::KMeans => kmeans_spec(data, SINGLE_BACKEND_COUNT),
        Backend::ColorThief => thief_spec(data, SINGLE_BACKEND_COUNT),
        Backend::PaletteExtract => palette_extract_spec(data, SINGLE_BACKEND_COUNT),
        Backend::All => match (
            kmeans_spec(data, len),
            thief_spec(data, len / 3),
            palette_extract_spec(data, len / 3),
        ) {
            (Ok(a), Ok(b), Ok(c)) => Ok(a + b + c),
            (Err(e), _, _) => Err(e),
            (Ok(_), Err(e), _) => Err(e),
            (Ok(_), Ok(_), Err(e)) => Err(e),
        },
    }
}

/// Runs the selected quantization strategy over the working buffer and
/// returns the merged color sequence that seeds the working color set.
pub fn extract_colors(len: u8, backend: Backend, buf: &PixelBuffer) -> (r: Result<
    Vec<(u8, u8, u8)>,
    PaletteError,
>)
    requires
        backend == Backend::All ==> len >= 6,
    ensures
        r matches Ok(v) ==> extract_spec(buf.data@, backend, len) matches Ok(s) && v@ == s,
        r matches Err(e) ==> extract_spec(buf.data@, backend, len) matches Err(e2) && e == e2,
{
    match backend {
        Backend::KMeans => kmeans_colors(SINGLE_BACKEND_COUNT, buf),
        Backend::ColorThief => color_thief_colors(SINGLE_BACKEND_COUNT, buf),
        Backend::PaletteExtract => palette_extract_colors(SINGLE_BACKEND_COUNT, buf),
        Backend::All => {
            let mut collected = match kmeans_colors(len, buf) {
                Ok(v) => v,
                Err(e) => {
                    return Err(e);
                },
            };
            let mut second = match color_thief_colors(len / 3, buf) {
                Ok(v) => v,
                Err(e) => {
                    return Err(e);
                },
            };
            let mut third = match palette_extract_colors(len / 3, buf) {
                Ok(v) => v,
                Err(e) => {
                    return Err(e);
                },
            };
            collected.append(&mut second);
            collected.append(&mut third);
            Ok(collected)
        },
    }
}

} // verus!
