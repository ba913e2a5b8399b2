//! The backend selector: the closed set of quantization strategies, the
//! listing pseudo-selector, and the parsing of selector strings.

use vstd::prelude::*;
use vstd::string::StrSliceExecFns;

use crate::PaletteError;

verus! {

/// The strategies that can populate the working color set.
#[derive(Clone, Copy, Debug, PartialEq, Eq, Structural)]
pub enum Backend {
    /// Seeded k-means clustering in a perceptually uniform color space.
    KMeans,
    /// Median-cut color-space partitioning, directly on RGBA.
    ColorThief,
    /// Fast weighted quantization that filters out near-white pixels.
    PaletteExtract,
    /// All three, concatenated: the full count from k-means and a third of
    /// it from each of the other two.
    All,
}

/// What a selector string names: a quantization strategy, or the
/// pseudo-selector that asks for the table of available backends instead of
/// a palette.
#[derive(Clone, Copy, Debug, PartialEq, Eq, Structural)]
pub enum Selector {
    Strategy(Backend),
    ListBackends,
}

fn str_eq(a: &str, b: &str) -> (r: bool)
    ensures
        r == (a@ == b@),
{
    let la = a.unicode_len();
    let lb = b.unicode_len();
    if la != lb {
        return false;
    }
    let mut i: usize = 0;
    while i < la
        invariant
            i <= la,
            la == a@.len(),
            lb == b@.len(),
            la == lb,
            forall|j: int| 0 <= j < i ==> a@[j] == b@[j],
        decreases la - i,
    {
        if a.get_char(i) != b.get_char(i) {
            return false;
        }
        i += 1;
    }
    proof {
        assert(a@ =~= b@);
    }
    true
}

/// Which selector each string names. Only the four strategy names and the
/// listing pseudo-selector are recognized; everything else is an unknown
/// backend.
pub open spec fn parse_backend_spec(s: Seq<char>) -> Result<Selector, PaletteError> {
    if s == "kmeans"@ {
        Ok(Selector::Strategy(Backend::KMeans))
    } else if s == "color_thief"@ {
        Ok(Selector::Strategy(Backend::ColorThief))
    } else if s == "palette_extract"@ {
        Ok(Selector::Strategy(Backend::PaletteExtract))
    } else if s == "all"@ {
        Ok(Selector::Strategy(Backend::All))
    } else if s == "backends"@ {
        Ok(Selector::ListBackends)
    } else {
        Err(PaletteError::UnknownBackendError)
    }
}

/// Parses a backend selector string. Fails with `UnknownBackendError`, and
/// with nothing else, exactly on the strings that name no selector.
pub fn parse_backend(s: &str) -> (r: Result<Selector, PaletteError>)
    ensures
        r == parse_backend_spec(s@),
{
    if str_eq(s, "kmeans") {
        Ok(Selector::Strategy(Backend::KMeans))
    } else if str_eq(s, "color_thief") {
        Ok(Selector::Strategy(Backend::ColorThief))
    } else if str_eq(s, "palette_extract") {
        Ok(Selector::Strategy(Backend::PaletteExtract))
    } else if str_eq(s, "all") {
        Ok(Selector::Strategy(Backend::All))
    } else if str_eq(s, "backends") {
        Ok(Selector::ListBackends)
    } else {
        Err(PaletteError::UnknownBackendError)
    }
}

} // verus!
