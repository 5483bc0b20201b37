//! The colorizer: maps a flat, row-major buffer of scalar samples onto an
//! RGB raster by sending each sample through a colormap, after rescaling the
//! samples' value range onto the colormap's index range.

use vstd::prelude::*;
use crate::affine::{lemma_table_index_at_ends, table_index_spec};
use crate::extrema::{
    lemma_seq_max_ge, lemma_seq_max_is_element, lemma_seq_min_is_element, lemma_seq_min_le,
    lemma_seq_min_le_max, seq_max, seq_min,
};

verus! {

/// How the value range of the samples is chosen: computed from the data, or
/// fixed by the caller as `MinMax(lowest, highest)`.
pub enum DataRange<T> {
    Automatic,
    MinMax(T, T),
}

/// Conversion between a sample type and the table-index domain, together
/// with the mathematical value of a sample, which every contract speaks of.
pub trait CastAsUsize: Sized {
    /// The mathematical value of a sample.
    spec fn as_int(self) -> int;

    /// The greatest value the sample type can hold.
    spec fn max_val() -> int;

    fn from_usize(x: usize) -> (r: Self)
        requires
            x <= Self::max_val(),
        ensures
            r.as_int() == x,
    ;

    fn to_usize(x: Self) -> (r: usize)
        requires
            0 <= x.as_int() <= usize::MAX,
        ensures
            r == x.as_int(),
    ;
}

/// The samples of a buffer as mathematical integers.
pub open spec fn sample_values<T: CastAsUsize>(data: Seq<T>) -> Seq<int> {
    data.map_values(|x: T| x.as_int())
}

/// The operations the mapping routine needs of a sample type: ordering,
/// whole-buffer extremum reduction, and the affine index computation.
pub trait ColorRegression: CastAsUsize + Copy {
    fn le(self, other: Self) -> (r: bool)
        ensures
            r == (self.as_int() <= other.as_int()),
    ;

    /// Reduces a non-empty buffer to its least sample by one pass of
    /// pairwise comparison through the sample type's own ordering.
    #[verifier::loop_isolation(false)]
    fn min(data: &[Self]) -> (r: Self)
        requires
            data@.len() > 0,
        ensures
            r.as_int() == seq_min(sample_values(data@)),
    {
        let ghost vals = sample_values(data@);
        let mut cur = data[0];
        for k in 1..data.len()
            invariant
                1 <= k <= data@.len(),
                cur.as_int() == seq_min(vals.take(k as int)),
        {
            let x = data[k];
            proof {
                assert(vals.take(k + 1).drop_last() =~= vals.take(k as int));
                assert(vals.take(k + 1).last() == vals[k as int]);
            }
            if x.le(cur) {
                cur = x;
            }
        }
        proof {
            assert(vals.take(data@.len() as int) =~= vals);
        }
        cur
    }

    /// Reduces a non-empty buffer to its greatest sample, as `min` does for
    /// the least.
    #[verifier::loop_isolation(false)]
    fn max(data: &[Self]) -> (r: Self)
        requires
            data@.len() > 0,
        ensures
            r.as_int() == seq_max(sample_values(data@)),
    {
        let ghost vals = sample_values(data@);
        let mut cur = data[0];
        for k in 1..data.len()
            invariant
                1 <= k <= data@.len(),
                cur.as_int() == seq_max(vals.take(k as int)),
        {
            let x = data[k];
            proof {
                assert(vals.take(k + 1).drop_last() =~= vals.take(k as int));
                assert(vals.take(k + 1).last() == vals[k as int]);
            }
            if cur.le(x) {
                cur = x;
            }
        }
        proof {
            assert(vals.take(data@.len() as int) =~= vals);
        }
        cur
    }

    fn table_index(self, lo: Self, hi: Self, last: usize) -> (i: usize)
        requires
            lo.as_int() <= self.as_int() <= hi.as_int(),
            lo.as_int() < hi.as_int(),
        ensures
            i == table_index_spec(self.as_int(), lo.as_int(), hi.as_int(), last as int),
            i <= last,
    ;
}

/// A width x height grid of RGB pixels, row major, three 8-bit channels per
/// pixel, freshly allocated by the mapping routine.
pub struct Raster {
    pub width: u32,
    pub height: u32,
    pub pixels: Vec<[u8; 3]>,
}

impl Raster {
    /// The pixel buffer covers the grid exactly.
    pub open spec fn well_formed(self) -> bool {
        self.pixels@.len() == (self.width as int) * (self.height as int)
    }
}

/// The default color: black, all three channels zero.
pub open spec fn is_default_pixel(p: [u8; 3]) -> bool {
    p[0] == 0 && p[1] == 0 && p[2] == 0
}

/// The lower bound of the mapped value range under the given policy.
pub open spec fn resolved_lo<T: CastAsUsize>(data: Seq<T>, dr: DataRange<T>) -> int {
    match dr {
        DataRange::Automatic => seq_min(sample_values(data)),
        DataRange::MinMax(lo, _) => lo.as_int(),
    }
}

/// The upper bound of the mapped value range under the given policy.
pub open spec fn resolved_hi<T: CastAsUsize>(data: Seq<T>, dr: DataRange<T>) -> int {
    match dr {
        DataRange::Automatic => seq_max(sample_values(data)),
        DataRange::MinMax(_, hi) => hi.as_int(),
    }
}

/// What `color` asks of an explicit range: ordered bounds that cover every
/// sample. An automatic range carries no obligation.
pub open spec fn range_ok<T: CastAsUsize>(data: Seq<T>, dr: DataRange<T>) -> bool {
    match dr {
        DataRange::Automatic => true,
        DataRange::MinMax(lo, hi) => {
            &&& lo.as_int() <= hi.as_int()
            &&& forall|k: int|
                0 <= k < data.len() ==> lo.as_int() <= #[trigger] data[k].as_int() <= hi.as_int()
        },
    }
}

/// The raster `color` returns, pixel by pixel: one pixel per sample; all
/// pixels default when the resolved range is degenerate; otherwise each
/// pixel is the colormap entry the affine rescale selects for its sample.
pub open spec fn color_post<T: CastAsUsize>(
    data: Seq<T>,
    cmap: Seq<[u8; 3]>,
    dr: DataRange<T>,
    out: Seq<[u8; 3]>,
) -> bool {
    let lo = resolved_lo(data, dr);
    let hi = resolved_hi(data, dr);
    &&& out.len() == data.len()
    &&& (data.len() > 0 && lo == hi ==> forall|k: int|
        0 <= k < out.len() ==> is_default_pixel(#[trigger] out[k]))
    &&& (data.len() > 0 && lo != hi ==> forall|k: int|
        0 <= k < out.len() ==> #[trigger] out[k] == cmap[table_index_spec(
            sample_values(data)[k],
            lo,
            hi,
            cmap.len() - 1,
        )])
}

/// Maps each sample of the `w` x `h` buffer `data` through `color_map`: the
/// resolved value range is rescaled onto the colormap's index range and each
/// sample takes the entry at its rescaled index. An empty buffer or a
/// degenerate range (no contrast) yields a raster of default pixels.
#[verifier::loop_isolation(false)]
pub fn color<T: ColorRegression>(
    w: u32,
    h: u32,
    data: &[T],
    color_map: &[[u8; 3]],
    data_range: DataRange<T>,
) -> (img: Raster)
    requires
        (w as int) * (h as int) == data@.len(),
        color_map@.len() >= 1,
        range_ok(data@, data_range),
    ensures
        img.width == w,
        img.height == h,
        img.well_formed(),
        color_post(data@, color_map@, data_range, img.pixels@),
{
    let ghost vals = sample_values(data@);
    if data.len() == 0 {
        return Raster { width: w, height: h, pixels: Vec::new() };
    }
    let (lo, hi) = match &data_range {
        DataRange::Automatic => (T::min(data), T::max(data)),
        DataRange::MinMax(a, b) => (*a, *b),
    };
    proof {
        assert(lo.as_int() == resolved_lo(data@, data_range));
        assert(hi.as_int() == resolved_hi(data@, data_range));
        if data_range is Automatic {
            lemma_seq_min_le_max(vals);
        }
        assert forall|k: int| 0 <= k < vals.len() implies lo.as_int() <= #[trigger] vals[k]
            <= hi.as_int() by {
            if data_range is Automatic {
                lemma_seq_min_le(vals, k);
                lemma_seq_max_ge(vals, k);
            }
        }
    }
    if hi.le(lo) {
        // No contrast: the rescale is undefined, so the raster stays unset.
        let mut pixels: Vec<[u8; 3]> = Vec::new();
        for k in 0..data.len()
            invariant
                pixels@.len() == k,
                forall|j: int| 0 <= j < k ==> is_default_pixel(#[trigger] pixels@[j]),
        {
            pixels.push([0u8, 0u8, 0u8]);
        }
        return Raster { width: w, height: h, pixels };
    }
    let last: usize = color_map.len() - 1;
    let mut pixels: Vec<[u8; 3]> = Vec::new();
    for k in 0..data.len()
        invariant
            pixels@.len() == k,
            forall|j: int|
                0 <= j < k ==> #[trigger] pixels@[j] == color_map@[table_index_spec(
                    vals[j],
                    lo.as_int(),
                    hi.as_int(),
                    last as int,
                )],
    {
        let v = data[k];
        proof {
            assert(vals[k as int] == data@[k as int].as_int());
        }
        let i: usize = v.table_index(lo, hi, last);
        pixels.push(color_map[i]);
    }
    Raster { width: w, height: h, pixels }
}

/// Recolors a raster in place from its red channel: each pixel's red value,
/// read as a sample in the fixed range `[0, 255]`, selects the colormap
/// entry at its rescaled index, exactly as `color` would under that range.
#[verifier::loop_isolation(false)]
pub fn color_greyscale(img: &mut Raster, map: &[[u8; 3]])
    requires
        map@.len() >= 1,
    ensures
        final(img).width == old(img).width,
        final(img).height == old(img).height,
        final(img).pixels@.len() == old(img).pixels@.len(),
        forall|k: int|
            0 <= k < old(img).pixels@.len() ==> #[trigger] final(img).pixels@[k]
                == map@[table_index_spec(old(img).pixels@[k][0] as int, 0, 255, map@.len() - 1)],
{
    let last: usize = map.len() - 1;
    let mut pixels: Vec<[u8; 3]> = Vec::new();
    let n: usize = img.pixels.len();
    for k in 0..n
        invariant
            pixels@.len() == k,
            forall|j: int|
                0 <= j < k ==> #[trigger] pixels@[j] == map@[table_index_spec(
                    old(img).pixels@[j][0] as int,
                    0,
                    255,
                    last as int,
                )],
    {
        let v: u8 = img.pixels[k][0];
        let i: usize = v.table_index(0u8, 255u8, last);
        pixels.push(map[i]);
    }
    img.pixels = pixels;
}

/// Samples at the resolved minimum take the first colormap entry and samples
/// at the resolved maximum take the last, whenever the range has contrast.
pub proof fn lemma_extremes_hit_table_ends<T: CastAsUsize>(
    data: Seq<T>,
    cmap: Seq<[u8; 3]>,
    dr: DataRange<T>,
    out: Seq<[u8; 3]>,
    k: int,
)
    requires
        cmap.len() >= 1,
        color_post(data, cmap, dr, out),
        0 <= k < data.len(),
        resolved_lo(data, dr) < resolved_hi(data, dr),
    ensures
        data[k].as_int() == resolved_lo(data, dr) ==> out[k] == cmap[0],
        data[k].as_int() == resolved_hi(data, dr) ==> out[k] == cmap[cmap.len() - 1],
{
    lemma_table_index_at_ends(resolved_lo(data, dr), resolved_hi(data, dr), cmap.len() - 1);
}

/// An automatic range always resolves to bounds that are hit by some sample:
/// the first colormap entry and the last both appear in the raster whenever
/// the samples show any contrast.
pub proof fn lemma_automatic_hits_both_ends<T: CastAsUsize>(
    data: Seq<T>,
    cmap: Seq<[u8; 3]>,
    out: Seq<[u8; 3]>,
)
    requires
        cmap.len() >= 1,
        color_post(data, cmap, DataRange::<T>::Automatic, out),
        data.len() > 0,
        resolved_lo(data, DataRange::<T>::Automatic) < resolved_hi(data, DataRange::<T>::Automatic),
    ensures
        exists|k: int| 0 <= k < out.len() && out[k] == cmap[0],
        exists|k: int| 0 <= k < out.len() && out[k] == cmap[cmap.len() - 1],
{
    let vals = sample_values(data);
    lemma_seq_min_is_element(vals);
    lemma_seq_max_is_element(vals);
    let kmin = choose|k: int| 0 <= k < vals.len() && vals[k] == seq_min(vals);
    let kmax = choose|k: int| 0 <= k < vals.len() && vals[k] == seq_max(vals);
    lemma_extremes_hit_table_ends(data, cmap, DataRange::<T>::Automatic, out, kmin);
    lemma_extremes_hit_table_ends(data, cmap, DataRange::<T>::Automatic, out, kmax);
}

/// The greyscale recoloring is the generic mapper specialized to the byte
/// range: a raster recolored from its red channels equals, pixel for pixel,
/// what `color` returns for those channels under the fixed range `[0, 255]`.
pub proof fn lemma_greyscale_is_color_on_bytes(
    reds: Seq<u8>,
    map: Seq<[u8; 3]>,
    out_g: Seq<[u8; 3]>,
    out_c: Seq<[u8; 3]>,
)
    requires
        map.len() >= 1,
        out_g.len() == reds.len(),
        forall|k: int|
            0 <= k < reds.len() ==> #[trigger] out_g[k] == map[table_index_spec(
                reds[k] as int,
                0,
                255,
                map.len() - 1,
            )],
        color_post(reds, map, DataRange::MinMax(0u8, 255u8), out_c),
    ensures
        out_g == out_c,
{
    assert forall|k: int| 0 <= k < reds.len() implies out_g[k] == out_c[k] by {
        assert(sample_values(reds)[k] == reds[k] as int);
    }
    assert(out_g =~= out_c);
}

/// The raster is a function of the inputs alone: any two rasters that meet
/// `color`'s contract for the same inputs are equal.
pub proof fn lemma_color_deterministic<T: CastAsUsize>(
    data: Seq<T>,
    cmap: Seq<[u8; 3]>,
    dr: DataRange<T>,
    out1: Seq<[u8; 3]>,
    out2: Seq<[u8; 3]>,
)
    requires
        color_post(data, cmap, dr, out1),
        color_post(data, cmap, dr, out2),
    ensures
        out1 == out2,
{
    assert forall|k: int| 0 <= k < out1.len() implies out1[k] == out2[k] by {
        if data.len() > 0 && resolved_lo(data, dr) == resolved_hi(data, dr) {
            assert(is_default_pixel(out1[k]));
            assert(is_default_pixel(out2[k]));
            assert(out1[k] =~= out2[k]);
        }
    }
    assert(out1 =~= out2);
}

} // verus!
