//! The rows of the projections that a test reconstruction runs on.
use crate::stack::Projection;
use vstd::prelude::*;
use vstd::slice::slice_subrange;

verus! {

/// Sinogram rows reconstructed per selected slice: astra reconstructs each
/// row independently, so a single row per line is shipped (a rebinned test
/// run cuts `BAND × n` rows and block-averages them down to `BAND`).
pub const BAND: usize = 1;

/// The n×n rebin factors the test reconstruction can run on (1 = the
/// checkpoint's own resolution).
pub const TEST_REBIN_FACTORS: [usize; 5] = [1, 2, 3, 4, 6];

/// A rebin factor for which a stack of `height` rows still holds a band of
/// `BAND` rebinned slices; a stack without rows counts as one row.
pub open spec fn useful_factor(n: usize, height: usize) -> bool {
    TEST_REBIN_FACTORS@.contains(n) && BAND * n <= (if height > 1 {
        height
    } else {
        1
    })
}

/// The largest useful rebin factor for a stack of `height` rows.
pub open spec fn largest_factor(height: usize) -> usize {
    if height >= 6 {
        6
    } else if height >= 4 {
        4
    } else if height >= 3 {
        3
    } else if height >= 2 {
        2
    } else {
        1
    }
}

/// Largest n×n test-rebin factor that is useful for a stack of `height`
/// rows: the band must still hold [`BAND`] rebinned slices.
pub fn max_test_rebin(height: usize) -> (r: usize)
    ensures
        r == largest_factor(height),
        useful_factor(r, height),
        forall|n: usize| #[trigger] useful_factor(n, height) ==> n <= r,
{
    let rows: usize = if height > 1 {
        height
    } else {
        1
    };
    let mut best: usize = 1;
    let mut i: usize = 0;
    assert(TEST_REBIN_FACTORS@[0] == 1);
    while i < 5
        invariant
            i <= 5,
            rows == (if height > 1 {
                height
            } else {
                1
            }),
            useful_factor(best, height),
            forall|k: int|
                0 <= k < i && BAND * TEST_REBIN_FACTORS@[k] <= rows
                    ==> #[trigger] TEST_REBIN_FACTORS@[k] <= best,
        decreases 5 - i,
    {
        let n: usize = TEST_REBIN_FACTORS[i];
        assert(n == TEST_REBIN_FACTORS@[i as int]);
        assert(n <= 6);
        if BAND * n <= rows && n > best {
            best = n;
        }
        i = i + 1;
    }
    proof {
        let factors = TEST_REBIN_FACTORS@;
        assert(factors[1] == 2 && factors[2] == 3 && factors[3] == 4 && factors[4] == 6);
    }
    best
}

/// How many rows feed a test band: `BAND` at the checkpoint's resolution,
/// `BAND × rebin` when the band is rebinned first.
pub open spec fn band_height(rebin: usize) -> int {
    BAND * (if rebin > 1 {
        rebin
    } else {
        1
    })
}

/// The first row of the band around `line`: half a band above it, moved into
/// the stack where the band would reach past its end.
pub open spec fn band_start(line: usize, height: usize, rebin: usize) -> int {
    let rows = band_height(rebin);
    let above = if line > rows / 2 {
        line - rows / 2
    } else {
        0
    };
    let last = if height > rows {
        height - rows
    } else {
        0
    };
    if above < last {
        above
    } else {
        last
    }
}

/// The rows of one projection feeding a test band around `line`: `BAND`
/// rows at the checkpoint's resolution, `BAND × rebin` rows when the band
/// is rebinned first (so it still holds `BAND` slices afterwards).
pub fn band_rows(line: usize, height: usize, rebin: usize) -> (r: (usize, usize))
    ensures
        r.0 == band_start(line, height, rebin),
        r.1 == band_start(line, height, rebin) + band_height(rebin),
{
    let rows: usize = BAND * (if rebin > 1 {
        rebin
    } else {
        1
    });
    let above: usize = line.saturating_sub(rows / 2);
    let last: usize = height.saturating_sub(rows);
    let start: usize = if above < last {
        above
    } else {
        last
    };
    (start, start + rows)
}

/// The band around a line of the stack holds that line, lies within the
/// stack, and holds `BAND` slices after the rebin.
pub proof fn law_band_holds_its_line(line: usize, height: usize, rebin: usize)
    requires
        line < height,
        1 <= rebin,
        BAND * rebin <= height,
    ensures
        0 <= band_start(line, height, rebin) <= line,
        line < band_start(line, height, rebin) + band_height(rebin) <= height,
        band_height(rebin) == BAND * rebin,
        band_height(rebin) / rebin as int == BAND,
{
    assert(band_height(rebin) == rebin);
    assert(rebin as int / rebin as int == 1) by (nonlinear_arith)
        requires
            rebin >= 1,
    ;
}

/// Without a rebin the band of a line is the line itself.
pub proof fn law_full_resolution_band_is_the_line(line: usize, height: usize)
    requires
        line < height,
    ensures
        band_start(line, height, 1) == line,
        band_height(1) == BAND,
{
}

/// The rows `band.0 .. band.1` lie within the pixels of `p`.
pub open spec fn band_fits<F, P>(p: Projection<F, P>, band: (usize, usize)) -> bool {
    band.0 <= band.1 && band.1 * p.width <= p.mean@.len()
}

/// The pixels of the rows `band.0 .. band.1` of `p`.
pub open spec fn band_values<F, P>(p: Projection<F, P>, band: (usize, usize)) -> Seq<P> {
    p.mean@.subrange(band.0 * p.width, band.1 * p.width)
}

/// `out` is the band of `p` at the test resolution: its pixels as they are,
/// or, for a rebin factor above 1, what `rebin_band` makes of a projection
/// that holds them and has no angle.
pub open spec fn band_gives<F, P, B: Fn(&Projection<F, P>, usize) -> Vec<P>>(
    p: Projection<F, P>,
    band: (usize, usize),
    rebin: usize,
    rebin_band: B,
    out: Seq<P>,
) -> bool {
    if rebin <= 1 {
        out == band_values(p, band)
    } else {
        exists|cut: Projection<F, P>, rebinned: Vec<P>|
            {
                &&& cut.angle_deg is None
                &&& cut.height == band.1 - band.0
                &&& cut.width == p.width
                &&& cut.mean@ == band_values(p, band)
                &&& #[trigger] call_ensures(rebin_band, (&cut, rebin), rebinned)
                &&& out == rebinned@
            }
    }
}

/// `out` is the two bands of `p` at the test resolution, top band first.
pub open spec fn bands_give<F, P, B: Fn(&Projection<F, P>, usize) -> Vec<P>>(
    p: Projection<F, P>,
    bands: [(usize, usize); 2],
    rebin: usize,
    rebin_band: B,
    out: Seq<P>,
) -> bool {
    exists|top: Seq<P>, bottom: Seq<P>|
        {
            &&& #[trigger] band_gives(p, bands@[0], rebin, rebin_band, top)
            &&& #[trigger] band_gives(p, bands@[1], rebin, rebin_band, bottom)
            &&& out == top + bottom
        }
}

/// The values of `more` behind those of `out`.
fn extend<P: Copy>(out: &mut Vec<P>, more: &[P])
    ensures
        final(out)@ == old(out)@ + more@,
{
    let mut i: usize = 0;
    while i < more.len()
        invariant
            i <= more.len(),
            out@ =~= old(out)@ + more@.take(i as int),
        decreases more.len() - i,
    {
        out.push(more[i]);
        assert(more@.take(i + 1) =~= more@.take(i as int).push(more@[i as int]));
        i = i + 1;
    }
    assert(more@.take(i as int) =~= more@);
}

/// One band of a projection, at the test resolution, behind the values of
/// `out`.
fn extract_band<F, P: Copy, B: Fn(&Projection<F, P>, usize) -> Vec<P>>(
    p: &Projection<F, P>,
    band: (usize, usize),
    rebin: usize,
    rebin_band: &B,
    out: &mut Vec<P>,
) -> (added: Ghost<Seq<P>>)
    requires
        band_fits(*p, band),
        rebin > 1 ==> forall|cut: &Projection<F, P>|
            cut.mean@.len() == cut.height * cut.width ==> #[trigger] call_requires(
                *rebin_band,
                (cut, rebin),
            ),
    ensures
        band_gives(*p, band, rebin, *rebin_band, added@),
        final(out)@ == old(out)@ + added@,
{
    let w: usize = p.width;
    let (a, b) = band;
    let total: usize = p.mean.len();
    assert(b * w <= total);
    assert(a * w <= b * w) by (nonlinear_arith)
        requires
            a <= b,
    ;
    let rows = slice_subrange(p.mean, a * w, b * w);
    if rebin <= 1 {
        extend(out, rows);
        Ghost(rows@)
    } else {
        let cut = Projection { angle_deg: None, height: b - a, width: w, mean: rows };
        assert(b * w - a * w == (b - a) * w) by (nonlinear_arith);
        let rebinned = rebin_band(&cut, rebin);
        extend(out, rebinned.as_slice());
        Ghost(rebinned@)
    }
}

/// The two test bands of one projection, stacked (top band first), at the
/// test resolution: cut out of the full projection and, for a rebin factor
/// above 1, block-averaged n×n by `rebin_band`.
pub fn extract_bands<F, P: Copy, B: Fn(&Projection<F, P>, usize) -> Vec<P>>(
    p: &Projection<F, P>,
    bands: [(usize, usize); 2],
    rebin: usize,
    rebin_band: &B,
) -> (r: Vec<P>)
    requires
        band_fits(*p, bands@[0]),
        band_fits(*p, bands@[1]),
        rebin > 1 ==> forall|cut: &Projection<F, P>|
            cut.mean@.len() == cut.height * cut.width ==> #[trigger] call_requires(
                *rebin_band,
                (cut, rebin),
            ),
    ensures
        bands_give(*p, bands, rebin, *rebin_band, r@),
{
    let mut out: Vec<P> = Vec::new();
    let top = extract_band(p, bands[0], rebin, rebin_band, &mut out);
    let bottom = extract_band(p, bands[1], rebin, rebin_band, &mut out);
    assert(out@ =~= top@ + bottom@);
    out
}

/// The parts, one behind the other.
pub open spec fn stacked<P>(parts: Seq<Seq<P>>) -> Seq<P>
    decreases parts.len(),
{
    if parts.len() == 0 {
        seq![]
    } else {
        stacked(parts.drop_last()) + parts.last()
    }
}

/// `out` is the two bands of every projection at the test resolution, one
/// projection behind the other.
pub open spec fn volume_gives<F, P, B: Fn(&Projection<F, P>, usize) -> Vec<P>>(
    sample: Seq<Projection<F, P>>,
    bands: [(usize, usize); 2],
    rebin: usize,
    rebin_band: B,
    out: Seq<P>,
) -> bool {
    exists|parts: Seq<Seq<P>>|
        {
            &&& parts.len() == sample.len()
            &&& forall|i: int|
                0 <= i < sample.len() ==> bands_give(
                    sample[i],
                    bands,
                    rebin,
                    rebin_band,
                    #[trigger] parts[i],
                )
            &&& out == #[trigger] stacked(parts)
        }
}

/// The test bands of every projection, one projection behind the other: the
/// sinograms that the test reconstruction runs on.
pub fn extract_volume<F, P: Copy, B: Fn(&Projection<F, P>, usize) -> Vec<P>>(
    sample: &Vec<Projection<F, P>>,
    bands: [(usize, usize); 2],
    rebin: usize,
    rebin_band: &B,
) -> (r: Vec<P>)
    requires
        forall|i: int|
            0 <= i < sample.len() ==> band_fits(#[trigger] sample[i], bands@[0]) && band_fits(
                sample[i],
                bands@[1],
            ),
        rebin > 1 ==> forall|cut: &Projection<F, P>|
            cut.mean@.len() == cut.height * cut.width ==> #[trigger] call_requires(
                *rebin_band,
                (cut, rebin),
            ),
    ensures
        volume_gives(sample@, bands, rebin, *rebin_band, r@),
{
    let mut volume: Vec<P> = Vec::new();
    let ghost mut parts: Seq<Seq<P>> = seq![];
    let mut i: usize = 0;
    while i < sample.len()
        invariant
            i <= sample.len(),
            forall|k: int|
                0 <= k < sample.len() ==> band_fits(#[trigger] sample[k], bands@[0]) && band_fits(
                    sample[k],
                    bands@[1],
                ),
            rebin > 1 ==> forall|cut: &Projection<F, P>|
                cut.mean@.len() == cut.height * cut.width ==> #[trigger] call_requires(
                    *rebin_band,
                    (cut, rebin),
                ),
            parts.len() == i,
            forall|k: int|
                0 <= k < i ==> bands_give(
                    sample[k],
                    bands,
                    rebin,
                    *rebin_band,
                    #[trigger] parts[k],
                ),
            volume@ == stacked(parts),
        decreases sample.len() - i,
    {
        let part = extract_bands(&sample[i], bands, rebin, rebin_band);
        extend(&mut volume, part.as_slice());
        proof {
            let longer = parts.push(part@);
            assert(longer.drop_last() =~= parts);
            parts = longer;
        }
        i = i + 1;
    }
    assert(forall|k: int| 0 <= k < sample.len() ==> #[trigger] sample@[k] == sample[k]);
    volume
}

/// `rebin_band` makes the same values of any two projections that are alike.
pub open spec fn rebins_repeatably<F, P, B: Fn(&Projection<F, P>, usize) -> Vec<P>>(
    rebin_band: B,
) -> bool {
    forall|a: Projection<F, P>, b: Projection<F, P>, n: usize, x: Vec<P>, y: Vec<P>|
        #[trigger] call_ensures(rebin_band, (&a, n), x) && #[trigger] call_ensures(
            rebin_band,
            (&b, n),
            y,
        ) && a.angle_deg == b.angle_deg && a.height == b.height && a.width == b.width && a.mean@
            == b.mean@ ==> x@ == y@
}

/// The same bands of the same projections make one volume, where rebinning a
/// band is repeatable.
pub proof fn law_volume_is_repeatable<F, P, B: Fn(&Projection<F, P>, usize) -> Vec<P>>(
    sample: Seq<Projection<F, P>>,
    bands: [(usize, usize); 2],
    same_bands: [(usize, usize); 2],
    rebin: usize,
    rebin_band: B,
    out: Seq<P>,
    again: Seq<P>,
)
    requires
        bands@ == same_bands@,
        rebins_repeatably(rebin_band),
        volume_gives(sample, bands, rebin, rebin_band, out),
        volume_gives(sample, same_bands, rebin, rebin_band, again),
    ensures
        out == again,
{
    let parts = choose|parts: Seq<Seq<P>>|
        {
            &&& parts.len() == sample.len()
            &&& forall|i: int|
                0 <= i < sample.len() ==> bands_give(
                    sample[i],
                    bands,
                    rebin,
                    rebin_band,
                    #[trigger] parts[i],
                )
            &&& out == #[trigger] stacked(parts)
        };
    let same_parts = choose|parts: Seq<Seq<P>>|
        {
            &&& parts.len() == sample.len()
            &&& forall|i: int|
                0 <= i < sample.len() ==> bands_give(
                    sample[i],
                    same_bands,
                    rebin,
                    rebin_band,
                    #[trigger] parts[i],
                )
            &&& again == #[trigger] stacked(parts)
        };
    assert forall|i: int| 0 <= i < sample.len() implies #[trigger] parts[i] == same_parts[i] by {
        assert(bands_give(sample[i], bands, rebin, rebin_band, parts[i]));
        assert(bands_give(sample[i], same_bands, rebin, rebin_band, same_parts[i]));
    }
    assert(parts =~= same_parts);
}

/// Parts of one length make a volume of that many values each, and the volume
/// cut into pieces of that length gives the parts again, in order.
pub proof fn law_volume_is_cut_back_into_parts<P>(parts: Seq<Seq<P>>, len: nat, i: int)
    requires
        forall|k: int| 0 <= k < parts.len() ==> (#[trigger] parts[k]).len() == len,
        0 <= i < parts.len(),
    ensures
        stacked(parts).len() == parts.len() * len,
        0 <= i * len <= (i + 1) * len <= stacked(parts).len(),
        stacked(parts).subrange(i * len, (i + 1) * len) == parts[i],
    decreases parts.len(),
{
    let init = parts.drop_last();
    let n = parts.len() as int;
    lemma_stacked_len(init, len);
    lemma_stacked_len(parts, len);
    assert(0 <= i * len && i * len + len == (i + 1) * len && (i + 1) * len <= n * len && (n - 1)
        * len + len == n * len) by (nonlinear_arith)
        requires
            0 <= i < n,
            len >= 0,
    ;
    if i == n - 1 {
        assert(stacked(parts).subrange(i * len, (i + 1) * len) =~= parts[i]);
    } else {
        law_volume_is_cut_back_into_parts(init, len, i);
        assert(stacked(parts).subrange(i * len, (i + 1) * len) =~= stacked(init).subrange(
            i * len,
            (i + 1) * len,
        ));
        assert(init[i] == parts[i]);
    }
}

proof fn lemma_stacked_len<P>(parts: Seq<Seq<P>>, len: nat)
    requires
        forall|k: int| 0 <= k < parts.len() ==> (#[trigger] parts[k]).len() == len,
    ensures
        stacked(parts).len() == parts.len() * len,
    decreases parts.len(),
{
    if parts.len() > 0 {
        assert forall|k: int| 0 <= k < parts.drop_last().len() implies (
        #[trigger] parts.drop_last()[k]).len() == len by {
            assert(parts.drop_last()[k] == parts[k]);
        }
        lemma_stacked_len(parts.drop_last(), len);
        assert((parts.len() - 1) * len + len == parts.len() * len) by (nonlinear_arith);
    }
}

/// The shape of the sinograms of a test run: for every projection the rows of
/// the two bands, each `width` values wide.
pub fn sinogram_shape(projections: usize, width: usize) -> (r: [usize; 3])
    ensures
        r@ == seq![projections, (2 * BAND) as usize, width],
{
    let r = [projections, 2 * BAND, width];
    assert(r@ =~= seq![projections, (2 * BAND) as usize, width]);
    r
}

/// How many values of the sinograms belong to one projection.
pub fn sinogram_block(width: usize) -> (r: usize)
    requires
        2 * BAND * width <= usize::MAX,
    ensures
        r == 2 * BAND * width,
{
    2 * BAND * width
}

/// A band of rows `full` values wide comes out `width` values wide: as wide as
/// it is at full resolution, and else what `rebin_band` makes of it.
pub open spec fn rebins_to_width<F, P, B: Fn(&Projection<F, P>, usize) -> Vec<P>>(
    rebin_band: B,
    full: usize,
    rebin: usize,
    width: usize,
) -> bool {
    if rebin <= 1 {
        width == full
    } else {
        forall|cut: Projection<F, P>, rebinned: Vec<P>| #[trigger]
            call_ensures(rebin_band, (&cut, rebin), rebinned) && cut.height == band_height(rebin)
                && cut.width == full && cut.mean@.len() == cut.height * cut.width
                ==> rebinned@.len() == BAND * width
    }
}

/// The values of the sinograms that belong to the projection at place `i`.
pub open spec fn sinogram_of<P>(out: Seq<P>, i: int, width: usize) -> Seq<P> {
    out.subrange(i * (2 * BAND * width), (i + 1) * (2 * BAND * width))
}

/// One band has as many values as its rows at the test resolution.
proof fn lemma_band_len<F, P, B: Fn(&Projection<F, P>, usize) -> Vec<P>>(
    p: Projection<F, P>,
    band: (usize, usize),
    rebin: usize,
    rebin_band: B,
    width: usize,
    out: Seq<P>,
)
    requires
        band_fits(p, band),
        band.1 - band.0 == band_height(rebin),
        rebins_to_width(rebin_band, p.width, rebin, width),
        band_gives(p, band, rebin, rebin_band, out),
    ensures
        out.len() == BAND * width,
{
    let (a, b) = (band.0 as int, band.1 as int);
    let w = p.width as int;
    assert(0 <= a * w <= b * w && b * w - a * w == (b - a) * w) by (nonlinear_arith)
        requires
            0 <= a <= b,
            w >= 0,
    ;
    if rebin <= 1 {
        assert((b - a) * w == BAND * width) by (nonlinear_arith)
            requires
                b - a == BAND,
                w == width,
        ;
    }
}

/// The sinograms fill their shape, and in order: where the projections are
/// equally wide, they hold `2 × BAND × width` values for every projection, and
/// those at the place of a projection are what `extract_bands` gives for it.
pub proof fn law_sinograms_fill_their_shape<F, P, B: Fn(&Projection<F, P>, usize) -> Vec<P>>(
    sample: Seq<Projection<F, P>>,
    bands: [(usize, usize); 2],
    rebin: usize,
    rebin_band: B,
    full: usize,
    width: usize,
    out: Seq<P>,
    i: int,
)
    requires
        forall|k: int|
            0 <= k < sample.len() ==> (#[trigger] sample[k]).width == full && band_fits(
                sample[k],
                bands@[0],
            ) && band_fits(sample[k], bands@[1]),
        bands@[0].1 - bands@[0].0 == band_height(rebin),
        bands@[1].1 - bands@[1].0 == band_height(rebin),
        rebins_to_width(rebin_band, full, rebin, width),
        volume_gives(sample, bands, rebin, rebin_band, out),
    ensures
        out.len() == sample.len() * (2 * BAND) * width,
        0 <= i < sample.len() ==> bands_give(
            sample[i],
            bands,
            rebin,
            rebin_band,
            sinogram_of(out, i, width),
        ),
{
    let len = (2 * BAND * width) as nat;
    let parts = choose|parts: Seq<Seq<P>>|
        {
            &&& parts.len() == sample.len()
            &&& forall|i: int|
                0 <= i < sample.len() ==> bands_give(
                    sample[i],
                    bands,
                    rebin,
                    rebin_band,
                    #[trigger] parts[i],
                )
            &&& out == #[trigger] stacked(parts)
        };
    assert forall|k: int| 0 <= k < parts.len() implies (#[trigger] parts[k]).len() == len by {
        let p = sample[k];
        assert(bands_give(p, bands, rebin, rebin_band, parts[k]));
        let (top, bottom) = choose|top: Seq<P>, bottom: Seq<P>|
            {
                &&& #[trigger] band_gives(p, bands@[0], rebin, rebin_band, top)
                &&& #[trigger] band_gives(p, bands@[1], rebin, rebin_band, bottom)
                &&& parts[k] == top + bottom
            };
        lemma_band_len(p, bands@[0], rebin, rebin_band, width, top);
        lemma_band_len(p, bands@[1], rebin, rebin_band, width, bottom);
        assert(BAND * width + BAND * width == 2 * BAND * width) by (nonlinear_arith);
    }
    lemma_stacked_len(parts, len);
    assert(parts.len() * len == sample.len() * (2 * BAND) * width) by (nonlinear_arith)
        requires
            parts.len() == sample.len(),
            len == 2 * BAND * width,
    ;
    if 0 <= i < sample.len() {
        law_volume_is_cut_back_into_parts(parts, len, i);
        assert(bands_give(sample[i], bands, rebin, rebin_band, parts[i]));
    }
}

/// The bands of a full-resolution test run hold each line's row as it is: the
/// rows verbatim, `2 × BAND × width` values per projection.
pub proof fn law_full_resolution_bands_are_the_lines<
    F,
    P,
    B: Fn(&Projection<F, P>, usize) -> Vec<P>,
>(
    p: Projection<F, P>,
    top: usize,
    bottom: usize,
    bands: [(usize, usize); 2],
    rebin_band: B,
    out: Seq<P>,
)
    requires
        p.height * p.width == p.mean@.len(),
        top < p.height,
        bottom < p.height,
        bands@[0].0 == band_start(top, p.height, 1),
        bands@[0].1 == band_start(top, p.height, 1) + band_height(1),
        bands@[1].0 == band_start(bottom, p.height, 1),
        bands@[1].1 == band_start(bottom, p.height, 1) + band_height(1),
        bands_give(p, bands, 1, rebin_band, out),
    ensures
        out == p.mean@.subrange(top * p.width, (top + 1) * p.width) + p.mean@.subrange(
            bottom * p.width,
            (bottom + 1) * p.width,
        ),
        out.len() == 2 * BAND * p.width,
{
    let w = p.width as int;
    let h = p.height as int;
    assert(0 <= top * w && top * w + w == (top + 1) * w && (top + 1) * w <= h * w)
        by (nonlinear_arith)
        requires
            0 <= top < h,
            w >= 0,
    ;
    assert(0 <= bottom * w && bottom * w + w == (bottom + 1) * w && (bottom + 1) * w <= h * w)
        by (nonlinear_arith)
        requires
            0 <= bottom < h,
            w >= 0,
    ;
    assert(out.len() == w + w);
    assert(2 * BAND * p.width == w + w) by (nonlinear_arith)
        requires
            w == p.width,
            BAND == 1,
    ;
}

/// A test run takes one row for every line, at full resolution or at
/// two, three, four or six pixels to one each way.
pub proof fn law_test_resolutions()
    ensures
        BAND == 1,
        TEST_REBIN_FACTORS@ == seq![1usize, 2, 3, 4, 6],
{
    assert(TEST_REBIN_FACTORS@ =~= seq![1usize, 2, 3, 4, 6]);
}

/// The largest test factor is one of the factors that are offered, fits the rows
/// of the stack (or is 1), and no offered factor that fits is larger.
pub proof fn law_largest_factor_fits_the_rows(height: usize, r: usize, n: usize)
    requires
        call_ensures(max_test_rebin, (height,), r),
    ensures
        r == 1 || r == 2 || r == 3 || r == 4 || r == 6,
        r == 1 || r <= height,
        (n == 1 || n == 2 || n == 3 || n == 4 || n == 6) && (n == 1 || n <= height) ==> n <= r,
{
}

/// The band around a line has as many rows as are rebinned into one, the line in
/// its middle. Where that would reach past an end of the stack the band is moved
/// to that end, and it starts at the first row where the stack has too few.
pub proof fn law_band_is_centered_on_its_line(
    line: usize,
    height: usize,
    rebin: usize,
    r: (usize, usize),
)
    requires
        call_ensures(band_rows, (line, height, rebin), r),
    ensures
        ({
            let rows: int = if rebin > 1 {
                rebin as int
            } else {
                1
            };
            &&& r.1 - r.0 == rows
            &&& 0 <= line - rows / 2 <= height - rows ==> r.0 == line - rows / 2
            &&& line < rows / 2 ==> r.0 == 0
            &&& height <= rows ==> r.0 == 0
            &&& 0 <= height - rows < line - rows / 2 ==> r.1 == height
        }),
{
}

/// The bands of a projection are its own rows, the first band before the second:
/// as they are at full resolution, and else each what `rebin_band` makes, by that
/// factor, of a projection with those rows and no angle.
pub proof fn law_bands_are_cut_out_of_the_projection<
    F,
    P: Copy,
    B: Fn(&Projection<F, P>, usize) -> Vec<P>,
>(p: &Projection<F, P>, bands: [(usize, usize); 2], rebin: usize, rebin_band: B, out: Vec<P>)
    requires
        call_ensures(extract_bands::<F, P, B>, (p, bands, rebin, &rebin_band), out),
    ensures
        rebin <= 1 ==> out@ == p.mean@.subrange(
            bands@[0].0 * p.width,
            bands@[0].1 * p.width,
        ) + p.mean@.subrange(bands@[1].0 * p.width, bands@[1].1 * p.width),
        rebin > 1 ==> exists|
            first: Projection<F, P>,
            second: Projection<F, P>,
            top: Vec<P>,
            bottom: Vec<P>,
        |
            {
                &&& #[trigger] call_ensures(rebin_band, (&first, rebin), top)
                &&& #[trigger] call_ensures(rebin_band, (&second, rebin), bottom)
                &&& first.mean@ == p.mean@.subrange(
                    bands@[0].0 * p.width,
                    bands@[0].1 * p.width,
                )
                &&& second.mean@ == p.mean@.subrange(
                    bands@[1].0 * p.width,
                    bands@[1].1 * p.width,
                )
                &&& first.height == bands@[0].1 - bands@[0].0
                &&& second.height == bands@[1].1 - bands@[1].0
                &&& first.width == p.width && second.width == p.width
                &&& first.angle_deg is None && second.angle_deg is None
                &&& out@ == top@ + bottom@
            },
{
    let (top, bottom) = choose|top: Seq<P>, bottom: Seq<P>|
        {
            &&& #[trigger] band_gives(*p, bands@[0], rebin, rebin_band, top)
            &&& #[trigger] band_gives(*p, bands@[1], rebin, rebin_band, bottom)
            &&& out@ == top + bottom
        };
    assert(band_gives(*p, bands@[0], rebin, rebin_band, top));
    assert(band_gives(*p, bands@[1], rebin, rebin_band, bottom));
}

/// Parts that are stacked come one behind the other.
proof fn lemma_stacked_is_flat<P>(parts: Seq<Seq<P>>)
    ensures
        stacked(parts) == parts.flatten(),
    decreases parts.len(),
{
    parts.lemma_flatten_and_flatten_alt_are_equivalent();
    if parts.len() > 0 {
        lemma_stacked_is_flat(parts.drop_last());
        parts.drop_last().lemma_flatten_and_flatten_alt_are_equivalent();
    }
}

/// The sinograms are the bands of the projections, projection by projection in
/// the order of the stack.
pub proof fn law_sinograms_hold_every_projection_in_order<
    F,
    P: Copy,
    B: Fn(&Projection<F, P>, usize) -> Vec<P>,
>(
    sample: Vec<Projection<F, P>>,
    bands: [(usize, usize); 2],
    rebin: usize,
    rebin_band: B,
    out: Vec<P>,
)
    requires
        call_ensures(extract_volume::<F, P, B>, (&sample, bands, rebin, &rebin_band), out),
    ensures
        exists|parts: Seq<Seq<P>>|
            {
                &&& parts.len() == sample@.len()
                &&& forall|i: int|
                    0 <= i < sample@.len() ==> bands_give(
                        sample@[i],
                        bands,
                        rebin,
                        rebin_band,
                        #[trigger] parts[i],
                    )
                &&& out@ == #[trigger] parts.flatten()
            },
{
    let parts = choose|parts: Seq<Seq<P>>|
        {
            &&& parts.len() == sample@.len()
            &&& forall|i: int|
                0 <= i < sample@.len() ==> bands_give(
                    sample@[i],
                    bands,
                    rebin,
                    rebin_band,
                    #[trigger] parts[i],
                )
            &&& out@ == #[trigger] stacked(parts)
        };
    lemma_stacked_is_flat(parts);
}

/// At full resolution every value of the sinograms is the pixel of its projection
/// in its band's row and in its column.
pub proof fn law_full_resolution_sinogram_is_made_of_pixels<
    F,
    P: Copy,
    B: Fn(&Projection<F, P>, usize) -> Vec<P>,
>(
    sample: Vec<Projection<F, P>>,
    bands: [(usize, usize); 2],
    rebin_band: B,
    width: usize,
    out: Vec<P>,
    i: int,
    band: int,
    column: int,
)
    requires
        call_ensures(extract_volume::<F, P, B>, (&sample, bands, 1, &rebin_band), out),
        forall|k: int|
            0 <= k < sample@.len() ==> (#[trigger] sample@[k]).width == width && band_fits(
                sample@[k],
                bands@[0],
            ) && band_fits(sample@[k], bands@[1]),
        bands@[0].1 == bands@[0].0 + 1,
        bands@[1].1 == bands@[1].0 + 1,
        0 <= i < sample@.len(),
        band == 0 || band == 1,
        0 <= column < width,
    ensures
        out@.len() == sample@.len() * 2 * width,
        out@[(2 * i + band) * width + column] == sample@[i].mean@[bands@[band].0 * width + column],
{
    law_sinograms_fill_their_shape(sample@, bands, 1, rebin_band, width, width, out@, i);
    let p = sample@[i];
    let block = sinogram_of(out@, i, width);
    let w = width as int;
    let n = sample@.len() as int;
    let (top, bottom) = choose|top: Seq<P>, bottom: Seq<P>|
        {
            &&& #[trigger] band_gives(p, bands@[0], 1, rebin_band, top)
            &&& #[trigger] band_gives(p, bands@[1], 1, rebin_band, bottom)
            &&& block == top + bottom
        };
    let (a, b) = (bands@[0].0 as int, bands@[1].0 as int);
    assert((a + 1) * w == a * w + w && (b + 1) * w == b * w + w && 0 <= a * w && 0 <= b * w)
        by (nonlinear_arith)
        requires
            0 <= a,
            0 <= b,
            0 <= w,
    ;
    assert(top.len() == w && bottom.len() == w);
    assert(i * (2 * BAND * width) == 2 * i * w && (i + 1) * (2 * BAND * width) == 2 * i * w + 2 * w
        && (2 * i + band) * w == 2 * i * w + band * w && 0 <= 2 * i * w && n * (2 * BAND) * width
        == n * 2 * w && 2 * i * w + 2 * w <= n * 2 * w) by (nonlinear_arith)
        requires
            0 <= i < n,
            w == width,
            BAND == 1,
    ;
    assert(band * w == (if band == 0 {
        0
    } else {
        w
    })) by (nonlinear_arith)
        requires
            band == 0 || band == 1,
    ;
    assert(block[band * w + column] == out@[2 * i * w + (band * w + column)]);
}

/// The sinograms have the shape of the projections, two rows for each, and the
/// width, and the two rows together are the values of one projection.
pub proof fn law_two_rows_for_every_projection(
    projections: usize,
    width: usize,
    shape: [usize; 3],
    block: usize,
)
    requires
        call_ensures(sinogram_shape, (projections, width), shape),
        call_ensures(sinogram_block, (width,), block),
    ensures
        shape@[0] == projections,
        shape@[1] == 2,
        shape@[2] == width,
        block == 2 * width,
        block == shape@[1] * shape@[2],
{
}

} // verus!
