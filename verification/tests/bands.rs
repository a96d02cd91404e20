//! The rows a test reconstruction runs on.
use astra_optimizer::bands::{
    band_rows, extract_bands, extract_volume, max_test_rebin, sinogram_block, sinogram_shape, BAND,
    TEST_REBIN_FACTORS,
};
use astra_optimizer::stack::Projection;

/// The n×n block mean of a projection.
fn block_mean(p: &Projection<f64, f32>, n: usize) -> Vec<f32> {
    let mut out = Vec::new();
    for row in 0..p.height / n {
        for column in 0..p.width / n {
            let mut sum = 0.0;
            for y in 0..n {
                for x in 0..n {
                    sum += p.mean[(row * n + y) * p.width + column * n + x];
                }
            }
            out.push(sum / (n * n) as f32);
        }
    }
    out
}

#[test]
fn band_rows_hold_band_slices_after_rebin() {
    // 2x2: 2 rows around row 100 -> rebinned to one slice.
    assert_eq!(band_rows(100, 2048, 2), (99, 101));
    assert_eq!(band_rows(100, 2048, 4), (98, 102));
    // Full resolution: the row itself.
    assert_eq!(band_rows(100, 2048, 1), (100, 101));
    // Clamped at the edges.
    assert_eq!(band_rows(0, 2048, 3), (0, 3));
    assert_eq!(band_rows(2047, 2048, 1), (2047, 2048));
    assert_eq!(band_rows(2047, 2048, 6), (2042, 2048));
    // Tiny stacks limit the useful factor.
    assert_eq!(max_test_rebin(5), 4);
    assert_eq!(max_test_rebin(2), 2);
    assert_eq!(max_test_rebin(1), 1);
    assert_eq!(max_test_rebin(2048), 6);
}

#[test]
fn extract_bands_rebins_each_band() {
    // 4 px wide, 8 rows: row r holds the value r everywhere.
    let mut mean = Vec::new();
    for r in 0..8 {
        mean.extend(std::iter::repeat_n(r as f32, 4));
    }
    let p = Projection { angle_deg: Some(0.0), height: 8, width: 4, mean: &mean };
    // Full resolution: the rows verbatim.
    let full = extract_bands(&p, [(0, 1), (6, 7)], 1, &block_mean);
    assert_eq!(full, vec![0.0, 0.0, 0.0, 0.0, 6.0, 6.0, 6.0, 6.0]);
    // 2x2: rows (0,1) -> 0.5, rows (4,5) -> 4.5; 2 px wide.
    let reb = extract_bands(&p, [(0, 2), (4, 6)], 2, &block_mean);
    assert_eq!(reb, vec![0.5, 0.5, 4.5, 4.5]);
    // 4x4: rows 0..4 -> 1.5; 1 px wide.
    let reb = extract_bands(&p, [(0, 4), (4, 8)], 4, &block_mean);
    assert_eq!(reb, vec![1.5, 5.5]);
}

#[test]
fn rebin_factors_by_height() {
    let expected = [1, 1, 2, 3, 4, 4, 6, 6];
    for (height, factor) in expected.iter().enumerate() {
        assert_eq!(max_test_rebin(height), *factor);
    }
    assert_eq!(max_test_rebin(usize::MAX), 6);
    assert!(TEST_REBIN_FACTORS.contains(&max_test_rebin(10)));
}

#[test]
fn band_holds_its_line() {
    for height in 1..20 {
        for line in 0..height {
            for rebin in 1..=height {
                let (a, b) = band_rows(line, height, rebin);
                assert!(a <= line && line < b && b <= height);
                assert_eq!((b - a) / rebin, BAND);
            }
        }
    }
}

#[test]
fn bands_past_the_stack() {
    // A factor of zero counts as one, and a band higher than the stack starts
    // at its first row.
    assert_eq!(band_rows(5, 10, 0), (5, 6));
    assert_eq!(band_rows(3, 4, 9), (0, 9));
    assert_eq!(band_rows(usize::MAX, 10, 2), (8, 10));
    assert_eq!(band_rows(usize::MAX, usize::MAX, usize::MAX), (0, usize::MAX));
}

#[test]
fn volume_stacks_the_projections() {
    let a = [1.0f32, 2.0, 3.0, 4.0];
    let b = [5.0f32, 6.0, 7.0, 8.0];
    let sample = vec![
        Projection { angle_deg: Some(0.0), height: 2, width: 2, mean: &a },
        Projection { angle_deg: Some(90.0), height: 2, width: 2, mean: &b },
    ];
    let volume = extract_volume(&sample, [(1, 2), (0, 1)], 1, &block_mean);
    assert_eq!(volume, vec![3.0, 4.0, 1.0, 2.0, 7.0, 8.0, 5.0, 6.0]);
    let chunks: Vec<&[f32]> = volume.chunks(2 * BAND * 2).collect();
    assert_eq!(chunks[1], [7.0, 8.0, 5.0, 6.0]);
    let rebinned = extract_volume(&sample, [(0, 2), (0, 2)], 2, &block_mean);
    assert_eq!(rebinned, vec![2.5, 2.5, 6.5, 6.5]);
}

#[test]
fn a_cut_band_is_a_projection_of_its_own() {
    let mean = [1u8, 2, 3, 4, 5, 6];
    let p = Projection { angle_deg: Some(30), height: 3, width: 2, mean: &mean };
    let seen = |cut: &Projection<i32, u8>, n: usize| {
        assert_eq!((cut.angle_deg, cut.height, cut.width, n), (None, 2, 2, 2));
        cut.mean.to_vec()
    };
    assert_eq!(extract_bands(&p, [(1, 3), (0, 2)], 2, &seen), vec![3, 4, 5, 6, 1, 2, 3, 4]);
}

#[test]
fn sinograms_fill_their_shape() {
    assert_eq!(sinogram_shape(3, 5), [3, 2, 5]);
    assert_eq!(sinogram_block(5), 10);
    let pixels: Vec<f32> = (0..72).map(|v| v as f32).collect();
    let sample: Vec<Projection<f64, f32>> = pixels
        .chunks(24)
        .map(|mean| Projection { angle_deg: Some(0.0), height: 4, width: 6, mean })
        .collect();
    for (rebin, width) in [(1, 6), (2, 3)] {
        let bands = [band_rows(0, 4, rebin), band_rows(3, 4, rebin)];
        let volume = extract_volume(&sample, bands, rebin, &block_mean);
        assert_eq!(volume.len(), sinogram_shape(3, width).iter().product::<usize>());
        for (p, block) in sample.iter().zip(volume.chunks(sinogram_block(width))) {
            assert_eq!(block, extract_bands(p, bands, rebin, &block_mean));
        }
    }
}

#[test]
fn full_resolution_bands_are_not_rebinned() {
    let mean = [1.0f32, 2.0, 3.0, 4.0];
    let p = Projection { angle_deg: Some(0.0), height: 2, width: 2, mean: &mean };
    let unused = |_: &Projection<f64, f32>, _: usize| -> Vec<f32> { unreachable!() };
    assert_eq!(extract_bands(&p, [(1, 2), (0, 1)], 1, &unused), [3.0, 4.0, 1.0, 2.0]);
}
