use cooler_couleur::image::{color, color_greyscale, CastAsUsize, ColorRegression, DataRange, Raster};

fn black() -> [u8; 3] {
    [0, 0, 0]
}

#[test]
fn explicit_full_range_two_entries() {
    // width=2, height=1, samples [0, 255], two-entry colormap, explicit range:
    // the minimum takes the first entry, the maximum the last.
    let samples: Vec<u8> = vec![0, 255];
    let cmap: Vec<[u8; 3]> = vec![[0, 0, 0], [255, 255, 255]];
    let img = color(2, 1, &samples, &cmap, DataRange::MinMax(0, 255));
    assert_eq!(img.width, 2);
    assert_eq!(img.height, 1);
    assert_eq!(img.pixels, vec![[0, 0, 0], [255, 255, 255]]);
}

#[test]
fn automatic_single_sample_is_degenerate() {
    // One sample: the automatic range resolves to min == max, so the raster
    // stays at the default color whatever the colormap holds.
    let samples: Vec<u8> = vec![42];
    let cmap: Vec<[u8; 3]> = vec![[10, 20, 30], [40, 50, 60], [70, 80, 90]];
    let img = color(1, 1, &samples, &cmap, DataRange::Automatic);
    assert_eq!(img.pixels, vec![black()]);
}

#[test]
fn empty_buffer_keeps_dimensions() {
    let samples: Vec<u8> = Vec::new();
    let cmap: Vec<[u8; 3]> = vec![[1, 2, 3]];
    let img = color(0, 0, &samples, &cmap, DataRange::Automatic);
    assert_eq!(img.width, 0);
    assert_eq!(img.height, 0);
    assert_eq!(img.pixels.len(), 0);

    let img = color(5, 0, &samples, &cmap, DataRange::MinMax(3, 9));
    assert_eq!(img.width, 5);
    assert_eq!(img.height, 0);
    assert_eq!(img.pixels.len(), 0);
}

#[test]
fn all_equal_samples_give_default_raster() {
    let samples: Vec<u16> = vec![7, 7, 7, 7, 7, 7];
    let cmap: Vec<[u8; 3]> = vec![[11, 22, 33], [44, 55, 66]];

    let auto = color(3, 2, &samples, &cmap, DataRange::Automatic);
    assert_eq!(auto.pixels, vec![black(); 6]);

    let explicit = color(3, 2, &samples, &cmap, DataRange::MinMax(7, 7));
    assert_eq!(explicit.pixels, vec![black(); 6]);
}

#[test]
fn repeated_call_gives_identical_raster() {
    let samples: Vec<u32> = vec![5, 80, 13, 999, 255, 5];
    let cmap: Vec<[u8; 3]> = vec![[0, 0, 0], [10, 10, 10], [20, 20, 20], [30, 30, 30]];
    let first = color(2, 3, &samples, &cmap, DataRange::Automatic);
    let second = color(2, 3, &samples, &cmap, DataRange::Automatic);
    assert_eq!(first.pixels, second.pixels);
    assert_eq!(first.width, second.width);
    assert_eq!(first.height, second.height);
}

#[test]
fn extremes_take_first_and_last_entry() {
    // Under an automatic range with contrast, every pixel whose sample is the
    // global minimum takes entry 0 and every maximum takes the last entry.
    let samples: Vec<u8> = vec![30, 10, 20, 30, 10];
    let cmap: Vec<[u8; 3]> = vec![[1, 1, 1], [2, 2, 2], [3, 3, 3]];
    let img = color(5, 1, &samples, &cmap, DataRange::Automatic);
    assert_eq!(img.pixels[1], [1, 1, 1]);
    assert_eq!(img.pixels[4], [1, 1, 1]);
    assert_eq!(img.pixels[0], [3, 3, 3]);
    assert_eq!(img.pixels[3], [3, 3, 3]);
}

#[test]
fn rescaled_indexes_truncate() {
    // lo=0, hi=1000, 11 entries: the index is v * 10 / 1000, truncated.
    let samples: Vec<u16> = vec![0, 250, 500, 750, 999, 1000];
    let mut cmap: Vec<[u8; 3]> = Vec::new();
    for i in 0..11u8 {
        cmap.push([i, i, i]);
    }
    let img = color(6, 1, &samples, &cmap, DataRange::MinMax(0, 1000));
    let got: Vec<u8> = img.pixels.iter().map(|p| p[0]).collect();
    assert_eq!(got, vec![0, 2, 5, 7, 9, 10]);
}

#[test]
fn index_never_reaches_colormap_length() {
    // Sweep ranges, colormap lengths and sample kinds, always including the
    // exact maximum: every pixel must come from the colormap, and the
    // maximum must take the last entry, never one past the end.
    for len in 1..40usize {
        let mut cmap: Vec<[u8; 3]> = Vec::new();
        for i in 0..len {
            cmap.push([i as u8, (i / 2) as u8, 7]);
        }
        for &(lo, hi) in &[(0u32, 1u32), (0, 255), (3, 9), (100, 100_000), (0, u32::MAX)] {
            let mid = lo + (hi - lo) / 2;
            let samples: Vec<u32> = vec![lo, mid, hi, hi, lo];
            let img = color(5, 1, &samples, &cmap, DataRange::MinMax(lo, hi));
            for p in &img.pixels {
                assert!(cmap.contains(p));
            }
            assert_eq!(img.pixels[2], cmap[len - 1]);
            assert_eq!(img.pixels[0], cmap[0]);
        }
    }
    for &hi in &[1u8, 2, 100, 255] {
        let samples: Vec<u8> = vec![0, hi / 2, hi];
        let cmap: Vec<[u8; 3]> = vec![[1, 2, 3], [4, 5, 6], [7, 8, 9]];
        let img = color(3, 1, &samples, &cmap, DataRange::Automatic);
        for p in &img.pixels {
            assert!(cmap.contains(p));
        }
        assert_eq!(img.pixels[2], [7, 8, 9]);
    }
    for &hi in &[1u16, 300, 65535] {
        let samples: Vec<u16> = vec![0, hi];
        let cmap: Vec<[u8; 3]> = vec![[1, 1, 1], [2, 2, 2]];
        let img = color(2, 1, &samples, &cmap, DataRange::MinMax(0, hi));
        assert_eq!(img.pixels, vec![[1, 1, 1], [2, 2, 2]]);
    }
}

#[test]
fn greyscale_identity_with_full_table() {
    // A 256-entry table makes the red channel select its own index.
    let mut map: Vec<[u8; 3]> = Vec::new();
    for i in 0..256usize {
        map.push([i as u8, 255 - i as u8, 0]);
    }
    let mut img = Raster {
        width: 3,
        height: 1,
        pixels: vec![[0, 9, 9], [128, 1, 2], [255, 0, 0]],
    };
    color_greyscale(&mut img, &map);
    assert_eq!(img.pixels, vec![[0, 255, 0], [128, 127, 0], [255, 0, 0]]);
}

#[test]
fn greyscale_two_entries_splits_at_truncation() {
    // Two entries: index is red * 1 / 255, so only red == 255 reaches the
    // second entry; everything below truncates to the first.
    let map: Vec<[u8; 3]> = vec![[5, 5, 5], [9, 9, 9]];
    let mut img = Raster {
        width: 2,
        height: 2,
        pixels: vec![[0, 0, 0], [127, 0, 0], [254, 0, 0], [255, 0, 0]],
    };
    color_greyscale(&mut img, &map);
    assert_eq!(
        img.pixels,
        vec![[5, 5, 5], [5, 5, 5], [5, 5, 5], [9, 9, 9]]
    );
}

#[test]
fn greyscale_agrees_with_color_on_red_channels() {
    let map: Vec<[u8; 3]> = vec![[0, 0, 9], [60, 60, 9], [120, 120, 9], [250, 250, 9]];
    let mut img = Raster {
        width: 2,
        height: 2,
        pixels: vec![[0, 1, 2], [85, 3, 4], [170, 5, 6], [255, 7, 8]],
    };
    let reds: Vec<u8> = img.pixels.iter().map(|p| p[0]).collect();
    color_greyscale(&mut img, &map);
    let through_color = color(2, 2, &reds, &map, DataRange::MinMax(0, 255));
    assert_eq!(img.pixels, through_color.pixels);
    assert_eq!(img.pixels, vec![[0, 0, 9], [60, 60, 9], [120, 120, 9], [250, 250, 9]]);
}

#[test]
fn casts_round_trip() {
    assert_eq!(<u8 as CastAsUsize>::from_usize(200), 200u8);
    assert_eq!(<u8 as CastAsUsize>::to_usize(200), 200usize);
    assert_eq!(<u16 as CastAsUsize>::from_usize(40_000), 40_000u16);
    assert_eq!(<u16 as CastAsUsize>::to_usize(40_000), 40_000usize);
    assert_eq!(<u32 as CastAsUsize>::from_usize(70_000), 70_000u32);
    assert_eq!(<u32 as CastAsUsize>::to_usize(70_000), 70_000usize);
}

#[test]
fn scaled_index_is_the_affine_rescale() {
    assert_eq!(cooler_couleur::affine::scaled_index(5, 0, 10, 100), 50);
    assert_eq!(cooler_couleur::affine::scaled_index(0, 0, 10, 100), 0);
    assert_eq!(cooler_couleur::affine::scaled_index(10, 0, 10, 100), 100);
    assert_eq!(cooler_couleur::affine::scaled_index(9, 3, 9, 1), 1);
    assert_eq!(cooler_couleur::affine::scaled_index(8, 3, 9, 1), 0);
    assert_eq!(cooler_couleur::affine::scaled_index(u64::MAX, 0, u64::MAX, usize::MAX), usize::MAX);
}

#[test]
fn buffer_extrema_reductions() {
    assert_eq!(<u8 as ColorRegression>::min(&[3, 1, 2]), 1);
    assert_eq!(<u8 as ColorRegression>::max(&[3, 1, 2]), 3);
    assert_eq!(<u16 as ColorRegression>::min(&[9]), 9);
    assert_eq!(<u16 as ColorRegression>::max(&[9]), 9);
    assert_eq!(<u32 as ColorRegression>::min(&[7, 7, 0, u32::MAX]), 0);
    assert_eq!(<u32 as ColorRegression>::max(&[7, 7, 0, u32::MAX]), u32::MAX);
}
