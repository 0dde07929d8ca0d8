use screen_stream::format::{
    default_offer, negotiate, pixel_count, FormatError, FormatOffer, Fraction, PixelLayout,
    Rectangle, VideoFormat, MAX_HEIGHT, MAX_WIDTH, TARGET_FRAME_RATE,
};

fn offer(
    layouts: Vec<PixelLayout>,
    min: (u32, u32),
    max: (u32, u32),
    rates: ((u32, u32), (u32, u32)),
) -> FormatOffer {
    FormatOffer {
        layouts,
        min_size: Rectangle { width: min.0, height: min.1 },
        max_size: Rectangle { width: max.0, height: max.1 },
        min_rate: Fraction { num: (rates.0).0, denom: (rates.0).1 },
        max_rate: Fraction { num: (rates.1).0, denom: (rates.1).1 },
    }
}

fn bgrx(width: u32, height: u32, num: u32, denom: u32) -> VideoFormat {
    VideoFormat {
        pixel_layout: PixelLayout::BGRx,
        width,
        height,
        frame_rate: Fraction { num, denom },
    }
}

#[test]
fn constants_have_the_documented_values() {
    assert_eq!(MAX_WIDTH, 4096);
    assert_eq!(MAX_HEIGHT, 4096);
    assert_eq!(TARGET_FRAME_RATE, 30);
}

#[test]
fn default_offer_lists_what_a_stream_is_opened_with() {
    let o = default_offer();
    assert_eq!(
        o.layouts,
        vec![
            PixelLayout::RGB,
            PixelLayout::RGBA,
            PixelLayout::RGBx,
            PixelLayout::BGRx,
            PixelLayout::YUY2,
            PixelLayout::I420
        ]
    );
    assert_eq!(o.min_size, Rectangle { width: 1, height: 1 });
    assert_eq!(o.max_size, Rectangle { width: 4096, height: 4096 });
    assert_eq!(o.min_rate, Fraction { num: 0, denom: 1 });
    assert_eq!(o.max_rate, Fraction { num: 1000, denom: 1 });
}

#[test]
fn default_offer_negotiates_to_the_ceiling_at_the_target_rate() {
    assert_eq!(negotiate(&[default_offer()]), Ok(bgrx(4096, 4096, 30, 1)));
}

#[test]
fn negotiate_picks_the_largest_size_in_range() {
    let offers = vec![offer(vec![PixelLayout::BGRx], (1, 1), (1280, 720), ((0, 1), (60, 1)))];
    assert_eq!(negotiate(&offers), Ok(bgrx(1280, 720, 30, 1)));
}

#[test]
fn negotiate_stops_at_the_ceiling() {
    let offers = vec![offer(vec![PixelLayout::BGRx], (1, 1), (8000, 5000), ((0, 1), (60, 1)))];
    assert_eq!(negotiate(&offers), Ok(bgrx(4096, 4096, 30, 1)));
    let offers = vec![offer(vec![PixelLayout::BGRx], (1, 1), (8000, 600), ((0, 1), (60, 1)))];
    assert_eq!(negotiate(&offers), Ok(bgrx(4096, 600, 30, 1)));
}

#[test]
fn negotiate_clamps_the_rate_to_the_offered_range() {
    let low = vec![offer(vec![PixelLayout::BGRx], (1, 1), (640, 480), ((10, 1), (24, 1)))];
    assert_eq!(negotiate(&low), Ok(bgrx(640, 480, 24, 1)));
    let high = vec![offer(vec![PixelLayout::BGRx], (1, 1), (640, 480), ((40, 1), (60, 1)))];
    assert_eq!(negotiate(&high), Ok(bgrx(640, 480, 40, 1)));
    let ntsc = vec![offer(vec![PixelLayout::BGRx], (1, 1), (640, 480), ((0, 1), (30000, 1001)))];
    assert_eq!(negotiate(&ntsc), Ok(bgrx(640, 480, 30000, 1001)));
    let exact = vec![offer(vec![PixelLayout::BGRx], (1, 1), (640, 480), ((30, 1), (30, 1)))];
    assert_eq!(negotiate(&exact), Ok(bgrx(640, 480, 30, 1)));
    let halves = vec![offer(vec![PixelLayout::BGRx], (1, 1), (640, 480), ((50, 2), (120, 2)))];
    assert_eq!(negotiate(&halves), Ok(bgrx(640, 480, 30, 1)));
}

#[test]
fn negotiate_fails_without_the_required_layout() {
    let offers = vec![
        offer(vec![PixelLayout::RGB, PixelLayout::I420], (1, 1), (640, 480), ((0, 1), (60, 1))),
        offer(vec![PixelLayout::Other(77)], (1, 1), (640, 480), ((0, 1), (60, 1))),
    ];
    assert_eq!(negotiate(&offers), Err(FormatError::UnsupportedFormat));
}

#[test]
fn negotiate_fails_on_no_offer_at_all() {
    assert_eq!(negotiate(&[]), Err(FormatError::UnsupportedFormat));
}

#[test]
fn negotiate_fails_on_ranges_that_hold_nothing() {
    let inverted = vec![offer(vec![PixelLayout::BGRx], (800, 600), (640, 480), ((0, 1), (60, 1)))];
    assert_eq!(negotiate(&inverted), Err(FormatError::UnusableRange));
    let over = vec![offer(vec![PixelLayout::BGRx], (5000, 5000), (6000, 6000), ((0, 1), (60, 1)))];
    assert_eq!(negotiate(&over), Err(FormatError::UnusableRange));
    let empty = vec![offer(vec![PixelLayout::BGRx], (0, 0), (0, 0), ((0, 1), (60, 1)))];
    assert_eq!(negotiate(&empty), Err(FormatError::UnusableRange));
    let no_denominator =
        vec![offer(vec![PixelLayout::BGRx], (1, 1), (640, 480), ((0, 0), (60, 1)))];
    assert_eq!(negotiate(&no_denominator), Err(FormatError::UnusableRange));
    let rates = vec![offer(vec![PixelLayout::BGRx], (1, 1), (640, 480), ((60, 1), (30, 1)))];
    assert_eq!(negotiate(&rates), Err(FormatError::UnusableRange));
}

#[test]
fn negotiate_takes_the_offer_with_the_most_pixels() {
    let offers = vec![
        offer(vec![PixelLayout::BGRx], (1, 1), (640, 480), ((0, 1), (60, 1))),
        offer(vec![PixelLayout::RGB], (1, 1), (4000, 4000), ((0, 1), (60, 1))),
        offer(vec![PixelLayout::RGBx, PixelLayout::BGRx], (1, 1), (1920, 1080), ((0, 1), (25, 1))),
        offer(vec![PixelLayout::BGRx], (2000, 2000), (1000, 1000), ((0, 1), (60, 1))),
        offer(vec![PixelLayout::BGRx], (1, 1), (1280, 720), ((0, 1), (60, 1))),
    ];
    assert_eq!(negotiate(&offers), Ok(bgrx(1920, 1080, 25, 1)));
}

#[test]
fn negotiate_takes_the_first_of_equally_large_offers() {
    let offers = vec![
        offer(vec![PixelLayout::BGRx], (1, 1), (800, 600), ((0, 1), (20, 1))),
        offer(vec![PixelLayout::BGRx], (1, 1), (600, 800), ((0, 1), (60, 1))),
    ];
    assert_eq!(negotiate(&offers), Ok(bgrx(800, 600, 20, 1)));
}

#[test]
fn propose_tells_the_two_failures_apart() {
    let none = offer(vec![], (1, 1), (640, 480), ((0, 1), (60, 1)));
    assert_eq!(none.propose(), Err(FormatError::UnsupportedFormat));
    assert!(!none.offers_required_layout());
    let bad = offer(vec![PixelLayout::BGRx], (641, 1), (640, 480), ((0, 1), (60, 1)));
    assert_eq!(bad.propose(), Err(FormatError::UnusableRange));
    assert!(bad.offers_required_layout());
    let layouts = vec![PixelLayout::YUY2, PixelLayout::BGRx];
    let good = offer(layouts, (1, 1), (640, 480), ((0, 1), (60, 1)));
    assert_eq!(good.propose(), Ok(bgrx(640, 480, 30, 1)));
}

#[test]
fn fractions_compare_as_rationals() {
    let half = Fraction { num: 1, denom: 2 };
    let third = Fraction { num: 1, denom: 3 };
    let two_quarters = Fraction { num: 2, denom: 4 };
    assert!(third.at_most(&half));
    assert!(!half.at_most(&third));
    assert!(half.at_most(&two_quarters));
    assert!(two_quarters.at_most(&half));
    let big = Fraction { num: u32::MAX, denom: 1 };
    let bigger = Fraction { num: u32::MAX, denom: u32::MAX };
    assert!(bigger.at_most(&big));
    assert!(!big.at_most(&bigger));
}

#[test]
fn validate_accepts_the_required_layout_within_the_ceiling() {
    assert_eq!(bgrx(1280, 720, 30, 1).validate(), Ok(()));
    assert_eq!(bgrx(4096, 4096, 0, 1).validate(), Ok(()));
    assert_eq!(bgrx(1, 1, 60, 1).validate(), Ok(()));
}

#[test]
fn validate_rejects_other_layouts() {
    for layout in [
        PixelLayout::RGB,
        PixelLayout::RGBA,
        PixelLayout::RGBx,
        PixelLayout::YUY2,
        PixelLayout::I420,
        PixelLayout::Other(8),
    ] {
        let f = VideoFormat { pixel_layout: layout, ..bgrx(1280, 720, 30, 1) };
        assert_eq!(f.validate(), Err(FormatError::UnsupportedFormat));
    }
    let both = VideoFormat { pixel_layout: PixelLayout::RGB, ..bgrx(0, 0, 30, 1) };
    assert_eq!(both.validate(), Err(FormatError::UnsupportedFormat));
}

#[test]
fn validate_rejects_sizes_that_are_empty_or_over_the_ceiling() {
    assert_eq!(bgrx(0, 720, 30, 1).validate(), Err(FormatError::UnusableRange));
    assert_eq!(bgrx(1280, 0, 30, 1).validate(), Err(FormatError::UnusableRange));
    assert_eq!(bgrx(4097, 720, 30, 1).validate(), Err(FormatError::UnusableRange));
    assert_eq!(bgrx(1280, 4097, 30, 1).validate(), Err(FormatError::UnusableRange));
}

#[test]
fn pixel_count_is_width_times_height() {
    assert_eq!(pixel_count(&bgrx(1280, 720, 30, 1)), 921_600);
    assert_eq!(pixel_count(&bgrx(u32::MAX, u32::MAX, 30, 1)), 18_446_744_065_119_617_025);
    assert_eq!(pixel_count(&bgrx(0, 720, 30, 1)), 0);
}
