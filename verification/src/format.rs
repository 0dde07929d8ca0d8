//! Format negotiation: choosing one concrete video format from what the
//! capture backend offers, and checking the format that it confirms.

use vstd::prelude::*;

verus! {

/// The widest frame that is ever proposed or accepted.
pub const MAX_WIDTH: u32 = 4096;

/// The tallest frame that is ever proposed or accepted.
pub const MAX_HEIGHT: u32 = 4096;

/// The frame rate that is asked for, in frames per second.
pub const TARGET_FRAME_RATE: u32 = 30;

/// How the pixels of a raw frame are laid out in memory.
#[allow(non_camel_case_types)]
#[derive(Clone, Copy, Debug, PartialEq, Eq, Structural)]
pub enum PixelLayout {
    RGB,
    RGBA,
    RGBx,
    BGRx,
    YUY2,
    I420,
    /// A layout that the pipeline has no name for, by the backend's number.
    Other(u32),
}

/// A frame size in pixels.
#[derive(Clone, Copy, Debug, PartialEq, Eq, Structural)]
pub struct Rectangle {
    pub width: u32,
    pub height: u32,
}

/// A frame rate as a fraction of frames per second.
#[derive(Clone, Copy, Debug, PartialEq, Eq, Structural)]
pub struct Fraction {
    pub num: u32,
    pub denom: u32,
}

/// One capability offer of the capture backend.
#[derive(Debug)]
pub struct FormatOffer {
    pub layouts: Vec<PixelLayout>,
    pub min_size: Rectangle,
    pub max_size: Rectangle,
    pub min_rate: Fraction,
    pub max_rate: Fraction,
}

/// A concrete video format.
#[derive(Clone, Copy, Debug, PartialEq, Eq, Structural)]
pub struct VideoFormat {
    pub pixel_layout: PixelLayout,
    pub width: u32,
    pub height: u32,
    pub frame_rate: Fraction,
}

/// Why no format could be chosen, or why a confirmed format cannot be used.
#[derive(Clone, Copy, Debug, PartialEq, Eq, Structural)]
pub enum FormatError {
    /// The layout that the encoder needs is not on offer.
    UnsupportedFormat,
    /// The layout is on offer, but with no size or frame rate that can be used.
    UnusableRange,
}

/// The one layout that the encoder takes.
pub open spec fn required_layout() -> PixelLayout {
    PixelLayout::BGRx
}

/// The frame rate that is asked for, as a fraction.
pub open spec fn target_rate() -> Fraction {
    Fraction { num: TARGET_FRAME_RATE, denom: 1 }
}

impl Fraction {
    /// `self <= other` as rational numbers, for positive denominators.
    pub open spec fn le(self, other: Fraction) -> bool {
        self.num * other.denom <= other.num * self.denom
    }

    /// `true` exactly when `self <= other` by [`Fraction::le`].
    pub fn at_most(&self, other: &Fraction) -> (r: bool)
        ensures
            r == self.le(*other),
    {
        assert(self.num * other.denom <= u64::MAX && other.num * self.denom <= u64::MAX)
            by (nonlinear_arith)
            requires
                self.num <= u32::MAX,
                self.denom <= u32::MAX,
                other.num <= u32::MAX,
                other.denom <= u32::MAX,
        ;
        let left: u64 = (self.num as u64) * (other.denom as u64);
        let right: u64 = (other.num as u64) * (self.denom as u64);
        left <= right
    }
}

/// The target rate brought into the range from `min` to `max`.
pub open spec fn clamped_rate(min: Fraction, max: Fraction) -> Fraction {
    if !min.le(target_rate()) {
        min
    } else if !target_rate().le(max) {
        max
    } else {
        target_rate()
    }
}

impl FormatOffer {
    /// The offer names the layout that the encoder takes.
    pub open spec fn has_required_layout(self) -> bool {
        self.layouts@.contains(required_layout())
    }

    /// The offer's ranges hold a size and a rate that can be proposed.
    pub open spec fn has_usable_range(self) -> bool {
        &&& self.min_size.width <= self.max_size.width
        &&& self.min_size.height <= self.max_size.height
        &&& self.min_size.width <= MAX_WIDTH
        &&& self.min_size.height <= MAX_HEIGHT
        &&& 0 < self.max_size.width
        &&& 0 < self.max_size.height
        &&& 0 < self.min_rate.denom
        &&& 0 < self.max_rate.denom
        &&& self.min_rate.le(self.max_rate)
    }

    /// A format can be proposed from this offer.
    pub open spec fn usable(self) -> bool {
        self.has_required_layout() && self.has_usable_range()
    }

    /// The format that stands for this offer: the required layout, the
    /// largest size in range under the ceiling, and the target rate clamped
    /// to the offered range.
    pub open spec fn preferred(self) -> VideoFormat {
        VideoFormat {
            pixel_layout: required_layout(),
            width: if self.max_size.width <= MAX_WIDTH {
                self.max_size.width
            } else {
                MAX_WIDTH
            },
            height: if self.max_size.height <= MAX_HEIGHT {
                self.max_size.height
            } else {
                MAX_HEIGHT
            },
            frame_rate: clamped_rate(self.min_rate, self.max_rate),
        }
    }

    /// What [`FormatOffer::propose`] returns.
    pub open spec fn proposal(self) -> Result<VideoFormat, FormatError> {
        if !self.has_required_layout() {
            Err(FormatError::UnsupportedFormat)
        } else if !self.has_usable_range() {
            Err(FormatError::UnusableRange)
        } else {
            Ok(self.preferred())
        }
    }

    /// `true` exactly when the offer names the layout that the encoder takes.
    pub fn offers_required_layout(&self) -> (r: bool)
        ensures
            r == self.has_required_layout(),
    {
        let mut i: usize = 0;
        while i < self.layouts.len()
            invariant
                i <= self.layouts.len(),
                forall|j: int| 0 <= j < i ==> self.layouts@[j] != required_layout(),
            decreases self.layouts.len() - i,
        {
            if self.layouts[i] == PixelLayout::BGRx {
                return true;
            }
            i += 1;
        }
        false
    }

    /// The format to propose from this offer, or why there is none.
    pub fn propose(&self) -> (r: Result<VideoFormat, FormatError>)
        ensures
            r == self.proposal(),
    {
        if !self.offers_required_layout() {
            return Err(FormatError::UnsupportedFormat);
        }
        let sizes_ok: bool = self.min_size.width <= self.max_size.width && self.min_size.height
            <= self.max_size.height && self.min_size.width <= MAX_WIDTH && self.min_size.height
            <= MAX_HEIGHT && 0 < self.max_size.width && 0 < self.max_size.height;
        if !sizes_ok || self.min_rate.denom == 0 || self.max_rate.denom == 0
            || !self.min_rate.at_most(&self.max_rate) {
            return Err(FormatError::UnusableRange);
        }
        let target = Fraction { num: TARGET_FRAME_RATE, denom: 1 };
        let frame_rate = if !self.min_rate.at_most(&target) {
            self.min_rate
        } else if !target.at_most(&self.max_rate) {
            self.max_rate
        } else {
            target
        };
        Ok(
            VideoFormat {
                pixel_layout: PixelLayout::BGRx,
                width: if self.max_size.width <= MAX_WIDTH {
                    self.max_size.width
                } else {
                    MAX_WIDTH
                },
                height: if self.max_size.height <= MAX_HEIGHT {
                    self.max_size.height
                } else {
                    MAX_HEIGHT
                },
                frame_rate,
            },
        )
    }
}

/// What is proposed from a usable offer lies within the offer: its size
/// is within the offered sizes and under the ceiling, and no larger size
/// is; its rate is within the offered rates, and is the target rate where
/// that is on offer. It is a format that can be used.
pub proof fn lemma_preferred_is_in_range(offer: FormatOffer)
    requires
        offer.usable(),
    ensures
        offer.preferred().acceptable(),
        offer.min_size.width <= offer.preferred().width <= offer.max_size.width,
        offer.min_size.height <= offer.preferred().height <= offer.max_size.height,
        offer.preferred().width == offer.max_size.width || offer.preferred().width == MAX_WIDTH,
        offer.preferred().height == offer.max_size.height || offer.preferred().height
            == MAX_HEIGHT,
        offer.min_rate.le(offer.preferred().frame_rate),
        offer.preferred().frame_rate.le(offer.max_rate),
        offer.min_rate.le(target_rate()) && target_rate().le(offer.max_rate)
            ==> offer.preferred().frame_rate == target_rate(),
{
}

/// The index of the offer that negotiation settles on: the first usable
/// offer among those whose preferred format has the most pixels.
pub open spec fn selected(offers: Seq<FormatOffer>) -> Option<int>
    decreases offers.len(),
{
    if offers.len() == 0 {
        None
    } else {
        let last = offers.len() - 1;
        match selected(offers.drop_last()) {
            None => if offers[last].usable() {
                Some(last)
            } else {
                None
            },
            Some(k) => if offers[last].usable() && offers[last].preferred().pixels()
                > offers[k].preferred().pixels() {
                Some(last)
            } else {
                Some(k)
            },
        }
    }
}

/// What [`negotiate`] returns for these offers.
pub open spec fn negotiated(offers: Seq<FormatOffer>) -> Result<VideoFormat, FormatError> {
    match selected(offers) {
        Some(k) => Ok(offers[k].preferred()),
        None => if exists|i: int|
            0 <= i < offers.len() && #[trigger] offers[i].has_required_layout() {
            Err(FormatError::UnusableRange)
        } else {
            Err(FormatError::UnsupportedFormat)
        },
    }
}

/// The selected offer is usable, no usable offer has more pixels, and no
/// earlier usable offer has as many; and none is selected exactly when no
/// offer is usable.
pub proof fn lemma_selected_is_best(offers: Seq<FormatOffer>)
    ensures
        match selected(offers) {
            Some(k) => {
                &&& 0 <= k < offers.len()
                &&& offers[k].usable()
                &&& forall|j: int|
                    0 <= j < offers.len() && #[trigger] offers[j].usable()
                        ==> offers[j].preferred().pixels() <= offers[k].preferred().pixels()
                &&& forall|j: int|
                    0 <= j < k && #[trigger] offers[j].usable() ==> offers[j].preferred().pixels()
                        < offers[k].preferred().pixels()
            },
            None => forall|j: int| 0 <= j < offers.len() ==> !#[trigger] offers[j].usable(),
        },
    decreases offers.len(),
{
    if offers.len() > 0 {
        let front = offers.drop_last();
        lemma_selected_is_best(front);
        assert forall|j: int| 0 <= j < front.len() implies front[j] == offers[j] by {}
    }
}

/// Chooses the format to propose to the backend from its offers.
///
/// Fails with `UnsupportedFormat` when no offer names the layout that the
/// encoder takes, and with `UnusableRange` when some do but none of them
/// with a usable size and rate.
pub fn negotiate(offers: &[FormatOffer]) -> (r: Result<VideoFormat, FormatError>)
    ensures
        r == negotiated(offers@),
{
    let mut best: Option<VideoFormat> = None;
    let mut layout_seen: bool = false;
    let mut i: usize = 0;
    while i < offers.len()
        invariant
            i <= offers.len(),
            layout_seen == exists|j: int| 0 <= j < i && #[trigger] offers@[j].has_required_layout(),
            match selected(offers@.take(i as int)) {
                Some(k) => 0 <= k < i && best == Some(offers@[k].preferred()),
                None => best.is_none(),
            },
        decreases offers.len() - i,
    {
        proof {
            let upto = offers@.take(i as int + 1);
            assert(upto.drop_last() =~= offers@.take(i as int));
            lemma_selected_is_best(offers@.take(i as int));
        }
        match offers[i].propose() {
            Ok(format) => {
                layout_seen = true;
                let better: bool = match best {
                    None => true,
                    Some(held) => pixel_count(&format) > pixel_count(&held),
                };
                if better {
                    best = Some(format);
                }
            },
            Err(FormatError::UnusableRange) => {
                layout_seen = true;
            },
            Err(FormatError::UnsupportedFormat) => {},
        }
        i += 1;
    }
    assert(offers@.take(i as int) =~= offers@);
    match best {
        Some(format) => Ok(format),
        None => if layout_seen {
            Err(FormatError::UnusableRange)
        } else {
            Err(FormatError::UnsupportedFormat)
        },
    }
}

/// The number of pixels of one frame of `format`.
pub fn pixel_count(format: &VideoFormat) -> (n: u64)
    ensures
        n == format.pixels(),
{
    assert(format.width * format.height <= u64::MAX) by (nonlinear_arith)
        requires
            format.width <= u32::MAX,
            format.height <= u32::MAX,
    ;
    (format.width as u64) * (format.height as u64)
}

/// The capability set that is assumed of a backend that names none:
/// the layouts, sizes and rates that a capture stream is opened with.
pub fn default_offer() -> (offer: FormatOffer)
    ensures
        offer.layouts@ == seq![
            PixelLayout::RGB,
            PixelLayout::RGBA,
            PixelLayout::RGBx,
            PixelLayout::BGRx,
            PixelLayout::YUY2,
            PixelLayout::I420,
        ],
        offer.min_size == (Rectangle { width: 1, height: 1 }),
        offer.max_size == (Rectangle { width: 4096, height: 4096 }),
        offer.min_rate == (Fraction { num: 0, denom: 1 }),
        offer.max_rate == (Fraction { num: 1000, denom: 1 }),
        offer.usable(),
{
    let mut layouts: Vec<PixelLayout> = Vec::new();
    layouts.push(PixelLayout::RGB);
    layouts.push(PixelLayout::RGBA);
    layouts.push(PixelLayout::RGBx);
    layouts.push(PixelLayout::BGRx);
    layouts.push(PixelLayout::YUY2);
    layouts.push(PixelLayout::I420);
    assert(layouts@[3] == required_layout());
    FormatOffer {
        layouts,
        min_size: Rectangle { width: 1, height: 1 },
        max_size: Rectangle { width: 4096, height: 4096 },
        min_rate: Fraction { num: 0, denom: 1 },
        max_rate: Fraction { num: 1000, denom: 1 },
    }
}

impl VideoFormat {
    /// The number of pixels of one frame.
    pub open spec fn pixels(self) -> int {
        self.width * self.height
    }

    /// The format can be handed to the encoder: it has the required layout
    /// and a size that is not empty and not over the ceiling.
    pub open spec fn acceptable(self) -> bool {
        &&& self.pixel_layout == required_layout()
        &&& 0 < self.width <= MAX_WIDTH
        &&& 0 < self.height <= MAX_HEIGHT
    }

    /// What [`VideoFormat::validate`] returns.
    pub open spec fn validation(self) -> Result<(), FormatError> {
        if self.pixel_layout != required_layout() {
            Err(FormatError::UnsupportedFormat)
        } else if !self.acceptable() {
            Err(FormatError::UnusableRange)
        } else {
            Ok(())
        }
    }

    /// Checks a format that the backend has confirmed: it is accepted if
    /// it has the required layout and a size that is not empty and not
    /// over the ceiling.
    pub fn validate(&self) -> (r: Result<(), FormatError>)
        ensures
            r == self.validation(),
            r.is_ok() == self.acceptable(),
    {
        if self.pixel_layout != PixelLayout::BGRx {
            Err(FormatError::UnsupportedFormat)
        } else if self.width == 0 || self.width > MAX_WIDTH || self.height == 0 || self.height
            > MAX_HEIGHT {
            Err(FormatError::UnusableRange)
        } else {
            Ok(())
        }
    }
}

} // verus!
