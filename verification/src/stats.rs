//! Counters of a conversion: pages, bytes and time spent per pipeline stage.
use vstd::prelude::*;

verus! {

/// The longest duration that can be held, in nanoseconds: `u64::MAX` whole
/// seconds plus just under one more second. Adding past it is an overflow.
pub const MAX_DURATION_NANOS: u128 = 18446744073709551615 * 1000000000 + 999999999;

/// What one processed image reports, its stage times in nanoseconds.
#[derive(Clone, Copy, Debug)]
pub struct ImageStats {
    pub input_bytes: u64,
    pub output_bytes: u64,
    pub passthrough: bool,
    pub fetch_nanos: u128,
    pub decode_nanos: u128,
    pub transform_nanos: u128,
    pub encode_nanos: u128,
}

/// Totals over the images of a volume or of a whole run.
#[derive(Clone, Copy, Debug)]
pub struct ConversionStats {
    pub pages: u32,
    pub input_bytes: u64,
    pub output_bytes: u64,
    pub passthrough_pages: u32,
    pub encoded_pages: u32,
    pub fetch_nanos: u128,
    pub decode_nanos: u128,
    pub transform_nanos: u128,
    pub encode_nanos: u128,
}

/// The totals as plain numbers.
pub struct StatsView {
    pub pages: int,
    pub input_bytes: int,
    pub output_bytes: int,
    pub passthrough_pages: int,
    pub encoded_pages: int,
    pub fetch_nanos: int,
    pub decode_nanos: int,
    pub transform_nanos: int,
    pub encode_nanos: int,
}

impl View for ConversionStats {
    type V = StatsView;

    open spec fn view(&self) -> StatsView {
        StatsView {
            pages: self.pages as int,
            input_bytes: self.input_bytes as int,
            output_bytes: self.output_bytes as int,
            passthrough_pages: self.passthrough_pages as int,
            encoded_pages: self.encoded_pages as int,
            fetch_nanos: self.fetch_nanos as int,
            decode_nanos: self.decode_nanos as int,
            transform_nanos: self.transform_nanos as int,
            encode_nanos: self.encode_nanos as int,
        }
    }
}

/// All totals zero.
pub open spec fn zero_stats() -> StatsView {
    StatsView {
        pages: 0,
        input_bytes: 0,
        output_bytes: 0,
        passthrough_pages: 0,
        encoded_pages: 0,
        fetch_nanos: 0,
        decode_nanos: 0,
        transform_nanos: 0,
        encode_nanos: 0,
    }
}

/// Field-by-field sum of two totals.
pub open spec fn sum_stats(a: StatsView, b: StatsView) -> StatsView {
    StatsView {
        pages: a.pages + b.pages,
        input_bytes: a.input_bytes + b.input_bytes,
        output_bytes: a.output_bytes + b.output_bytes,
        passthrough_pages: a.passthrough_pages + b.passthrough_pages,
        encoded_pages: a.encoded_pages + b.encoded_pages,
        fetch_nanos: a.fetch_nanos + b.fetch_nanos,
        decode_nanos: a.decode_nanos + b.decode_nanos,
        transform_nanos: a.transform_nanos + b.transform_nanos,
        encode_nanos: a.encode_nanos + b.encode_nanos,
    }
}

/// The totals of a single image.
pub open spec fn image_totals(img: ImageStats) -> StatsView {
    StatsView {
        pages: 1,
        input_bytes: img.input_bytes as int,
        output_bytes: img.output_bytes as int,
        passthrough_pages: if img.passthrough { 1 } else { 0 },
        encoded_pages: if img.passthrough { 0 } else { 1 },
        fetch_nanos: img.fetch_nanos as int,
        decode_nanos: img.decode_nanos as int,
        transform_nanos: img.transform_nanos as int,
        encode_nanos: img.encode_nanos as int,
    }
}

/// Whether totals can be held without overflow.
pub open spec fn fits(s: StatsView) -> bool {
    &&& 0 <= s.pages <= u32::MAX
    &&& 0 <= s.input_bytes <= u64::MAX
    &&& 0 <= s.output_bytes <= u64::MAX
    &&& 0 <= s.passthrough_pages <= u32::MAX
    &&& 0 <= s.encoded_pages <= u32::MAX
    &&& 0 <= s.fetch_nanos <= MAX_DURATION_NANOS
    &&& 0 <= s.decode_nanos <= MAX_DURATION_NANOS
    &&& 0 <= s.transform_nanos <= MAX_DURATION_NANOS
    &&& 0 <= s.encode_nanos <= MAX_DURATION_NANOS
}

/// Every counted page was either passed through or encoded.
pub open spec fn pages_accounted(s: StatsView) -> bool {
    s.pages == s.passthrough_pages + s.encoded_pages
}

impl Default for ConversionStats {
    fn default() -> (stats: Self)
        ensures
            stats@ == zero_stats(),
    {
        ConversionStats {
            pages: 0,
            input_bytes: 0,
            output_bytes: 0,
            passthrough_pages: 0,
            encoded_pages: 0,
            fetch_nanos: 0,
            decode_nanos: 0,
            transform_nanos: 0,
            encode_nanos: 0,
        }
    }
}

impl ConversionStats {
    /// Counts one processed image.
    pub fn add_image(&mut self, img: &ImageStats)
        requires
            fits(sum_stats(old(self)@, image_totals(*img))),
            old(self).fetch_nanos <= MAX_DURATION_NANOS,
            old(self).decode_nanos <= MAX_DURATION_NANOS,
            old(self).transform_nanos <= MAX_DURATION_NANOS,
            old(self).encode_nanos <= MAX_DURATION_NANOS,
        ensures
            final(self)@ == sum_stats(old(self)@, image_totals(*img)),
            final(self).pages == old(self).pages + 1,
            final(self).passthrough_pages == old(self).passthrough_pages + if img.passthrough { 1int } else { 0int },
            final(self).encoded_pages == old(self).encoded_pages + if img.passthrough { 0int } else { 1int },
            final(self).input_bytes == old(self).input_bytes + img.input_bytes,
            final(self).output_bytes == old(self).output_bytes + img.output_bytes,
    {
        self.pages = self.pages + 1;
        self.input_bytes = self.input_bytes + img.input_bytes;
        self.output_bytes = self.output_bytes + img.output_bytes;
        if img.passthrough {
            self.passthrough_pages = self.passthrough_pages + 1;
        } else {
            self.encoded_pages = self.encoded_pages + 1;
        }
        self.fetch_nanos = self.fetch_nanos + img.fetch_nanos;
        self.decode_nanos = self.decode_nanos + img.decode_nanos;
        self.transform_nanos = self.transform_nanos + img.transform_nanos;
        self.encode_nanos = self.encode_nanos + img.encode_nanos;
    }

    /// Adds another set of totals to these.
    pub fn merge(&mut self, other: &Self)
        requires
            fits(sum_stats(old(self)@, other@)),
        ensures
            final(self)@ == sum_stats(old(self)@, other@),
    {
        self.pages = self.pages + other.pages;
        self.input_bytes = self.input_bytes + other.input_bytes;
        self.output_bytes = self.output_bytes + other.output_bytes;
        self.passthrough_pages = self.passthrough_pages + other.passthrough_pages;
        self.encoded_pages = self.encoded_pages + other.encoded_pages;
        self.fetch_nanos = self.fetch_nanos + other.fetch_nanos;
        self.decode_nanos = self.decode_nanos + other.decode_nanos;
        self.transform_nanos = self.transform_nanos + other.transform_nanos;
        self.encode_nanos = self.encode_nanos + other.encode_nanos;
    }
}

/// Merging empty totals changes nothing, on either side.
pub proof fn law_merge_identity(s: StatsView)
    ensures
        sum_stats(s, zero_stats()) == s,
        sum_stats(zero_stats(), s) == s,
{
}

/// Merging two totals adds each count, byte total and time of one to the
/// same one of the other: passed-through pages stay passed through and
/// encoded pages stay encoded.
pub proof fn law_merge_adds_fieldwise(a: StatsView, b: StatsView)
    ensures
        sum_stats(a, b).pages == a.pages + b.pages,
        sum_stats(a, b).input_bytes == a.input_bytes + b.input_bytes,
        sum_stats(a, b).output_bytes == a.output_bytes + b.output_bytes,
        sum_stats(a, b).passthrough_pages == a.passthrough_pages + b.passthrough_pages,
        sum_stats(a, b).encoded_pages == a.encoded_pages + b.encoded_pages,
        sum_stats(a, b).fetch_nanos == a.fetch_nanos + b.fetch_nanos,
        sum_stats(a, b).decode_nanos == a.decode_nanos + b.decode_nanos,
        sum_stats(a, b).transform_nanos == a.transform_nanos + b.transform_nanos,
        sum_stats(a, b).encode_nanos == a.encode_nanos + b.encode_nanos,
{
}

/// The order in which volume totals are merged does not matter.
pub proof fn law_merge_commutative(a: StatsView, b: StatsView)
    ensures
        sum_stats(a, b) == sum_stats(b, a),
{
}

/// Merging is associative, so a run's totals do not depend on how volumes are grouped.
pub proof fn law_merge_associative(a: StatsView, b: StatsView, c: StatsView)
    ensures
        sum_stats(sum_stats(a, b), c) == sum_stats(a, sum_stats(b, c)),
{
}

/// Every page counted is either passed through or encoded, through any
/// sequence of counting and merging that starts from empty totals.
pub proof fn law_pages_accounted(a: StatsView, b: StatsView, img: ImageStats)
    ensures
        pages_accounted(zero_stats()),
        pages_accounted(a) ==> pages_accounted(sum_stats(a, image_totals(img))),
        pages_accounted(a) && pages_accounted(b) ==> pages_accounted(sum_stats(a, b)),
{
}

/// Counting one image adds one page, to the passed-through pages when the
/// image was copied through and to the encoded pages when it was not, and
/// adds its bytes and times.
pub proof fn law_image_counted_once(s: StatsView, img: ImageStats)
    ensures
        sum_stats(s, image_totals(img)).pages == s.pages + 1,
        img.passthrough ==> sum_stats(s, image_totals(img)).passthrough_pages == s.passthrough_pages + 1
            && sum_stats(s, image_totals(img)).encoded_pages == s.encoded_pages,
        !img.passthrough ==> sum_stats(s, image_totals(img)).encoded_pages == s.encoded_pages + 1
            && sum_stats(s, image_totals(img)).passthrough_pages == s.passthrough_pages,
        sum_stats(s, image_totals(img)).input_bytes == s.input_bytes + img.input_bytes,
        sum_stats(s, image_totals(img)).output_bytes == s.output_bytes + img.output_bytes,
        sum_stats(s, image_totals(img)).fetch_nanos == s.fetch_nanos + img.fetch_nanos,
        sum_stats(s, image_totals(img)).decode_nanos == s.decode_nanos + img.decode_nanos,
        sum_stats(s, image_totals(img)).transform_nanos == s.transform_nanos + img.transform_nanos,
        sum_stats(s, image_totals(img)).encode_nanos == s.encode_nanos + img.encode_nanos,
{
}

} // verus!
