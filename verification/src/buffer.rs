//! The framebuffer: channel-interleaved pixel storage with a "greater wins"
//! depth test, and its conversion to packed 24-bit colours.
use crate::scalar::{Real, MIN_RAW, ONE_RAW};
use crate::utils::Remap;
use vstd::prelude::*;

verus! {

/// Index of the channel that holds a pixel's depth, where the buffer has one.
pub const DEPTH_CHANNEL: usize = 3;

/// The raw value of a channel that was not written since the buffer was
/// cleared: minus infinity, which every depth exceeds and which shows as black.
pub const UNWRITTEN_RAW: i64 = MIN_RAW;

/// Why a framebuffer operation was refused.
#[derive(Clone, Copy, Debug, PartialEq, Eq, Structural)]
pub enum BufferError {
    /// A pixel value does not have as many channels as the buffer.
    SizeMismatch,
    /// The buffer has fewer channels than the operation reads.
    DepthTooSmall,
}

impl BufferError {
    /// A short description of the error.
    pub fn message(&self) -> (r: &'static str)
        ensures
            *self == BufferError::SizeMismatch ==> r@ == "Buffer's pixel boundary will overflow!"@,
            *self == BufferError::DepthTooSmall ==> r@ == "Buffer's depth is less than 3!"@,
    {
        match self {
            BufferError::SizeMismatch => "Buffer's pixel boundary will overflow!",
            BufferError::DepthTooSmall => "Buffer's depth is less than 3!",
        }
    }
}

/// One write offered to the depth test: a pixel position and a value for
/// each of its channels.
pub struct PixelWrite {
    pub x: int,
    pub y: int,
    pub value: Seq<Real>,
}

/// The mathematical content of a framebuffer: its dimensions and the
/// row-major, channel-interleaved sequence of its channel values.
pub struct BufferView {
    pub width: nat,
    pub height: nat,
    pub depth: nat,
    pub data: Seq<Real>,
}

/// The byte that displays a colour channel: the channel is limited to the
/// interval from zero to one, scaled to 255 and rounded to the nearest whole number.
pub open spec fn channel_byte(c: Real) -> u32 {
    c.clamp(Real::zero(), Real::one()).mul(Real::from_int_spec(255)).round_spec() as u32
}

/// Three bytes packed as `0xRRGGBB`.
pub open spec fn pack_rgb(r: u32, g: u32, b: u32) -> u32 {
    (r * 65536 + g * 256 + b) as u32
}

impl BufferView {
    /// The data holds exactly one value per channel of every pixel.
    pub open spec fn wf(self) -> bool {
        self.data.len() == self.width * self.height * self.depth
    }

    /// Number of pixels.
    pub open spec fn pixels(self) -> nat {
        self.width * self.height
    }

    /// Position in the data of the first channel of the pixel at column `x`, row `y`.
    pub open spec fn base(self, x: int, y: int) -> int {
        (y * self.width + x) * self.depth
    }

    /// The pixel position lies inside the buffer.
    pub open spec fn contains(self, x: int, y: int) -> bool {
        0 <= x < self.width && 0 <= y < self.height
    }

    /// Channel `c` of the pixel at column `x`, row `y`.
    pub open spec fn channel(self, x: int, y: int, c: int) -> Real {
        self.data[self.base(x, y) + c]
    }

    /// The stored depth of the pixel at column `x`, row `y`.
    pub open spec fn depth_at(self, x: int, y: int) -> Real {
        self.channel(x, y, DEPTH_CHANNEL as int)
    }

    /// All channels of the pixel at column `x`, row `y`.
    pub open spec fn pixel(self, x: int, y: int) -> Seq<Real> {
        self.data.subrange(self.base(x, y), self.base(x, y) + self.depth)
    }

    /// A buffer of the given dimensions with every channel zero.
    pub open spec fn zeroed(width: nat, height: nat, depth: nat) -> BufferView {
        BufferView {
            width,
            height,
            depth,
            data: Seq::new(width * height * depth, |i: int| Real::zero()),
        }
    }

    /// The same buffer with every channel, colour and depth alike, reset to
    /// the unwritten value: the state in which no pixel has been written.
    pub open spec fn cleared(self) -> BufferView {
        BufferView {
            width: self.width,
            height: self.height,
            depth: self.depth,
            data: Seq::new(self.data.len(), |i: int| Real { raw: UNWRITTEN_RAW }),
        }
    }

    /// Whether the depth test lets `value` replace the pixel at column `x`,
    /// row `y`: its depth must be strictly greater than the stored one. A
    /// buffer without a depth channel accepts every write.
    pub open spec fn accepts(self, x: int, y: int, value: Seq<Real>) -> bool {
        self.depth > DEPTH_CHANNEL ==> self.depth_at(x, y).raw < value[DEPTH_CHANNEL as int].raw
    }

    /// The buffer after `value` was offered to the pixel at column `x`, row
    /// `y`: all channels are replaced together where the value has the
    /// buffer's channel count and passes the depth test, and nothing changes
    /// otherwise.
    pub open spec fn set_pixel(self, x: int, y: int, value: Seq<Real>) -> BufferView {
        if value.len() == self.depth && self.accepts(x, y, value) {
            BufferView {
                width: self.width,
                height: self.height,
                depth: self.depth,
                data: Seq::new(
                    self.data.len(),
                    |i: int|
                        if self.base(x, y) <= i < self.base(x, y) + self.depth {
                            value[i - self.base(x, y)]
                        } else {
                            self.data[i]
                        },
                ),
            }
        } else {
            self
        }
    }

    /// The buffer after the writes were offered in order.
    pub open spec fn apply(self, writes: Seq<PixelWrite>) -> BufferView
        decreases writes.len(),
    {
        if writes.len() == 0 {
            self
        } else {
            let w = writes.last();
            self.apply(writes.drop_last()).set_pixel(w.x, w.y, w.value)
        }
    }

    /// The stored depth of the `i`-th pixel in row-major order.
    pub open spec fn depth_of(self, i: int) -> Real {
        self.data[i * self.depth + DEPTH_CHANNEL as int]
    }

    /// The smallest depth among the first `n` pixels; plus infinity for none.
    pub open spec fn depth_min(self, n: nat) -> Real
        decreases n,
    {
        if n == 0 {
            Real::infinity()
        } else {
            self.depth_min((n - 1) as nat).min(self.depth_of(n - 1))
        }
    }

    /// The largest depth among the first `n` pixels; minus infinity for none.
    pub open spec fn depth_max(self, n: nat) -> Real
        decreases n,
    {
        if n == 0 {
            Real::neg_infinity()
        } else {
            self.depth_max((n - 1) as nat).max(self.depth_of(n - 1))
        }
    }

    /// The grey level that displays the depth of the `i`-th pixel: the depth
    /// is mapped from the range of depths found in the buffer to 0..255.
    pub open spec fn gray(self, i: int) -> u32 {
        self.depth_of(i).remap_spec(
            self.depth_min(self.pixels()),
            self.depth_max(self.pixels()),
            Real::zero(),
            Real::from_int_spec(255),
        ).to_u32()
    }

    /// The packed colour that displays the `i`-th pixel in row-major order.
    pub open spec fn packed_pixel(self, i: int, show_depth: bool) -> u32 {
        if show_depth {
            pack_rgb(self.gray(i), self.gray(i), self.gray(i))
        } else {
            pack_rgb(
                channel_byte(self.data[i * self.depth]),
                channel_byte(self.data[i * self.depth + 1]),
                channel_byte(self.data[i * self.depth + 2]),
            )
        }
    }

    /// Whether the buffer has the channels that the display conversion reads:
    /// three for colour, four for depth.
    pub open spec fn displayable(self, show_depth: bool) -> bool {
        if show_depth {
            self.depth > DEPTH_CHANNEL
        } else {
            self.depth >= 3
        }
    }
}

/// Every channel of every pixel lies inside the data.
pub proof fn lemma_index_in_bounds(w: nat, h: nat, d: nat, x: int, y: int, c: int)
    requires
        0 <= x < w,
        0 <= y < h,
        0 <= c < d,
    ensures
        0 <= y * w + x < w * h,
        0 <= (y * w + x) * d + c < w * h * d,
        (y * w + x) * d + d <= w * h * d,
{
    assert(0 <= y * w + x < w * h && 0 <= (y * w + x) * d + c < w * h * d && (y * w + x) * d + d
        <= w * h * d) by (nonlinear_arith)
        requires
            0 <= x < w,
            0 <= y < h,
            0 <= c < d,
    ;
}

/// Every channel of the `i`-th pixel lies inside the data.
pub proof fn lemma_pixel_in_bounds(n: nat, d: nat, i: int, c: int)
    requires
        0 <= i < n,
        0 <= c < d,
    ensures
        0 <= i * d + c < n * d,
{
    assert(0 <= i * d + c < n * d) by (nonlinear_arith)
        requires
            0 <= i < n,
            0 <= c < d,
    ;
}

/// Distinct pixels occupy disjoint stretches of the data.
pub proof fn lemma_pixels_disjoint(w: nat, d: nat, x1: int, y1: int, x2: int, y2: int)
    requires
        0 <= x1 < w,
        0 <= x2 < w,
        0 <= y1,
        0 <= y2,
        x1 != x2 || y1 != y2,
    ensures
        (y1 * w + x1) * d + d <= (y2 * w + x2) * d || (y2 * w + x2) * d + d <= (y1 * w + x1) * d,
{
    assert(y1 * w + x1 != y2 * w + x2) by (nonlinear_arith)
        requires
            0 <= x1 < w,
            0 <= x2 < w,
            0 <= y1,
            0 <= y2,
            x1 != x2 || y1 != y2,
    ;
    let p = y1 * w + x1;
    let q = y2 * w + x2;
    assert(p * d + d <= q * d || q * d + d <= p * d) by (nonlinear_arith)
        requires
            p != q,
            d >= 0,
    ;
}

/// The byte of a colour channel is what the closed formula says, and fits in
/// eight bits.
pub proof fn lemma_channel_byte(c: Real)
    ensures
        channel_byte(c) <= 255,
        c.raw <= 0 ==> channel_byte(c) == 0,
        c.raw >= ONE_RAW ==> channel_byte(c) == 255,
        0 <= c.raw <= ONE_RAW ==> channel_byte(c) == (c.raw * 255 + 0x8000_0000) / 0x1_0000_0000,
{
    let k = c.clamp(Real::zero(), Real::one()).raw as int;
    let p = k * (255 * 0x1_0000_0000);
    assert(p == (k * 255) * 0x1_0000_0000) by (nonlinear_arith)
        requires
            p == k * (255 * 0x1_0000_0000),
    ;
    vstd::arithmetic::div_mod::lemma_div_multiples_vanish(k * 255, 0x1_0000_0000);
}

/// The depth range found among the first `n` pixels encloses the depth of each of them.
pub proof fn lemma_depth_range(b: BufferView, n: nat, i: int)
    requires
        0 <= i < n,
    ensures
        b.depth_min(n).raw <= b.depth_of(i).raw <= b.depth_max(n).raw,
    decreases n,
{
    if i < n - 1 {
        lemma_depth_range(b, (n - 1) as nat, i);
    }
}

/// A grey level fits in eight bits.
pub proof fn lemma_gray_is_byte(b: BufferView, i: int)
    requires
        0 <= i < b.pixels(),
    ensures
        b.gray(i) <= 255,
{
    let lo = b.depth_min(b.pixels());
    let hi = b.depth_max(b.pixels());
    let v = b.depth_of(i);
    lemma_depth_range(b, b.pixels(), i);
    let n = v.sub(lo).raw as int;
    let d = hi.sub(lo).raw as int;
    let scale = Real::from_int_spec(255).sub(Real::zero());
    if d > 0 {
        assert(0 <= n * scale.raw <= d * scale.raw) by (nonlinear_arith)
            requires
                0 <= n <= d,
                scale.raw == 255 * 0x1_0000_0000,
        ;
        vstd::arithmetic::div_mod::lemma_div_is_ordered(n * scale.raw, d * scale.raw, d);
        vstd::arithmetic::div_mod::lemma_div_is_ordered(0, n * scale.raw, d);
        vstd::arithmetic::div_mod::lemma_div_multiples_vanish(scale.raw as int, d);
        assert(d * scale.raw == scale.raw * d) by (nonlinear_arith);
    } else {
        assert(n * scale.raw == 0) by (nonlinear_arith)
            requires
                n == 0,
        ;
    }
}

/// Packing three bytes arithmetically is packing them by shifts.
pub proof fn lemma_pack_rgb(r: u32, g: u32, b: u32)
    requires
        r <= 255,
        g <= 255,
        b <= 255,
    ensures
        pack_rgb(r, g, b) == (r << 16) | (g << 8) | b,
        pack_rgb(r, g, b) <= 0xff_ffff,
{
    assert((r << 16) | (g << 8) | b == (r * 65536 + g * 256 + b) as u32) by (bit_vector)
        requires
            r <= 255,
            g <= 255,
            b <= 255,
    ;
}

/// A write leaves the dimensions alone, and a well-formed buffer well-formed.
pub proof fn lemma_set_pixel_shape(b: BufferView, x: int, y: int, value: Seq<Real>)
    ensures
        b.set_pixel(x, y, value).width == b.width,
        b.set_pixel(x, y, value).height == b.height,
        b.set_pixel(x, y, value).depth == b.depth,
        b.set_pixel(x, y, value).data.len() == b.data.len(),
        b.wf() ==> b.set_pixel(x, y, value).wf(),
{
}

/// A sequence of writes leaves the dimensions alone, and a well-formed buffer well-formed.
pub proof fn lemma_apply_shape(b: BufferView, writes: Seq<PixelWrite>)
    ensures
        b.apply(writes).width == b.width,
        b.apply(writes).height == b.height,
        b.apply(writes).depth == b.depth,
        b.apply(writes).data.len() == b.data.len(),
        b.wf() ==> b.apply(writes).wf(),
    decreases writes.len(),
{
    if writes.len() > 0 {
        lemma_apply_shape(b, writes.drop_last());
        let w = writes.last();
        lemma_set_pixel_shape(b.apply(writes.drop_last()), w.x, w.y, w.value);
    }
}

/// Offering one more write after a sequence is applying the longer sequence.
pub proof fn lemma_apply_push(b: BufferView, writes: Seq<PixelWrite>, w: PixelWrite)
    ensures
        b.apply(writes.push(w)) == b.apply(writes).set_pixel(w.x, w.y, w.value),
{
    assert(writes.push(w).drop_last() =~= writes);
}

/// Applying two sequences one after the other is applying their concatenation.
pub proof fn lemma_apply_concat(b: BufferView, first: Seq<PixelWrite>, second: Seq<PixelWrite>)
    ensures
        b.apply(first + second) == b.apply(first).apply(second),
    decreases second.len(),
{
    if second.len() > 0 {
        lemma_apply_concat(b, first, second.drop_last());
        assert((first + second).drop_last() =~= first + second.drop_last());
    }
}

} // verus!

verus! {

/// A framebuffer of `width` by `height` pixels with `depth` channels each.
pub struct Buffer {
    data: Vec<Real>,
    width: usize,
    height: usize,
    depth: usize,
}

impl View for Buffer {
    type V = BufferView;

    closed spec fn view(&self) -> BufferView {
        BufferView {
            width: self.width as nat,
            height: self.height as nat,
            depth: self.depth as nat,
            data: if self.data@.len() == self.width * self.height * self.depth {
                self.data@
            } else {
                Seq::new((self.width * self.height * self.depth) as nat, |i: int| Real::zero())
            },
        }
    }
}

impl Buffer {
    #[verifier::type_invariant]
    spec fn inv(&self) -> bool {
        self.data@.len() == self.width * self.height * self.depth
    }

    /// The content of a framebuffer is always well-formed.
    pub proof fn lemma_wf(&self)
        ensures
            self@.wf(),
    {
    }

    /// Makes a buffer with every channel zero.
    pub fn new(width: usize, height: usize, depth: usize) -> (r: Buffer)
        requires
            width * height * depth <= usize::MAX,
        ensures
            r@ == BufferView::zeroed(width as nat, height as nat, depth as nat),
            r@.wf(),
    {
        let len: usize = if width == 0 || height == 0 || depth == 0 {
            assert(width * height * depth == 0) by (nonlinear_arith)
                requires
                    width == 0 || height == 0 || depth == 0,
            ;
            0
        } else {
            assert(width * height <= width * height * depth) by (nonlinear_arith)
                requires
                    depth >= 1,
                    width >= 0,
                    height >= 0,
            ;
            width * height * depth
        };
        let mut data: Vec<Real> = Vec::new();
        let mut i: usize = 0;
        while i < len
            invariant
                i <= len,
                data@.len() == i,
                forall|j: int| 0 <= j < i ==> data@[j] == Real::zero(),
            decreases len - i,
        {
            data.push(Real::zero());
            i += 1;
        }
        let r = Buffer { data, width, height, depth };
        assert(r@.data =~= BufferView::zeroed(width as nat, height as nat, depth as nat).data);
        r
    }

    /// Number of pixel columns.
    pub fn width(&self) -> (r: usize)
        ensures
            r == self@.width,
            self@.wf(),
    {
        proof {
            use_type_invariant(self);
        }
        self.width
    }

    /// Number of pixel rows.
    pub fn height(&self) -> (r: usize)
        ensures
            r == self@.height,
            self@.wf(),
    {
        proof {
            use_type_invariant(self);
        }
        self.height
    }

    /// Number of channels per pixel.
    pub fn depth(&self) -> (r: usize)
        ensures
            r == self@.depth,
            self@.wf(),
    {
        proof {
            use_type_invariant(self);
        }
        self.depth
    }

    /// Reads all channels of the pixel at column `x`, row `y`.
    pub fn pixel(&self, x: usize, y: usize) -> (r: Vec<Real>)
        requires
            x < self@.width,
            y < self@.height,
        ensures
            r@ == self@.pixel(x as int, y as int),
    {
        proof {
            use_type_invariant(self);
        }
        let mut r: Vec<Real> = Vec::new();
        if self.depth == 0 {
            return r;
        }
        proof {
            lemma_index_in_bounds(
                self.width as nat,
                self.height as nat,
                self.depth as nat,
                x as int,
                y as int,
                0,
            );
            assert(self.width * self.height <= self.width * self.height * self.depth && 0 <= y
                * self.width) by (nonlinear_arith)
                requires
                    self.depth >= 1,
            ;
        }
        assert(self.data.len() == self.data@.len());
        let base: usize = (y * self.width + x) * self.depth;
        let mut i: usize = 0;
        while i < self.depth
            invariant
                i <= self.depth,
                base + self.depth <= self.data@.len() <= usize::MAX,
                r@ == self.data@.subrange(base as int, base + i),
            decreases self.depth - i,
        {
            r.push(self.data[base + i]);
            i += 1;
        }
        r
    }

    /// Resets every channel of every pixel to the unwritten value.
    pub fn clear(&mut self)
        ensures
            final(self)@ == old(self)@.cleared(),
            final(self)@.wf(),
    {
        proof {
            use_type_invariant(&*self);
        }
        let len: usize = self.data.len();
        let mut i: usize = 0;
        while i < len
            invariant
                i <= len,
                self.data@.len() == len,
                self.width == old(self).width,
                self.height == old(self).height,
                self.depth == old(self).depth,
                len == self.width * self.height * self.depth,
                forall|j: int| 0 <= j < i ==> self.data@[j] == (Real { raw: UNWRITTEN_RAW }),
            decreases len - i,
        {
            self.data[i] = Real { raw: UNWRITTEN_RAW };
            i += 1;
        }
        assert(self@.data =~= old(self)@.cleared().data);
    }

    /// Offers `value` to the pixel at column `x`, row `y`. In a buffer with
    /// a depth channel the value replaces the pixel only where its depth is
    /// strictly greater than the stored one; a write that loses the test is
    /// no error. A value with another number of channels than the buffer is
    /// refused.
    pub fn set_pixel(&mut self, x: usize, y: usize, value: &[Real]) -> (r: Result<
        (),
        BufferError,
    >)
        requires
            x < old(self)@.width,
            y < old(self)@.height,
        ensures
            value@.len() != old(self)@.depth ==> r == Err::<(), BufferError>(
                BufferError::SizeMismatch,
            ),
            value@.len() == old(self)@.depth ==> r == Ok::<(), BufferError>(()),
            final(self)@ == old(self)@.set_pixel(x as int, y as int, value@),
            final(self)@.wf(),
    {
        proof {
            use_type_invariant(&*self);
        }
        if self.depth != value.len() {
            return Err(BufferError::SizeMismatch);
        }
        if self.depth == 0 {
            assert(self@.data =~= old(self)@.set_pixel(x as int, y as int, value@).data);
            return Ok(());
        }
        proof {
            lemma_index_in_bounds(
                self.width as nat,
                self.height as nat,
                self.depth as nat,
                x as int,
                y as int,
                0,
            );
            assert(self.width * self.height <= self.width * self.height * self.depth
                && 0 <= y * self.width) by (nonlinear_arith)
                requires
                    self.depth >= 1,
            ;
        }
        assert(self.data.len() == self.data@.len());
        let base: usize = (y * self.width + x) * self.depth;
        if self.depth > DEPTH_CHANNEL && !(self.data[base + DEPTH_CHANNEL].raw
            < value[DEPTH_CHANNEL].raw) {
            return Ok(());
        }
        let depth: usize = self.depth;
        let mut i: usize = 0;
        while i < depth
            invariant
                i <= depth,
                depth == self.depth,
                value@.len() == depth,
                base + depth <= self.data@.len() <= usize::MAX,
                self.data@.len() == old(self).data@.len(),
                self.width == old(self).width,
                self.height == old(self).height,
                self.depth == old(self).depth,
                self.data@.len() == self.width * self.height * self.depth,
                forall|j: int|
                    0 <= j < self.data@.len() ==> self.data@[j] == if base <= j < base + i {
                        value@[j - base]
                    } else {
                        old(self).data@[j]
                    },
            decreases depth - i,
        {
            self.data[base + i] = value[i];
            i += 1;
        }
        assert(self@.data =~= old(self)@.set_pixel(x as int, y as int, value@).data);
        Ok(())
    }

    /// The smallest and the largest depth stored in the buffer.
    fn depth_range(&self) -> (r: (Real, Real))
        requires
            self@.depth > DEPTH_CHANNEL,
        ensures
            r.0 == self@.depth_min(self@.pixels()),
            r.1 == self@.depth_max(self@.pixels()),
    {
        proof {
            use_type_invariant(self);
            assert(self.width * self.height <= self.width * self.height * self.depth)
                by (nonlinear_arith)
                requires
                    self.depth >= 1,
            ;
        }
        assert(self.data.len() == self.data@.len());
        let pixels: usize = self.width * self.height;
        let mut lo: Real = Real::infinity();
        let mut hi: Real = Real::neg_infinity();
        let mut i: usize = 0;
        while i < pixels
            invariant
                i <= pixels,
                pixels == self.width * self.height,
                self.depth > DEPTH_CHANNEL,
                self.data@.len() == pixels * self.depth,
                self.data@.len() <= usize::MAX,
                lo == self@.depth_min(i as nat),
                hi == self@.depth_max(i as nat),
            decreases pixels - i,
        {
            proof {
                lemma_pixel_in_bounds(
                    pixels as nat,
                    self.depth as nat,
                    i as int,
                    DEPTH_CHANNEL as int,
                );
                assert(0 <= i * self.depth) by (nonlinear_arith);
            }
            let d: Real = self.data[i * self.depth + DEPTH_CHANNEL];
            lo = lo.min(d);
            hi = hi.max(d);
            i += 1;
        }
        (lo, hi)
    }

    /// Converts every pixel to a packed 24-bit colour `0xRRGGBB`, in
    /// row-major order. With `depth` false the first three channels are
    /// shown as red, green and blue; with `depth` true the depth channel is
    /// shown as a grey level. Entries of `window_buffer` beyond the pixel
    /// count are left alone. A buffer with fewer than three channels, or with
    /// fewer than four where the depth is to be shown, is refused.
    pub fn fill_window_buffer(&self, window_buffer: &mut [u32], depth: bool) -> (r: Result<
        (),
        BufferError,
    >)
        requires
            old(window_buffer)@.len() >= self@.pixels(),
        ensures
            self@.wf(),
            final(window_buffer)@.len() == old(window_buffer)@.len(),
            !self@.displayable(depth) ==> r == Err::<(), BufferError>(BufferError::DepthTooSmall)
                && final(window_buffer)@ == old(window_buffer)@,
            self@.displayable(depth) ==> r == Ok::<(), BufferError>(()),
            self@.displayable(depth) ==> forall|i: int|
                0 <= i < self@.pixels() ==> #[trigger] final(window_buffer)@[i]
                    == self@.packed_pixel(i, depth),
            self@.displayable(depth) ==> forall|i: int|
                self@.pixels() <= i < old(window_buffer)@.len()
                    ==> #[trigger] final(window_buffer)@[i] == old(window_buffer)@[i],
    {
        proof {
            use_type_invariant(self);
        }
        if self.depth < 3 || (depth && self.depth <= DEPTH_CHANNEL) {
            return Err(BufferError::DepthTooSmall);
        }
        proof {
            assert(self.width * self.height <= self.width * self.height * self.depth)
                by (nonlinear_arith)
                requires
                    self.depth >= 1,
            ;
        }
        assert(self.data.len() == self.data@.len());
        let pixels: usize = self.width * self.height;
        let range: (Real, Real) = if depth {
            self.depth_range()
        } else {
            (Real::zero(), Real::zero())
        };
        let mut i: usize = 0;
        while i < pixels
            invariant
                i <= pixels,
                pixels == self.width * self.height,
                self@.displayable(depth),
                self.depth >= 3,
                self.data@.len() == pixels * self.depth,
                self.data@.len() <= usize::MAX,
                window_buffer@.len() == old(window_buffer)@.len(),
                window_buffer@.len() >= pixels,
                depth ==> range.0 == self@.depth_min(self@.pixels()) && range.1
                    == self@.depth_max(self@.pixels()),
                forall|j: int|
                    0 <= j < i ==> #[trigger] window_buffer@[j] == self@.packed_pixel(j, depth),
                forall|j: int|
                    i <= j < window_buffer@.len()
                        ==> #[trigger] window_buffer@[j] == old(window_buffer)@[j],
            decreases pixels - i,
        {
            proof {
                lemma_pixel_in_bounds(pixels as nat, self.depth as nat, i as int, 2);
                assert(0 <= i * self.depth) by (nonlinear_arith);
            }
            let base: usize = i * self.depth;
            let packed: u32 = if depth {
                proof {
                    lemma_pixel_in_bounds(
                        pixels as nat,
                        self.depth as nat,
                        i as int,
                        DEPTH_CHANNEL as int,
                    );
                    lemma_gray_is_byte(self@, i as int);
                }
                let g: u32 = self.data[base + DEPTH_CHANNEL].remap(
                    range.0,
                    range.1,
                    Real::zero(),
                    Real::from_int(255),
                ).to_u32();
                proof {
                    lemma_pack_rgb(g, g, g);
                }
                g << 16 | g << 8 | g
            } else {
                let r: u32 = channel_to_byte(self.data[base]);
                let g: u32 = channel_to_byte(self.data[base + 1]);
                let b: u32 = channel_to_byte(self.data[base + 2]);
                proof {
                    lemma_pack_rgb(r, g, b);
                }
                r << 16 | g << 8 | b
            };
            window_buffer[i] = packed;
            i += 1;
        }
        Ok(())
    }
}

/// The byte that displays a colour channel.
pub fn channel_to_byte(c: Real) -> (r: u32)
    ensures
        r == channel_byte(c),
        r <= 255,
{
    proof {
        lemma_channel_byte(c);
    }
    let scaled: Real = c.clamp(Real::zero(), Real::one()).mul(Real::from_int(255));
    let whole: i64 = scaled.round();
    whole as u32
}

} // verus!

verus! {

impl BufferView {
    /// The write names a pixel of the buffer and has one value per channel.
    pub open spec fn admits(self, w: PixelWrite) -> bool {
        self.contains(w.x, w.y) && w.value.len() == self.depth
    }

    /// Every write of the sequence is admitted.
    pub open spec fn admits_all(self, writes: Seq<PixelWrite>) -> bool {
        forall|i: int| 0 <= i < writes.len() ==> self.admits(#[trigger] writes[i])
    }
}

/// Two writes do not compete: they go to different pixels or carry different depths.
pub open spec fn distinct_depths(a: PixelWrite, b: PixelWrite) -> bool {
    a.x == b.x && a.y == b.y ==> a.value[DEPTH_CHANNEL as int] != b.value[DEPTH_CHANNEL as int]
}

/// No write of the first sequence competes with a write of the second.
pub open spec fn independent(first: Seq<PixelWrite>, second: Seq<PixelWrite>) -> bool {
    forall|i: int, j: int|
        0 <= i < first.len() && 0 <= j < second.len() ==> distinct_depths(
            #[trigger] first[i],
            #[trigger] second[j],
        )
}

/// A write changes no pixel but its own, and leaves there the value with the
/// greater depth: the stored one unless the offered depth is strictly greater.
pub proof fn lemma_set_pixel_effect(b: BufferView, w: PixelWrite, x: int, y: int, c: int)
    requires
        b.wf(),
        b.admits(w),
        b.contains(x, y),
        0 <= c < b.depth,
    ensures
        b.set_pixel(w.x, w.y, w.value).channel(x, y, c) == if x == w.x && y == w.y && b.accepts(
            w.x,
            w.y,
            w.value,
        ) {
            w.value[c]
        } else {
            b.channel(x, y, c)
        },
{
    lemma_index_in_bounds(b.width, b.height, b.depth, x, y, c);
    lemma_index_in_bounds(b.width, b.height, b.depth, w.x, w.y, c);
    if x != w.x || y != w.y {
        lemma_pixels_disjoint(b.width, b.depth, x, y, w.x, w.y);
    }
}

/// After a write the stored depth is the greater of the depth stored before
/// and the depth offered.
pub proof fn lemma_depth_is_maximum(b: BufferView, w: PixelWrite)
    requires
        b.wf(),
        b.depth > DEPTH_CHANNEL,
        b.admits(w),
    ensures
        b.set_pixel(w.x, w.y, w.value).depth_at(w.x, w.y) == b.depth_at(w.x, w.y).max(
            w.value[DEPTH_CHANNEL as int],
        ),
{
    lemma_set_pixel_effect(b, w, w.x, w.y, DEPTH_CHANNEL as int);
}

/// Two buffers of one shape that agree on every channel of every pixel are equal.
pub proof fn lemma_equal_by_channels(a: BufferView, b: BufferView)
    requires
        a.wf(),
        b.wf(),
        a.width == b.width,
        a.height == b.height,
        a.depth == b.depth,
        forall|x: int, y: int, c: int|
            a.contains(x, y) && 0 <= c < a.depth ==> #[trigger] a.channel(x, y, c) == b.channel(
                x,
                y,
                c,
            ),
    ensures
        a == b,
{
    assert forall|i: int| 0 <= i < a.data.len() implies a.data[i] == b.data[i] by {
        let d = a.depth as int;
        let w = a.width as int;
        assert(d > 0 && w > 0) by (nonlinear_arith)
            requires
                0 <= i < w * a.height * d,
                d >= 0,
                w >= 0,
                a.height >= 0,
        ;
        let p = i / d;
        let c = i % d;
        let y = p / w;
        let x = p % w;
        vstd::arithmetic::div_mod::lemma_fundamental_div_mod(i, d);
        vstd::arithmetic::div_mod::lemma_fundamental_div_mod(p, w);
        vstd::arithmetic::div_mod::lemma_mod_bound(i, d);
        vstd::arithmetic::div_mod::lemma_mod_bound(p, w);
        assert(0 <= y < a.height) by (nonlinear_arith)
            requires
                0 <= i < w * a.height * d,
                i == d * p + c,
                p == w * y + x,
                0 <= c < d,
                0 <= x < w,
        ;
        assert((y * w + x) * d + c == i) by (nonlinear_arith)
            requires
                i == d * p + c,
                p == w * y + x,
        ;
        assert(a.channel(x, y, c) == b.channel(x, y, c));
    }
    assert(a.data =~= b.data);
}

/// Two writes that do not compete may be offered in either order.
pub proof fn lemma_set_pixel_commutes(b: BufferView, w1: PixelWrite, w2: PixelWrite)
    requires
        b.wf(),
        b.depth > DEPTH_CHANNEL,
        b.admits(w1),
        b.admits(w2),
        distinct_depths(w1, w2),
    ensures
        b.set_pixel(w1.x, w1.y, w1.value).set_pixel(w2.x, w2.y, w2.value) == b.set_pixel(
            w2.x,
            w2.y,
            w2.value,
        ).set_pixel(w1.x, w1.y, w1.value),
{
    let b1 = b.set_pixel(w1.x, w1.y, w1.value);
    let b2 = b.set_pixel(w2.x, w2.y, w2.value);
    let b12 = b1.set_pixel(w2.x, w2.y, w2.value);
    let b21 = b2.set_pixel(w1.x, w1.y, w1.value);
    lemma_set_pixel_shape(b, w1.x, w1.y, w1.value);
    lemma_set_pixel_shape(b, w2.x, w2.y, w2.value);
    lemma_set_pixel_shape(b1, w2.x, w2.y, w2.value);
    lemma_set_pixel_shape(b2, w1.x, w1.y, w1.value);
    lemma_set_pixel_effect(b, w1, w2.x, w2.y, DEPTH_CHANNEL as int);
    lemma_set_pixel_effect(b, w2, w1.x, w1.y, DEPTH_CHANNEL as int);
    assert forall|x: int, y: int, c: int| b12.contains(x, y) && 0 <= c < b12.depth implies (
    #[trigger] b12.channel(x, y, c)) == b21.channel(x, y, c) by {
        lemma_set_pixel_effect(b, w1, x, y, c);
        lemma_set_pixel_effect(b, w2, x, y, c);
        lemma_set_pixel_effect(b1, w2, x, y, c);
        lemma_set_pixel_effect(b2, w1, x, y, c);
    }
    lemma_equal_by_channels(b12, b21);
}

/// A write that competes with none of a sequence may be offered before or
/// after the sequence.
pub proof fn lemma_write_passes(b: BufferView, w: PixelWrite, writes: Seq<PixelWrite>)
    requires
        b.wf(),
        b.depth > DEPTH_CHANNEL,
        b.admits(w),
        b.admits_all(writes),
        independent(seq![w], writes),
    ensures
        b.set_pixel(w.x, w.y, w.value).apply(writes) == b.apply(writes).set_pixel(
            w.x,
            w.y,
            w.value,
        ),
    decreases writes.len(),
{
    if writes.len() > 0 {
        let rest = writes.drop_last();
        let last = writes.last();
        assert(independent(seq![w], rest));
        assert(b.admits_all(rest));
        lemma_write_passes(b, w, rest);
        lemma_apply_shape(b, rest);
        assert(distinct_depths(seq![w][0], writes[writes.len() - 1]));
        lemma_set_pixel_commutes(b.apply(rest), w, last);
    }
}

/// Depth resolution does not depend on the order of drawing: two sequences
/// of writes of which none competes with one of the other leave the same
/// buffer whichever is applied first.
pub proof fn lemma_apply_commutes(b: BufferView, first: Seq<PixelWrite>, second: Seq<PixelWrite>)
    requires
        b.wf(),
        b.depth > DEPTH_CHANNEL,
        b.admits_all(first),
        b.admits_all(second),
        independent(first, second),
    ensures
        b.apply(first).apply(second) == b.apply(second).apply(first),
    decreases first.len(),
{
    if first.len() > 0 {
        let rest = first.drop_last();
        let last = first.last();
        assert(independent(rest, second));
        assert(b.admits_all(rest));
        assert(independent(seq![last], second));
        lemma_apply_commutes(b, rest, second);
        lemma_apply_shape(b, rest);
        lemma_write_passes(b.apply(rest), last, second);
    }
}

/// Of two writes to one pixel with equal depths only the first can take effect.
pub proof fn lemma_tie_keeps_first(b: BufferView, first: PixelWrite, second: PixelWrite)
    requires
        b.wf(),
        b.depth > DEPTH_CHANNEL,
        b.admits(first),
        b.admits(second),
        first.x == second.x,
        first.y == second.y,
        first.value[DEPTH_CHANNEL as int] == second.value[DEPTH_CHANNEL as int],
    ensures
        b.set_pixel(first.x, first.y, first.value).set_pixel(second.x, second.y, second.value)
            == b.set_pixel(first.x, first.y, first.value),
{
    lemma_set_pixel_shape(b, first.x, first.y, first.value);
    lemma_depth_is_maximum(b, first);
}

/// A buffer that was cleared and not written since shows black everywhere.
pub proof fn lemma_cleared_is_black(b: BufferView, i: int)
    requires
        b.wf(),
        b.depth >= 3,
        0 <= i < b.pixels(),
    ensures
        b.cleared().packed_pixel(i, false) == 0,
{
    lemma_pixel_in_bounds(b.pixels(), b.depth, i, 0);
    lemma_pixel_in_bounds(b.pixels(), b.depth, i, 1);
    lemma_pixel_in_bounds(b.pixels(), b.depth, i, 2);
    lemma_channel_byte(Real { raw: UNWRITTEN_RAW });
}

} // verus!
