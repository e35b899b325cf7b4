//! Frames: the pixels of a panel, packed row by row into bytes.

use vstd::prelude::*;
use crate::color::{ColorModel, ColorSample};

verus! {

/// Number of bytes that hold `width * height` samples of `bits_per_pixel`
/// bits each, packed without gaps: the bits divided by eight, rounded up.
pub open spec fn spec_buffer_len(width: nat, height: nat, bits_per_pixel: nat) -> nat {
    (width * height * bits_per_pixel + 7) / 8
}

/// Number of bytes in the frame of a panel of `width` by `height` pixels
/// of `bits_per_pixel` bits each: the least number of bytes that hold all
/// the bits.
pub fn buffer_len(width: u32, height: u32, bits_per_pixel: u8) -> (len: u64)
    requires
        bits_per_pixel <= 8,
    ensures
        len == spec_buffer_len(width as nat, height as nat, bits_per_pixel as nat),
        8 * len >= width * height * bits_per_pixel > 8 * len - 8,
{
    assert(width * height * bits_per_pixel <= 0xffff_ffff * 0xffff_ffff * 8) by (nonlinear_arith)
        requires
            width <= 0xffff_ffff,
            height <= 0xffff_ffff,
            bits_per_pixel <= 8,
    ;
    assert(width * height <= 0xffff_ffff * 0xffff_ffff) by (nonlinear_arith)
        requires
            width <= 0xffff_ffff,
            height <= 0xffff_ffff,
    ;
    let bits: u128 = (width as u128) * (height as u128) * (bits_per_pixel as u128);
    ((bits + 7) / 8) as u64
}

/// What a frame stands for: its size in pixels, its color model and its
/// bytes.
pub struct FrameView {
    pub width: nat,
    pub height: nat,
    pub model: ColorModel,
    pub bytes: Seq<u8>,
}

impl FrameView {
    /// Whether the frame has a pixel at column `x` of row `y`.
    pub open spec fn contains(self, x: nat, y: nat) -> bool {
        x < self.width && y < self.height
    }

    /// The position of a pixel in row-major order.
    pub open spec fn index(self, x: nat, y: nat) -> nat {
        y * self.width + x
    }

    /// The position of the byte that holds a pixel.
    pub open spec fn byte_of(self, x: nat, y: nat) -> nat {
        self.index(x, y) / self.model.spec_slots()
    }

    /// The slot that a pixel takes in its byte.
    pub open spec fn slot_of(self, x: nat, y: nat) -> nat {
        self.index(x, y) % self.model.spec_slots()
    }

    /// The sample of a pixel; none outside the frame.
    pub open spec fn pixel(self, x: nat, y: nat) -> Option<ColorSample> {
        if self.contains(x, y) {
            self.model.spec_sample_at(self.bytes[self.byte_of(x, y) as int], self.slot_of(x, y))
        } else {
            None
        }
    }

    /// The frame with one pixel set to a sample.
    pub open spec fn with_pixel(self, x: nat, y: nat, sample: ColorSample) -> FrameView {
        FrameView {
            bytes: self.bytes.update(
                self.byte_of(x, y) as int,
                self.model.spec_replace(self.bytes[self.byte_of(x, y) as int], self.slot_of(x, y), sample)->0,
            ),
            ..self
        }
    }

    /// The frame with every pixel set to a sample.
    pub open spec fn cleared(self, sample: ColorSample) -> FrameView {
        FrameView {
            bytes: Seq::new(self.bytes.len(), |i: int| self.model.spec_fill_byte(sample)->0),
            ..self
        }
    }

    /// What holds of every frame: it has as many bytes as its pixels take,
    /// and every slot of every byte holds a sample of the model.
    pub open spec fn wf(self) -> bool {
        &&& self.bytes.len() == spec_buffer_len(self.width, self.height, self.model.spec_bits())
        &&& forall|i: int, slot: nat|
            0 <= i < self.bytes.len() && slot < self.model.spec_slots() ==> (
            #[trigger] self.model.spec_sample_at(self.bytes[i], slot)) is Some
    }

    /// Every pixel of the frame lies in one of its bytes, and two pixels
    /// never share a slot.
    pub proof fn lemma_pixel_place(self, x: nat, y: nat)
        requires
            self.wf(),
            self.contains(x, y),
        ensures
            self.index(x, y) < self.width * self.height,
            self.byte_of(x, y) < self.bytes.len(),
            self.slot_of(x, y) < self.model.spec_slots(),
            forall|x2: nat, y2: nat|
                self.contains(x2, y2) && (x2 != x || y2 != y) ==> #[trigger] self.index(x2, y2) != self.index(
                    x,
                    y,
                ),
    {
        let slots = self.model.spec_slots();
        let bits = self.model.spec_bits();
        let pixels = self.width * self.height;
        let index = self.index(x, y);
        assert(index < pixels) by (nonlinear_arith)
            requires
                index == y * self.width + x,
                pixels == self.width * self.height,
                x < self.width,
                y < self.height,
        ;
        assert(index / slots < (pixels * bits + 7) / 8 && index % slots < slots) by (nonlinear_arith)
            requires
                index < pixels,
                (slots == 8 && bits == 1) || (slots == 4 && bits == 2) || (slots == 2 && bits == 4),
        ;
        assert forall|x2: nat, y2: nat| self.contains(x2, y2) && (x2 != x || y2 != y) implies #[trigger] self.index(
            x2,
            y2,
        ) != self.index(x, y) by {
            assert(y2 * self.width + x2 != y * self.width + x) by (nonlinear_arith)
                requires
                    x < self.width,
                    x2 < self.width,
                    x2 != x || y2 != y,
            ;
        }
    }

    /// Setting a pixel makes the frame show the sample there and leaves
    /// every other pixel as it was.
    pub proof fn lemma_with_pixel(self, x: nat, y: nat, sample: ColorSample)
        requires
            self.wf(),
            self.contains(x, y),
            self.model.admits(sample),
        ensures
            self.with_pixel(x, y, sample).wf(),
            self.with_pixel(x, y, sample).pixel(x, y) == Some(sample),
            forall|x2: nat, y2: nat|
                (x2 != x || y2 != y) ==> #[trigger] self.with_pixel(x, y, sample).pixel(x2, y2) == self.pixel(
                    x2,
                    y2,
                ),
    {
        let after = self.with_pixel(x, y, sample);
        let slots = self.model.spec_slots();
        let at = self.byte_of(x, y);
        let slot = self.slot_of(x, y);
        self.lemma_pixel_place(x, y);
        self.model.lemma_replace_sample_at(self.bytes[at as int], slot, sample);
        assert forall|i: int, s: nat| 0 <= i < after.bytes.len() && s < slots implies (
        #[trigger] after.model.spec_sample_at(after.bytes[i], s)) is Some by {
            if i == at {
                if s != slot {
                    assert(self.model.spec_sample_at(self.bytes[i], s) is Some);
                }
            } else {
                assert(self.model.spec_sample_at(self.bytes[i], s) is Some);
            }
        }
        assert forall|x2: nat, y2: nat| (x2 != x || y2 != y) implies #[trigger] after.pixel(x2, y2) == self.pixel(
            x2,
            y2,
        ) by {
            if self.contains(x2, y2) {
                self.lemma_pixel_place(x2, y2);
                let at2 = self.byte_of(x2, y2);
                let slot2 = self.slot_of(x2, y2);
                assert(self.index(x2, y2) != self.index(x, y));
                if at2 == at {
                    assert(slot2 != slot) by (nonlinear_arith)
                        requires
                            self.index(x2, y2) != self.index(x, y),
                            at2 == self.index(x2, y2) / slots,
                            at == self.index(x, y) / slots,
                            slot2 == self.index(x2, y2) % slots,
                            slot == self.index(x, y) % slots,
                            at2 == at,
                            slots > 0,
                    ;
                }
            }
        }
    }

    /// A cleared frame shows the sample at every pixel.
    pub proof fn lemma_cleared(self, sample: ColorSample)
        requires
            self.wf(),
            self.model.admits(sample),
        ensures
            self.cleared(sample).wf(),
            forall|x: nat, y: nat|
                self.contains(x, y) ==> #[trigger] self.cleared(sample).pixel(x, y) == Some(sample),
    {
        let after = self.cleared(sample);
        let slots = self.model.spec_slots();
        let copies = Seq::new(slots, |slot: int| sample);
        self.model.lemma_pack_unpack(copies);
        let fill = self.model.spec_fill_byte(sample)->0;
        assert forall|i: int, s: nat| 0 <= i < after.bytes.len() && s < slots implies (
        #[trigger] after.model.spec_sample_at(after.bytes[i], s)) is Some by {
            assert(self.model.spec_sample_at(fill, s) == Some(copies[s as int]));
        }
        assert forall|x: nat, y: nat| self.contains(x, y) implies #[trigger] after.pixel(x, y) == Some(
            sample,
        ) by {
            self.lemma_pixel_place(x, y);
            let s = self.slot_of(x, y);
            assert(self.model.spec_sample_at(fill, s) == Some(copies[s as int]));
        }
    }
}

/// The frame of a panel: one sample per pixel, packed row by row.
pub struct FrameBuffer {
    width: u32,
    height: u32,
    model: ColorModel,
    bytes: Vec<u8>,
}

impl View for FrameBuffer {
    type V = FrameView;

    closed spec fn view(&self) -> FrameView {
        FrameView {
            width: self.width as nat,
            height: self.height as nat,
            model: self.model,
            bytes: self.bytes@,
        }
    }
}

impl FrameBuffer {
    /// The invariant of a frame.
    pub open spec fn wf(&self) -> bool {
        self@.wf()
    }

    /// A frame of `width` by `height` pixels in the model of `background`,
    /// with every pixel set to `background`. There is none where
    /// `background` is no sample of its model, or the bytes of the frame
    /// are more than memory can address.
    pub fn new(width: u32, height: u32, background: ColorSample) -> (frame: Option<FrameBuffer>)
        ensures
            frame is Some <==> background.valid() && spec_buffer_len(
                width as nat,
                height as nat,
                background.model.spec_bits(),
            ) <= usize::MAX,
            frame matches Some(frame) ==> frame.wf() && frame@ == (FrameView {
                width: width as nat,
                height: height as nat,
                model: background.model,
                bytes: Seq::new(
                    spec_buffer_len(width as nat, height as nat, background.model.spec_bits()),
                    |i: int| background.model.spec_fill_byte(background)->0,
                ),
            }),
    {
        let model = background.model;
        let fill = match model.fill_byte(background) {
            Some(fill) => fill,
            None => {
                return None;
            },
        };
        let len = buffer_len(width, height, model.bits_per_sample());
        if len > usize::MAX as u64 {
            return None;
        }
        let mut bytes: Vec<u8> = Vec::new();
        let mut i: usize = 0;
        while i < len as usize
            invariant
                i <= len <= usize::MAX,
                bytes@ == Seq::new(i as nat, |k: int| fill),
            decreases len - i,
        {
            bytes.push(fill);
            i = i + 1;
            assert(bytes@ =~= Seq::new(i as nat, |k: int| fill));
        }
        let frame = FrameBuffer { width, height, model, bytes };
        proof {
            let blank = FrameView {
                width: width as nat,
                height: height as nat,
                model,
                bytes: Seq::new(len as nat, |k: int| 0u8),
            };
            assert(blank.cleared(background).bytes =~= frame@.bytes);
            lemma_blank_cleared(blank, background);
        }
        Some(frame)
    }

    /// Width of the frame in pixels.
    pub fn width(&self) -> (width: u32)
        ensures
            width == self@.width,
    {
        self.width
    }

    /// Height of the frame in pixels.
    pub fn height(&self) -> (height: u32)
        ensures
            height == self@.height,
    {
        self.height
    }

    /// The color model of the frame.
    pub fn model(&self) -> (model: ColorModel)
        ensures
            model == self@.model,
    {
        self.model
    }

    /// The bytes of the frame, as they go out to the panel.
    pub fn buffer(&self) -> (bytes: &[u8])
        ensures
            bytes@ == self@.bytes,
    {
        self.bytes.as_slice()
    }

    /// Where a pixel lies: the position of its byte and its slot there.
    fn locate(&self, x: u32, y: u32) -> (place: (usize, u8))
        requires
            self.wf(),
            self@.contains(x as nat, y as nat),
        ensures
            place.0 == self@.byte_of(x as nat, y as nat),
            place.1 == self@.slot_of(x as nat, y as nat),
            place.0 < self@.bytes.len(),
            place.1 < self@.model.spec_slots(),
    {
        proof {
            self@.lemma_pixel_place(x as nat, y as nat);
            assert(self.width * self.height <= 0xffff_ffff * 0xffff_ffff) by (nonlinear_arith)
                requires
                    self.width <= 0xffff_ffff,
                    self.height <= 0xffff_ffff,
            ;
            assert(y * self.width >= 0) by (nonlinear_arith)
                requires
                    y >= 0,
                    self.width >= 0,
            ;
        }
        let slots = self.model.samples_per_byte() as u64;
        let index: u64 = (y as u64) * (self.width as u64) + (x as u64);
        assert(index / slots < self.bytes.len() <= usize::MAX);
        ((index / slots) as usize, (index % slots) as u8)
    }

    /// Sets every pixel of the frame to a sample of the frame's model.
    /// Returns whether it did: a sample that is not one of the model
    /// leaves the frame as it is.
    pub fn clear(&mut self, sample: ColorSample) -> (cleared: bool)
        requires
            old(self).wf(),
        ensures
            final(self).wf(),
            cleared == old(self)@.model.admits(sample),
            cleared ==> final(self)@ == old(self)@.cleared(sample),
            !cleared ==> final(self)@ == old(self)@,
    {
        let fill = match self.model.fill_byte(sample) {
            Some(fill) => fill,
            None => {
                return false;
            },
        };
        proof {
            self.model.lemma_admitted_code(sample);
            assert(self.model.admits_all(Seq::new(self.model.spec_slots(), |slot: int| sample)));
        }
        let mut i: usize = 0;
        while i < self.bytes.len()
            invariant
                i <= self.bytes.len() == old(self).bytes.len(),
                self.width == old(self).width,
                self.height == old(self).height,
                self.model == old(self).model,
                forall|k: int| 0 <= k < i ==> self.bytes@[k] == fill,
            decreases self.bytes.len() - i,
        {
            self.bytes[i] = fill;
            i = i + 1;
        }
        proof {
            assert(final(self)@.bytes =~= old(self)@.cleared(sample).bytes);
            old(self)@.lemma_cleared(sample);
        }
        true
    }

    /// Sets the pixel at column `x` of row `y` to a sample of the frame's
    /// model. Returns whether it did: a pixel outside the frame, or a
    /// sample that is not one of the model, leaves the frame as it is.
    pub fn set_pixel(&mut self, x: u32, y: u32, sample: ColorSample) -> (set: bool)
        requires
            old(self).wf(),
        ensures
            final(self).wf(),
            set == (old(self)@.contains(x as nat, y as nat) && old(self)@.model.admits(sample)),
            set ==> final(self)@ == old(self)@.with_pixel(x as nat, y as nat, sample),
            !set ==> final(self)@ == old(self)@,
    {
        if x >= self.width || y >= self.height {
            return false;
        }
        let (at, slot) = self.locate(x, y);
        match self.model.replace(self.bytes[at], slot, sample) {
            None => false,
            Some(changed) => {
                self.bytes[at] = changed;
                proof {
                    assert(final(self)@.bytes =~= old(self)@.with_pixel(x as nat, y as nat, sample).bytes);
                    old(self)@.lemma_with_pixel(x as nat, y as nat, sample);
                }
                true
            },
        }
    }

    /// The sample of the pixel at column `x` of row `y`; none outside the
    /// frame.
    pub fn get_pixel(&self, x: u32, y: u32) -> (sample: Option<ColorSample>)
        requires
            self.wf(),
        ensures
            sample == self@.pixel(x as nat, y as nat),
            sample is Some <==> self@.contains(x as nat, y as nat),
    {
        if x >= self.width || y >= self.height {
            return None;
        }
        let (at, slot) = self.locate(x, y);
        self.model.sample_at(self.bytes[at], slot)
    }
}

/// A frame of the right length is well formed once it is cleared.
proof fn lemma_blank_cleared(blank: FrameView, sample: ColorSample)
    requires
        blank.bytes.len() == spec_buffer_len(blank.width, blank.height, blank.model.spec_bits()),
        blank.model.admits(sample),
    ensures
        blank.cleared(sample).wf(),
{
    let after = blank.cleared(sample);
    let slots = blank.model.spec_slots();
    let copies = Seq::new(slots, |slot: int| sample);
    blank.model.lemma_pack_unpack(copies);
    let fill = blank.model.spec_fill_byte(sample)->0;
    assert forall|i: int, s: nat| 0 <= i < after.bytes.len() && s < slots implies (
    #[trigger] after.model.spec_sample_at(after.bytes[i], s)) is Some by {
        assert(blank.model.spec_sample_at(fill, s) == Some(copies[s as int]));
    }
}

} // verus!
