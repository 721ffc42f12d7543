//! The APNG encoder: a state machine over an owned byte sink.
//!
//! An `Encoder` is created over image-wide parameters and appends, chunk
//! by chunk, a bit-exact APNG stream to the `Vec<u8>` it owns: the PNG
//! signature, `IHDR` and `acTL` at construction; an optional separate
//! default image as `IDAT`; one `fcTL` per animation frame followed by
//! `IDAT` (first frame without a separate default image) or `fdAT`; and
//! `IEND` at `finish`, which hands the sink back.
//!
//! Alongside the bytes the encoder carries a ghost history of the chunks
//! it has emitted; the well-formedness invariant ties the two together
//! and carries the stream-wide guarantees: sequence numbers are exactly
//! `0, 1, 2, …`, the `fcTL` count equals the frames written, and at most
//! one `IDAT` is ever emitted, never after an `fdAT`.

use vstd::prelude::*;
use vstd::arithmetic::div_mod::{
    lemma_div_is_ordered, lemma_div_multiples_vanish, lemma_fundamental_div_mod,
    lemma_fundamental_div_mod_converse, lemma_mod_multiples_basic,
};
use vstd::arithmetic::mul::lemma_mul_nonnegative;
use super::{BlendOperator, Color, Delay, DisposeOperator, Frame, Meta};
use super::chunks::{append_chunk, be16, be32, chunk_bytes, push_be16, push_be32, push_bytes};
use super::compress::{compress, zlib_of};
use super::errors::{ApngError, ApngResult};
use super::filters::{best_filter, filtered_data, infer_best_filter};
use super::validators::{color_ok, validate_color};

pub use super::filters::Filter;

verus! {

/// A sub-rectangle of the canvas, derived from a `Frame` at emit time.
/// `modified` is true iff the rectangle differs from the full canvas.
#[derive(Clone, Copy, Debug, Eq, PartialEq, Structural)]
pub struct Rectangle {
    pub height: u32,
    pub modified: bool,
    pub width: u32,
    pub x: u32,
    pub y: u32,
}

impl Rectangle {
    /// The column one past the right edge.
    pub open spec fn spec_right(self) -> int {
        self.x + self.width
    }

    /// The row one past the bottom edge.
    pub open spec fn spec_bottom(self) -> int {
        self.y + self.height
    }

    fn right(&self) -> (r: u64)
        ensures
            r == self.spec_right(),
    {
        self.x as u64 + self.width as u64
    }

    fn bottom(&self) -> (r: u64)
        ensures
            r == self.spec_bottom(),
    {
        self.y as u64 + self.height as u64
    }
}

/// The 8-byte PNG signature.
pub open spec fn png_signature() -> Seq<u8> {
    seq![0x89u8, 0x50u8, 0x4eu8, 0x47u8, 0x0du8, 0x0au8, 0x1au8, 0x0au8]
}

pub open spec fn ihdr_type() -> Seq<u8> {
    seq![0x49u8, 0x48u8, 0x44u8, 0x52u8]
}

pub open spec fn actl_type() -> Seq<u8> {
    seq![0x61u8, 0x63u8, 0x54u8, 0x4cu8]
}

pub open spec fn fctl_type() -> Seq<u8> {
    seq![0x66u8, 0x63u8, 0x54u8, 0x4cu8]
}

pub open spec fn idat_type() -> Seq<u8> {
    seq![0x49u8, 0x44u8, 0x41u8, 0x54u8]
}

pub open spec fn fdat_type() -> Seq<u8> {
    seq![0x66u8, 0x64u8, 0x41u8, 0x54u8]
}

pub open spec fn iend_type() -> Seq<u8> {
    seq![0x49u8, 0x45u8, 0x4eu8, 0x44u8]
}

/// The `IHDR` color-type byte: alpha bit 4, color bit 2, palette bit 1.
pub open spec fn color_type_byte(color: Color) -> u8 {
    match color {
        Color::Grayscale(_) => 0,
        Color::GrayscaleA(_) => 4,
        Color::RGB(_) => 2,
        Color::RGBA(_) => 6,
    }
}

/// The 13-byte `IHDR` payload: extents, bit depth, color type, and the
/// fixed compression, filter and interlace methods.
pub open spec fn ihdr_payload(meta: Meta) -> Seq<u8> {
    be32(meta.width) + be32(meta.height) + seq![
        meta.color.spec_bit_depth(),
        color_type_byte(meta.color),
        0u8,
        0u8,
        0u8,
    ]
}

/// The 8-byte `acTL` payload: frame count and play count (0 = infinite).
pub open spec fn actl_payload(meta: Meta) -> Seq<u8> {
    be32(meta.frames) + be32(
        match meta.plays {
            Some(p) => p,
            None => 0u32,
        },
    )
}

/// The dispose operator's wire value.
pub open spec fn dispose_byte(op: DisposeOperator) -> u8 {
    match op {
        DisposeOperator::NoDisposal => 0,
        DisposeOperator::Background => 1,
        DisposeOperator::Previous => 2,
    }
}

/// The blend operator's wire value.
pub open spec fn blend_byte(op: BlendOperator) -> u8 {
    match op {
        BlendOperator::Source => 0,
        BlendOperator::Over => 1,
    }
}

/// The frame passed by reference, as a value.
pub open spec fn frame_val(frame: Option<&Frame>) -> Option<Frame> {
    match frame {
        Some(f) => Some(*f),
        None => None,
    }
}

/// The rectangle a frame occupies: its own extents and origin where
/// given, else the full canvas.
pub open spec fn rect_for(meta: Meta, frame: Option<Frame>) -> Rectangle {
    let width = match frame {
        Some(f) => match f.width {
            Some(w) => w,
            None => meta.width,
        },
        None => meta.width,
    };
    let height = match frame {
        Some(f) => match f.height {
            Some(h) => h,
            None => meta.height,
        },
        None => meta.height,
    };
    let x = match frame {
        Some(f) => match f.x {
            Some(v) => v,
            None => 0u32,
        },
        None => 0u32,
    };
    let y = match frame {
        Some(f) => match f.y {
            Some(v) => v,
            None => 0u32,
        },
        None => 0u32,
    };
    Rectangle {
        width,
        height,
        x,
        y,
        modified: x != 0 || y != 0 || width != meta.width || height != meta.height,
    }
}

/// The delay a frame plays with; 0/0 where none is given.
pub open spec fn delay_for(frame: Option<Frame>) -> Delay {
    match frame {
        Some(f) => match f.delay {
            Some(d) => d,
            None => Delay { numerator: 0u16, denominator: 0u16 },
        },
        None => Delay { numerator: 0u16, denominator: 0u16 },
    }
}

/// The dispose operator of a frame; `NoDisposal` where none is given.
pub open spec fn dispose_for(frame: Option<Frame>) -> DisposeOperator {
    match frame {
        Some(f) => match f.dispose_operator {
            Some(op) => op,
            None => DisposeOperator::NoDisposal,
        },
        None => DisposeOperator::NoDisposal,
    }
}

/// The blend operator of a frame; `Source` where none is given.
pub open spec fn blend_for(frame: Option<Frame>) -> BlendOperator {
    match frame {
        Some(f) => match f.blend_operator {
            Some(op) => op,
            None => BlendOperator::Source,
        },
        None => BlendOperator::Source,
    }
}

/// The 26-byte `fcTL` payload.
pub open spec fn fctl_payload(sequence: u32, rect: Rectangle, frame: Option<Frame>) -> Seq<u8> {
    be32(sequence) + be32(rect.width) + be32(rect.height) + be32(rect.x) + be32(rect.y) + be16(
        delay_for(frame).numerator,
    ) + be16(delay_for(frame).denominator) + seq![
        dispose_byte(dispose_for(frame)),
        blend_byte(blend_for(frame)),
    ]
}

/// The row stride in bytes: the caller's override, or the rectangle
/// width times the bytes per pixel.
pub open spec fn stride_for(meta: Meta, rect: Rectangle, row_stride: Option<usize>) -> int {
    match row_stride {
        Some(s) => s as int,
        None => rect.width as int * meta.color.spec_pixel_bytes() as int,
    }
}

/// The validation of an image buffer of `len` bytes against `rect`:
/// the rectangle must lie within the canvas, and the buffer's implied
/// row count `len / stride` must reach the rectangle height without
/// passing its bottom edge. A stride of zero, or beyond what a buffer
/// index can address, counts as too large.
pub open spec fn size_check(meta: Meta, rect: Rectangle, stride: int, len: int) -> Option<
    ApngError,
> {
    if stride <= 0 || stride > usize::MAX {
        Some(ApngError::TooLargeImage)
    } else if meta.width < rect.spec_right() || meta.height < rect.spec_bottom()
        || rect.spec_bottom() < len / stride {
        Some(ApngError::TooLargeImage)
    } else if len / stride < rect.height {
        Some(ApngError::TooSmallImage)
    } else {
        None
    }
}

/// The filter used for a buffer: the caller's choice, or the inferred one.
pub open spec fn filter_for(filter: Option<Filter>, data: Seq<u8>, stride: int, bpp: int) -> Filter {
    match filter {
        Some(f) => f,
        None => best_filter(data, stride, bpp),
    }
}

/// The zlib payload for an image buffer: its complete rows, filtered
/// and compressed.
pub open spec fn image_payload(meta: Meta, data: Seq<u8>, stride: int, filter: Option<
    Filter,
>) -> Seq<u8>
    recommends
        stride > 0,
{
    let rows = data.len() as int / stride;
    let sliced = data.subrange(0, rows * stride);
    let bpp = meta.color.spec_pixel_bytes() as int;
    zlib_of(filtered_data(filter_for(filter, sliced, stride, bpp), sliced, stride, bpp))
}

/// The chunk classes the encoder emits while it is alive.
pub enum ChunkKind {
    ImageHeader,
    AnimationControl,
    FrameControl,
    ImageData,
    FrameData,
}

/// One emitted chunk, as recorded in the encoder's ghost history:
/// its class, the sequence number it consumed (0 for classes that
/// carry none), and its payload.
pub struct ChunkRecord {
    pub kind: ChunkKind,
    pub sequence: u32,
    pub data: Seq<u8>,
}

/// The chunk type bytes of each class.
pub open spec fn kind_type(kind: ChunkKind) -> Seq<u8> {
    match kind {
        ChunkKind::ImageHeader => ihdr_type(),
        ChunkKind::AnimationControl => actl_type(),
        ChunkKind::FrameControl => fctl_type(),
        ChunkKind::ImageData => idat_type(),
        ChunkKind::FrameData => fdat_type(),
    }
}

/// Whether a chunk class carries an APNG sequence number.
pub open spec fn is_sequenced(kind: ChunkKind) -> bool {
    kind is FrameControl || kind is FrameData
}

/// The byte stream that a chunk history renders to.
pub open spec fn rendered(chunks: Seq<ChunkRecord>) -> Seq<u8>
    decreases chunks.len(),
{
    if chunks.len() == 0 {
        Seq::empty()
    } else {
        rendered(chunks.drop_last()) + chunk_bytes(
            kind_type(chunks.last().kind),
            chunks.last().data,
        )
    }
}

/// The sequence numbers of the sequenced chunks, in emission order.
pub open spec fn sequence_numbers(chunks: Seq<ChunkRecord>) -> Seq<u32>
    decreases chunks.len(),
{
    if chunks.len() == 0 {
        Seq::empty()
    } else if is_sequenced(chunks.last().kind) {
        sequence_numbers(chunks.drop_last()).push(chunks.last().sequence)
    } else {
        sequence_numbers(chunks.drop_last())
    }
}

/// How many chunks of class `kind` the history holds.
pub open spec fn count_of(chunks: Seq<ChunkRecord>, kind: ChunkKind) -> int
    decreases chunks.len(),
{
    if chunks.len() == 0 {
        0
    } else {
        count_of(chunks.drop_last(), kind) + if chunks.last().kind == kind {
            1int
        } else {
            0int
        }
    }
}

/// Appending one chunk extends the rendering, the sequence-number list
/// and the per-class counts in the evident way.
proof fn lemma_history_push(chunks: Seq<ChunkRecord>, c: ChunkRecord)
    ensures
        rendered(chunks.push(c)) == rendered(chunks) + chunk_bytes(kind_type(c.kind), c.data),
        sequence_numbers(chunks.push(c)) == if is_sequenced(c.kind) {
            sequence_numbers(chunks).push(c.sequence)
        } else {
            sequence_numbers(chunks)
        },
        forall|kind: ChunkKind|
            #[trigger] count_of(chunks.push(c), kind) == count_of(chunks, kind) + if c.kind
                == kind {
                1int
            } else {
                0int
            },
{
    assert(chunks.push(c).drop_last() =~= chunks);
    assert(chunks.push(c).last() == c);
}

/// A history with a chunk of class `kind` counts at least one of them.
proof fn lemma_count_positive(chunks: Seq<ChunkRecord>, kind: ChunkKind, i: int)
    requires
        0 <= i < chunks.len(),
        chunks[i].kind == kind,
    ensures
        count_of(chunks, kind) >= 1,
    decreases chunks.len(),
{
    lemma_count_nonnegative(chunks, kind);
    if i == chunks.len() - 1 {
        lemma_count_nonnegative(chunks.drop_last(), kind);
    } else {
        lemma_count_positive(chunks.drop_last(), kind, i);
    }
}

proof fn lemma_count_nonnegative(chunks: Seq<ChunkRecord>, kind: ChunkKind)
    ensures
        count_of(chunks, kind) >= 0,
    decreases chunks.len(),
{
    if chunks.len() > 0 {
        lemma_count_nonnegative(chunks.drop_last(), kind);
    }
}

/// The sequence-number list is as long as the two sequenced classes
/// together are frequent.
proof fn lemma_sequence_numbers_len(chunks: Seq<ChunkRecord>)
    ensures
        sequence_numbers(chunks).len() == count_of(chunks, ChunkKind::FrameControl) + count_of(
            chunks,
            ChunkKind::FrameData,
        ),
    decreases chunks.len(),
{
    if chunks.len() > 0 {
        lemma_sequence_numbers_len(chunks.drop_last());
    }
}

/// APNG Encoder
///
/// Writes an animated PNG into an owned byte sink, frame by frame.
/// `create` emits the signature and the header chunks, `write_frame`
/// appends one animation frame, and `finish` appends `IEND` and returns
/// the sink.
pub struct Encoder {
    default_image: bool,
    meta: Meta,
    output: Vec<u8>,
    sequence: u32,
    written_frames: u32,
    chunks: Ghost<Seq<ChunkRecord>>,
}

impl Encoder {
    /// The image-wide parameters the encoder was created with.
    pub closed spec fn spec_meta(self) -> Meta {
        self.meta
    }

    /// Every byte delivered to the sink so far.
    pub closed spec fn out(self) -> Seq<u8> {
        self.output@
    }

    /// The next APNG sequence number.
    pub closed spec fn sequence_counter(self) -> u32 {
        self.sequence
    }

    /// How many animation frames have been written.
    pub closed spec fn frames_written(self) -> u32 {
        self.written_frames
    }

    /// Whether a separate default image has been written.
    pub closed spec fn default_image_written(self) -> bool {
        self.default_image
    }

    /// The chunks emitted so far, in order.
    pub closed spec fn chunk_history(self) -> Seq<ChunkRecord> {
        self.chunks@
    }

    /// The encoder's invariant: the sink holds the signature followed by
    /// the rendered chunk history; the history starts with `IHDR` and
    /// `acTL`; sequence numbers are exactly `0 .. sequence`; each
    /// sequenced chunk embeds its number as its first four bytes; the
    /// `fcTL` count equals the frames written; at most one `IDAT` exists,
    /// never after an `fdAT`, and before every `fcTL` when it is a
    /// separate default image.
    pub closed spec fn wf(self) -> bool {
        &&& color_ok(self.meta.color)
        &&& self.meta.frames < 0x8000_0000
        &&& self.written_frames <= self.meta.frames
        &&& self.sequence as int == 2 * self.written_frames as int - (
        if !self.default_image && self.written_frames > 0 {
            1int
        } else {
            0int
        })
        &&& self.output@ == png_signature() + rendered(self.chunks@)
        &&& self.chunks@.len() >= 2
        &&& self.chunks@[0].kind is ImageHeader
        &&& self.chunks@[0].data == ihdr_payload(self.meta)
        &&& self.chunks@[1].kind is AnimationControl
        &&& self.chunks@[1].data == actl_payload(self.meta)
        &&& forall|i: int|
            #![trigger self.chunks@[i]]
            2 <= i < self.chunks@.len() ==> !(self.chunks@[i].kind is ImageHeader)
                && !(self.chunks@[i].kind is AnimationControl)
        &&& sequence_numbers(self.chunks@) == Seq::new(
            self.sequence as nat,
            |i: int| i as u32,
        )
        &&& count_of(self.chunks@, ChunkKind::FrameControl) == self.written_frames as int
        &&& count_of(self.chunks@, ChunkKind::ImageData) == (
        if self.default_image || self.written_frames > 0 {
            1int
        } else {
            0int
        })
        &&& forall|i: int, j: int|
            #![trigger self.chunks@[i], self.chunks@[j]]
            0 <= i < self.chunks@.len() && 0 <= j < self.chunks@.len()
                && self.chunks@[i].kind is ImageData && self.chunks@[j].kind is FrameData ==> i
                < j
        &&& (self.default_image ==> forall|i: int, j: int|
            #![trigger self.chunks@[i], self.chunks@[j]]
            0 <= i < self.chunks@.len() && 0 <= j < self.chunks@.len()
                && self.chunks@[i].kind is ImageData && self.chunks@[j].kind is FrameControl
                ==> i < j)
        &&& forall|i: int|
            #![trigger self.chunks@[i]]
            0 <= i < self.chunks@.len() && is_sequenced(self.chunks@[i].kind)
                ==> self.chunks@[i].data.len() >= 4 && self.chunks@[i].data.subrange(0, 4)
                == be32(self.chunks@[i].sequence)
    }

    /// Constructs an encoder over a fresh sink and emits the PNG
    /// signature, the `IHDR` chunk and the `acTL` chunk. Rejects exactly
    /// the illegal color/bit-depth pairs, writing nothing.
    pub fn create(meta: Meta) -> (r: ApngResult<Encoder>)
        requires
            meta.frames < 0x8000_0000,
        ensures
            r is Ok <==> color_ok(meta.color),
            !color_ok(meta.color) ==> r == ApngResult::<Encoder>::Err(ApngError::InvalidColor),
            r is Ok ==> (r->Ok_0).wf() && (r->Ok_0).spec_meta() == meta && (
            r->Ok_0).frames_written() == 0 && (r->Ok_0).sequence_counter() == 0 && !(
            r->Ok_0).default_image_written() && (r->Ok_0).out() == png_signature() + chunk_bytes(
                ihdr_type(),
                ihdr_payload(meta),
            ) + chunk_bytes(actl_type(), actl_payload(meta)),
            r is Ok ==> (r->Ok_0).out().subrange(0, 8) == png_signature(),
    {
        match validate_color(&meta.color) {
            Ok(_) => (),
            Err(e) => {
                return Err(e);
            },
        }
        let mut output: Vec<u8> = Vec::new();
        output.push(0x89);
        output.push(0x50);
        output.push(0x4e);
        output.push(0x47);
        output.push(0x0d);
        output.push(0x0a);
        output.push(0x1a);
        output.push(0x0a);
        proof {
            assert(output@ =~= png_signature());
        }
        let mut ihdr: Vec<u8> = Vec::new();
        push_be32(&mut ihdr, meta.width);
        push_be32(&mut ihdr, meta.height);
        let color_type: u8 = match meta.color {
            Color::Grayscale(_) => 0,
            Color::GrayscaleA(_) => 4,
            Color::RGB(_) => 2,
            Color::RGBA(_) => 6,
        };
        ihdr.push(meta.color.bit_depth());
        ihdr.push(color_type);
        ihdr.push(0);
        ihdr.push(0);
        ihdr.push(0);
        proof {
            assert(ihdr@ =~= ihdr_payload(meta));
        }
        append_chunk(&mut output, [0x49, 0x48, 0x44, 0x52], ihdr.as_slice());
        let mut actl: Vec<u8> = Vec::new();
        push_be32(&mut actl, meta.frames);
        let plays: u32 = match meta.plays {
            Some(p) => p,
            None => 0,
        };
        push_be32(&mut actl, plays);
        proof {
            assert(actl@ =~= actl_payload(meta));
        }
        append_chunk(&mut output, [0x61, 0x63, 0x54, 0x4c], actl.as_slice());
        let ghost header_record = ChunkRecord {
            kind: ChunkKind::ImageHeader,
            sequence: 0u32,
            data: ihdr_payload(meta),
        };
        let ghost control_record = ChunkRecord {
            kind: ChunkKind::AnimationControl,
            sequence: 0u32,
            data: actl_payload(meta),
        };
        let ghost history = seq![header_record, control_record];
        let encoder = Encoder {
            default_image: false,
            meta,
            output,
            sequence: 0,
            written_frames: 0,
            chunks: Ghost(history),
        };
        proof {
            let h0 = Seq::<ChunkRecord>::empty();
            let h1 = h0.push(header_record);
            assert(history =~= h1.push(control_record));
            lemma_history_push(h0, header_record);
            lemma_history_push(h1, control_record);
            assert(rendered(h0) == Seq::<u8>::empty());
            assert(sequence_numbers(h0) == Seq::<u32>::empty());
            assert(count_of(h0, ChunkKind::FrameControl) == 0);
            assert(count_of(h0, ChunkKind::ImageData) == 0);
            assert(rendered(history) =~= chunk_bytes(ihdr_type(), ihdr_payload(meta))
                + chunk_bytes(actl_type(), actl_payload(meta)));
            assert(encoder.output@ =~= png_signature() + rendered(history));
            assert(sequence_numbers(history) =~= Seq::<u32>::empty());
            assert(sequence_numbers(history) =~= Seq::new(0nat, |i: int| i as u32));
            assert(count_of(history, ChunkKind::FrameControl) == 0);
            assert(count_of(history, ChunkKind::ImageData) == 0);
            assert(encoder.wf());
            assert(encoder.out().subrange(0, 8) =~= png_signature());
        }
        Ok(encoder)
    }

    /// Consumes the encoder, appends the empty `IEND` chunk, and returns
    /// the sink. Rejects exactly the runs that have written fewer frames
    /// than declared, naming the expected and actual counts.
    pub fn finish(self) -> (r: ApngResult<Vec<u8>>)
        requires
            self.wf(),
        ensures
            r is Ok <==> self.frames_written() == self.spec_meta().frames,
            r is Err ==> r == ApngResult::<Vec<u8>>::Err(
                ApngError::NotEnoughFrames(
                    self.spec_meta().frames as usize,
                    self.frames_written() as usize,
                ),
            ),
            r is Ok ==> (r->Ok_0)@ == self.out() + chunk_bytes(iend_type(), Seq::<u8>::empty()),
            r is Ok ==> count_of(self.chunk_history(), ChunkKind::FrameControl)
                == self.spec_meta().frames as int,
    {
        if self.written_frames < self.meta.frames {
            return Err(
                ApngError::NotEnoughFrames(
                    self.meta.frames as usize,
                    self.written_frames as usize,
                ),
            );
        }
        let mut output = self.output;
        let empty: Vec<u8> = Vec::new();
        append_chunk(&mut output, [0x49, 0x45, 0x4e, 0x44], empty.as_slice());
        proof {
            assert(empty@ =~= Seq::<u8>::empty());
        }
        Ok(output)
    }

    /// The bytes delivered to the sink so far.
    pub fn written(&self) -> (r: &Vec<u8>)
        ensures
            r@ == self.out(),
    {
        &self.output
    }
}

/// The outcome of `write_default_image` on a given encoder state and
/// buffer: the error it returns, or `None` where it succeeds.
pub open spec fn default_image_error(
    enc: Encoder,
    data: Seq<u8>,
    filter: Option<Filter>,
    row_stride: Option<usize>,
) -> Option<ApngError> {
    let meta = enc.spec_meta();
    let rect = rect_for(meta, None);
    let stride = stride_for(meta, rect, row_stride);
    if enc.default_image_written() {
        Some(ApngError::MulitiDefaultImage)
    } else if enc.sequence_counter() > 0 {
        Some(ApngError::DefaultImageNotAtFirst)
    } else if size_check(meta, rect, stride, data.len() as int) is Some {
        size_check(meta, rect, stride, data.len() as int)
    } else if image_payload(meta, data, stride, filter).len() > 0xffff_fffb {
        Some(ApngError::TooLargeImage)
    } else {
        None
    }
}

impl Encoder {
    /// The rectangle the frame occupies, defaulted from the canvas.
    fn compute_rect(&self, frame: Option<&Frame>) -> (r: Rectangle)
        ensures
            r == rect_for(self.spec_meta(), frame_val(frame)),
    {
        let width = match frame {
            Some(f) => match f.width {
                Some(w) => w,
                None => self.meta.width,
            },
            None => self.meta.width,
        };
        let height = match frame {
            Some(f) => match f.height {
                Some(h) => h,
                None => self.meta.height,
            },
            None => self.meta.height,
        };
        let x = match frame {
            Some(f) => match f.x {
                Some(v) => v,
                None => 0,
            },
            None => 0,
        };
        let y = match frame {
            Some(f) => match f.y {
                Some(v) => v,
                None => 0,
            },
            None => 0,
        };
        let modified = x != 0 || y != 0 || width != self.meta.width || height != self.meta.height;
        Rectangle { width, height, x, y, modified }
    }

    /// Validates the buffer against the rectangle and returns the row
    /// stride, exactly as `size_check` rules.
    fn compute_row_stride(
        &self,
        image_data: &[u8],
        row_stride: Option<usize>,
        rect: Rectangle,
    ) -> (r: ApngResult<usize>)
        ensures
            ({
                let stride = stride_for(self.spec_meta(), rect, row_stride);
                let check = size_check(self.spec_meta(), rect, stride, image_data@.len() as int);
                &&& (r is Ok <==> check is None)
                &&& (r is Err ==> r == ApngResult::<usize>::Err(check->Some_0))
                &&& (r is Ok ==> r->Ok_0 as int == stride && stride >= 1)
            }),
    {
        let len = image_data.len();
        let stride: usize = match row_stride {
            Some(s) => {
                if s == 0 {
                    return Err(ApngError::TooLargeImage);
                }
                s
            },
            None => {
                let width = rect.width;
                let pixel_bytes = self.meta.color.pixel_bytes();
                proof {
                    assert(width as int * pixel_bytes as int <= 0xffff_ffff * 8)
                        by (nonlinear_arith)
                        requires
                            width <= 0xffff_ffffu32,
                            pixel_bytes <= 8,
                    ;
                }
                let product = width as u64 * pixel_bytes as u64;
                if product == 0 {
                    return Err(ApngError::TooLargeImage);
                }
                if product > usize::MAX as u64 {
                    return Err(ApngError::TooLargeImage);
                }
                product as usize
            },
        };
        let data_height = len / stride;
        let right = rect.right();
        let bottom = rect.bottom();
        if (self.meta.width as u64) < right || (self.meta.height as u64) < bottom || bottom < (
        data_height as u64) {
            return Err(ApngError::TooLargeImage);
        }
        if (data_height as u64) < rect.height as u64 {
            return Err(ApngError::TooSmallImage);
        }
        Ok(stride)
    }

    /// The zlib payload for the buffer's complete rows: sliced, filtered
    /// with the given or inferred filter, and compressed.
    fn make_image_data(&self, image_data: &[u8], stride: usize, filter: Option<Filter>) -> (r:
        Vec<u8>)
        requires
            stride >= 1,
        ensures
            r@ == image_payload(self.spec_meta(), image_data@, stride as int, filter),
    {
        let len = image_data.len();
        let rows = len / stride;
        proof {
            lemma_fundamental_div_mod(len as int, stride as int);
            lemma_mul_nonnegative(rows as int, stride as int);
            assert(rows as int * stride as int == stride as int * rows as int)
                by (nonlinear_arith);
        }
        let whole = rows * stride;
        let mut sliced: Vec<u8> = Vec::new();
        push_bytes(&mut sliced, &image_data[0..whole]);
        proof {
            lemma_mod_multiples_basic(rows as int, stride as int);
            assert(sliced@.len() as int % stride as int == 0);
        }
        let pixel_bytes = self.meta.color.pixel_bytes();
        let chosen = match filter {
            Some(f) => f,
            None => infer_best_filter(sliced.as_slice(), stride, pixel_bytes),
        };
        let filtered = chosen.apply(sliced.as_slice(), stride, pixel_bytes);
        compress(filtered.as_slice())
    }

    /// Hands out the next APNG sequence number and advances the counter.
    fn next_sequence(&mut self) -> (r: u32)
        requires
            old(self).sequence_counter() < 0xffff_ffffu32,
        ensures
            r == old(self).sequence_counter(),
            final(self).sequence_counter() == old(self).sequence_counter() + 1,
            final(self).spec_meta() == old(self).spec_meta(),
            final(self).out() == old(self).out(),
            final(self).frames_written() == old(self).frames_written(),
            final(self).default_image_written() == old(self).default_image_written(),
            final(self).chunk_history() == old(self).chunk_history(),
    {
        let result = self.sequence;
        self.sequence = self.sequence + 1;
        result
    }

    /// Emits one `fcTL` chunk for the frame, consuming one sequence
    /// number, and returns the frame's rectangle.
    fn write_frame_control(&mut self, frame: Option<&Frame>) -> (r: Rectangle)
        requires
            old(self).sequence_counter() < 0xffff_ffffu32,
        ensures
            r == rect_for(old(self).spec_meta(), frame_val(frame)),
            final(self).out() == old(self).out() + chunk_bytes(
                fctl_type(),
                fctl_payload(old(self).sequence_counter(), r, frame_val(frame)),
            ),
            final(self).sequence_counter() == old(self).sequence_counter() + 1,
            final(self).chunk_history() == old(self).chunk_history().push(
                ChunkRecord {
                    kind: ChunkKind::FrameControl,
                    sequence: old(self).sequence_counter(),
                    data: fctl_payload(old(self).sequence_counter(), r, frame_val(frame)),
                },
            ),
            final(self).spec_meta() == old(self).spec_meta(),
            final(self).frames_written() == old(self).frames_written(),
            final(self).default_image_written() == old(self).default_image_written(),
    {
        let rect = self.compute_rect(frame);
        let delay = match frame {
            Some(f) => match f.delay {
                Some(d) => d,
                None => Delay { numerator: 0, denominator: 0 },
            },
            None => Delay { numerator: 0, denominator: 0 },
        };
        let dispose: u8 = match frame {
            Some(f) => match f.dispose_operator {
                Some(DisposeOperator::NoDisposal) => 0,
                Some(DisposeOperator::Background) => 1,
                Some(DisposeOperator::Previous) => 2,
                None => 0,
            },
            None => 0,
        };
        let blend: u8 = match frame {
            Some(f) => match f.blend_operator {
                Some(BlendOperator::Source) => 0,
                Some(BlendOperator::Over) => 1,
                None => 0,
            },
            None => 0,
        };
        let sequence = self.next_sequence();
        let mut buffer: Vec<u8> = Vec::new();
        push_be32(&mut buffer, sequence);
        push_be32(&mut buffer, rect.width);
        push_be32(&mut buffer, rect.height);
        push_be32(&mut buffer, rect.x);
        push_be32(&mut buffer, rect.y);
        push_be16(&mut buffer, delay.numerator);
        push_be16(&mut buffer, delay.denominator);
        buffer.push(dispose);
        buffer.push(blend);
        proof {
            assert(buffer@ =~= fctl_payload(sequence, rect, frame_val(frame)));
        }
        append_chunk(&mut self.output, [0x66, 0x63, 0x54, 0x4c], buffer.as_slice());
        let ghost record = ChunkRecord {
            kind: ChunkKind::FrameControl,
            sequence,
            data: buffer@,
        };
        self.chunks = Ghost(self.chunks@.push(record));
        rect
    }

    /// Emits a distinct default image as one `IDAT` chunk. Legal only
    /// before any frame control chunk and at most once; rejects exactly
    /// as `default_image_error` rules, writing nothing on failure.
    pub fn write_default_image(
        &mut self,
        image_data: &[u8],
        filter: Option<Filter>,
        row_stride: Option<usize>,
    ) -> (r: ApngResult<()>)
        requires
            old(self).wf(),
        ensures
            final(self).wf(),
            final(self).spec_meta() == old(self).spec_meta(),
            ({
                let outcome = default_image_error(*old(self), image_data@, filter, row_stride);
                &&& (r is Ok <==> outcome is None)
                &&& (r is Err ==> r == ApngResult::<()>::Err(outcome->Some_0))
            }),
            r is Err ==> *final(self) == *old(self),
            r is Ok ==> ({
                let meta = old(self).spec_meta();
                let stride = stride_for(meta, rect_for(meta, None), row_stride);
                let payload = image_payload(meta, image_data@, stride, filter);
                &&& final(self).out() == old(self).out() + chunk_bytes(idat_type(), payload)
                &&& final(self).default_image_written()
                &&& final(self).frames_written() == 0
                &&& final(self).sequence_counter() == 0
                &&& final(self).chunk_history() == old(self).chunk_history().push(
                    ChunkRecord { kind: ChunkKind::ImageData, sequence: 0u32, data: payload },
                )
            }),
    {
        if self.default_image {
            return Err(ApngError::MulitiDefaultImage);
        }
        if self.sequence > 0 {
            return Err(ApngError::DefaultImageNotAtFirst);
        }
        let rect = self.compute_rect(None);
        let stride = match self.compute_row_stride(image_data, row_stride, rect) {
            Ok(s) => s,
            Err(e) => {
                return Err(e);
            },
        };
        let payload = self.make_image_data(image_data, stride, filter);
        if payload.len() > 0xffff_fffb {
            return Err(ApngError::TooLargeImage);
        }
        self.default_image = true;
        append_chunk(&mut self.output, [0x49, 0x44, 0x41, 0x54], payload.as_slice());
        let ghost record = ChunkRecord {
            kind: ChunkKind::ImageData,
            sequence: 0u32,
            data: payload@,
        };
        let ghost pre_history = self.chunks@;
        self.chunks = Ghost(self.chunks@.push(record));
        proof {
            lemma_history_push(pre_history, record);
            lemma_sequence_numbers_len(pre_history);
            lemma_count_nonnegative(pre_history, ChunkKind::FrameControl);
            lemma_count_nonnegative(pre_history, ChunkKind::FrameData);
            // With sequence == 0 there are no sequenced chunks yet.
            assert(count_of(pre_history, ChunkKind::FrameData) == 0);
            assert forall|i: int, j: int|
                0 <= i < self.chunks@.len() && 0 <= j < self.chunks@.len()
                    && #[trigger] self.chunks@[i].kind is ImageData
                    && #[trigger] self.chunks@[j].kind is FrameData implies i < j by {
                if j < pre_history.len() {
                    lemma_count_positive(pre_history, ChunkKind::FrameData, j);
                }
            }
            assert forall|i: int, j: int|
                0 <= i < self.chunks@.len() && 0 <= j < self.chunks@.len()
                    && #[trigger] self.chunks@[i].kind is ImageData
                    && #[trigger] self.chunks@[j].kind is FrameControl implies i < j by {
                if j < pre_history.len() {
                    lemma_count_positive(pre_history, ChunkKind::FrameControl, j);
                }
            }
            assert(self.output@ =~= png_signature() + rendered(self.chunks@));
            assert(self.chunks@[0] == pre_history[0]);
            assert(self.chunks@[1] == pre_history[1]);
            assert forall|i: int|
                2 <= i < self.chunks@.len() implies !(#[trigger] self.chunks@[i].kind
                is ImageHeader) && !(self.chunks@[i].kind is AnimationControl) by {
                if i < pre_history.len() {
                    assert(self.chunks@[i] == pre_history[i]);
                } else {
                    assert(self.chunks@[i] == record);
                }
            }
            assert forall|i: int|
                0 <= i < self.chunks@.len() && is_sequenced(
                    (#[trigger] self.chunks@[i]).kind,
                ) implies self.chunks@[i].data.len() >= 4 && self.chunks@[i].data.subrange(0, 4)
                == be32(self.chunks@[i].sequence) by {
                if i < pre_history.len() {
                    assert(self.chunks@[i] == pre_history[i]);
                } else {
                    assert(self.chunks@[i] == record);
                }
            }
            assert(self.wf());
        }
        Ok(())
    }
}

/// The outcome of `write_frame` on a given encoder state, buffer and
/// frame: the error it returns, or `None` where it succeeds. The frame
/// count is checked first; then, for a first frame that must double as
/// the default image, the full-canvas requirement; then the buffer
/// against the rectangle; last, the compressed payload against the
/// chunk length limit.
pub open spec fn write_frame_error(
    enc: Encoder,
    data: Seq<u8>,
    frame: Option<Frame>,
    filter: Option<Filter>,
    row_stride: Option<usize>,
) -> Option<ApngError> {
    let meta = enc.spec_meta();
    let rect = rect_for(meta, frame);
    let stride = stride_for(meta, rect, row_stride);
    let first = !enc.default_image_written() && enc.sequence_counter() == 0;
    if enc.frames_written() >= meta.frames {
        Some(
            ApngError::TooManyFrames(meta.frames as usize, (enc.frames_written() + 1) as usize),
        )
    } else if first && rect.modified {
        Some(ApngError::InvalidDefaultImageRectangle)
    } else if size_check(meta, rect, stride, data.len() as int) is Some {
        size_check(meta, rect, stride, data.len() as int)
    } else if image_payload(meta, data, stride, filter).len() > 0xffff_fffb {
        Some(ApngError::TooLargeImage)
    } else {
        None
    }
}

impl Encoder {
    /// Writes one animation frame: one `fcTL` chunk, then `IDAT` for a
    /// first frame without a separate default image (which must cover
    /// the full canvas), else `fdAT`. Rejects exactly as
    /// `write_frame_error` rules, writing nothing on failure.
    #[verifier::rlimit(100)]
    pub fn write_frame(
        &mut self,
        image_data: &[u8],
        frame: Option<&Frame>,
        filter: Option<Filter>,
        row_stride: Option<usize>,
    ) -> (r: ApngResult<()>)
        requires
            old(self).wf(),
        ensures
            final(self).wf(),
            final(self).spec_meta() == old(self).spec_meta(),
            ({
                let outcome = write_frame_error(
                    *old(self),
                    image_data@,
                    frame_val(frame),
                    filter,
                    row_stride,
                );
                &&& (r is Ok <==> outcome is None)
                &&& (r is Err ==> r == ApngResult::<()>::Err(outcome->Some_0))
            }),
            r is Err ==> *final(self) == *old(self),
            r is Ok ==> ({
                let meta = old(self).spec_meta();
                let rect = rect_for(meta, frame_val(frame));
                let stride = stride_for(meta, rect, row_stride);
                let first = !old(self).default_image_written() && old(
                    self,
                ).sequence_counter() == 0;
                let sn = old(self).sequence_counter();
                let payload = image_payload(meta, image_data@, stride, filter);
                let control_chunk = chunk_bytes(
                    fctl_type(),
                    fctl_payload(sn, rect, frame_val(frame)),
                );
                let data_chunk = if first {
                    chunk_bytes(idat_type(), payload)
                } else {
                    chunk_bytes(fdat_type(), be32((sn + 1) as u32) + payload)
                };
                &&& final(self).out() == old(self).out() + control_chunk + data_chunk
                &&& final(self).frames_written() == old(self).frames_written() + 1
                &&& final(self).sequence_counter() as int == sn as int + (
                if first {
                    1int
                } else {
                    2int
                })
                &&& final(self).default_image_written() == old(self).default_image_written()
            }),
    {
        if self.written_frames >= self.meta.frames {
            return Err(
                ApngError::TooManyFrames(
                    self.meta.frames as usize,
                    (self.written_frames + 1) as usize,
                ),
            );
        }
        let rect = self.compute_rect(frame);
        let first = !self.default_image && self.sequence == 0;
        if first && rect.modified {
            return Err(ApngError::InvalidDefaultImageRectangle);
        }
        let stride = match self.compute_row_stride(image_data, row_stride, rect) {
            Ok(s) => s,
            Err(e) => {
                return Err(e);
            },
        };
        let payload = self.make_image_data(image_data, stride, filter);
        if payload.len() > 0xffff_fffb {
            return Err(ApngError::TooLargeImage);
        }
        let ghost pre = *self;
        proof {
            // The sequence counter stays clear of its limit: at most two
            // numbers are consumed per frame and the frame count is
            // bounded below 2^31.
            assert(self.sequence as int <= 2 * self.meta.frames as int);
        }
        let control_rect = self.write_frame_control(frame);
        let ghost mid_history = self.chunks@;
        if first {
            append_chunk(&mut self.output, [0x49, 0x44, 0x41, 0x54], payload.as_slice());
            let ghost record = ChunkRecord {
                kind: ChunkKind::ImageData,
                sequence: 0u32,
                data: payload@,
            };
            self.chunks = Ghost(self.chunks@.push(record));
        } else {
            let sequence = self.next_sequence();
            let mut buffer: Vec<u8> = Vec::new();
            push_be32(&mut buffer, sequence);
            push_bytes(&mut buffer, payload.as_slice());
            append_chunk(&mut self.output, [0x66, 0x64, 0x41, 0x54], buffer.as_slice());
            let ghost record = ChunkRecord {
                kind: ChunkKind::FrameData,
                sequence,
                data: buffer@,
            };
            self.chunks = Ghost(self.chunks@.push(record));
        }
        self.written_frames = self.written_frames + 1;
        proof {
            let ghost control_record = ChunkRecord {
                kind: ChunkKind::FrameControl,
                sequence: pre.sequence_counter(),
                data: fctl_payload(pre.sequence_counter(), control_rect, frame_val(frame)),
            };
            let ghost data_record = self.chunks@.last();
            lemma_history_push(pre.chunk_history(), control_record);
            lemma_history_push(mid_history, data_record);
            assert(self.chunks@ == mid_history.push(data_record));
            lemma_sequence_numbers_len(pre.chunk_history());
            lemma_count_nonnegative(pre.chunk_history(), ChunkKind::FrameData);
            lemma_count_nonnegative(pre.chunk_history(), ChunkKind::FrameControl);
            // The byte stream is the signature plus the rendered history.
            assert(self.output@ =~= png_signature() + rendered(self.chunks@));
            // Sequence numbers extend to 0 .. sequence.
            assert(sequence_numbers(self.chunks@) =~= Seq::new(
                self.sequence as nat,
                |i: int| i as u32,
            ));
            // The header chunks stay in place and nothing new claims
            // their classes.
            assert(self.chunks@[0] == pre.chunk_history()[0]);
            assert(self.chunks@[1] == pre.chunk_history()[1]);
            assert forall|i: int|
                2 <= i < self.chunks@.len() implies !(#[trigger] self.chunks@[i].kind
                is ImageHeader) && !(self.chunks@[i].kind is AnimationControl) by {
                if i < pre.chunk_history().len() {
                    assert(self.chunks@[i] == pre.chunk_history()[i]);
                } else if i == pre.chunk_history().len() {
                    assert(self.chunks@[i] == control_record);
                } else {
                    assert(self.chunks@[i] == data_record);
                }
            }
            // Every sequenced chunk embeds its number as its first four
            // bytes.
            assert(control_record.data.subrange(0, 4) =~= be32(control_record.sequence));
            assert(data_record.kind is FrameData ==> data_record.data.subrange(0, 4) =~= be32(
                data_record.sequence,
            ));
            assert forall|i: int|
                0 <= i < self.chunks@.len() && is_sequenced(
                    (#[trigger] self.chunks@[i]).kind,
                ) implies self.chunks@[i].data.len() >= 4 && self.chunks@[i].data.subrange(0, 4)
                == be32(self.chunks@[i].sequence) by {
                if i < pre.chunk_history().len() {
                    assert(self.chunks@[i] == pre.chunk_history()[i]);
                } else if i == pre.chunk_history().len() {
                    assert(self.chunks@[i] == control_record);
                } else {
                    assert(self.chunks@[i] == data_record);
                }
            }
            // No `IDAT` ever follows an `fdAT`, and a separate default
            // image precedes every `fcTL`.
            if first {
                assert(count_of(pre.chunk_history(), ChunkKind::FrameData) == 0);
            }
            assert forall|i: int, j: int|
                0 <= i < self.chunks@.len() && 0 <= j < self.chunks@.len()
                    && #[trigger] self.chunks@[i].kind is ImageData
                    && #[trigger] self.chunks@[j].kind is FrameData implies i < j by {
                if i < pre.chunk_history().len() && j < pre.chunk_history().len() {
                    assert(self.chunks@[i] == pre.chunk_history()[i]);
                    assert(self.chunks@[j] == pre.chunk_history()[j]);
                } else if i >= pre.chunk_history().len() {
                    // The new chunk of class `ImageData` comes with a
                    // first frame, before which no `fdAT` exists.
                    assert(self.chunks@[i] == data_record || self.chunks@[i] == control_record);
                    if j < pre.chunk_history().len() {
                        lemma_count_positive(pre.chunk_history(), ChunkKind::FrameData, j);
                    }
                } else {
                    assert(self.chunks@[j] == data_record || self.chunks@[j] == control_record);
                    assert(self.chunks@[i] == pre.chunk_history()[i]);
                }
            }
            if self.default_image {
                assert forall|i: int, j: int|
                    0 <= i < self.chunks@.len() && 0 <= j < self.chunks@.len()
                        && #[trigger] self.chunks@[i].kind is ImageData
                        && #[trigger] self.chunks@[j].kind is FrameControl implies i < j by {
                    if i < pre.chunk_history().len() && j < pre.chunk_history().len() {
                        assert(self.chunks@[i] == pre.chunk_history()[i]);
                        assert(self.chunks@[j] == pre.chunk_history()[j]);
                    } else if i >= pre.chunk_history().len() {
                        assert(self.chunks@[i] == data_record || self.chunks@[i]
                            == control_record);
                        assert(false);
                    } else {
                        assert(self.chunks@[i] == pre.chunk_history()[i]);
                    }
                }
            }
            assert(self.wf());
        }
        Ok(())
    }
}

/// Sequence monotonicity: in every reachable encoder state, the
/// sequence numbers of the `fcTL` and `fdAT` chunks, read in emission
/// order, are exactly 0, 1, 2, … with no gaps or repeats, and each such
/// chunk embeds its number as the first four bytes of its payload.
pub proof fn lemma_sequence_monotonic(enc: Encoder)
    requires
        enc.wf(),
    ensures
        sequence_numbers(enc.chunk_history()) =~= Seq::new(
            enc.sequence_counter() as nat,
            |i: int| i as u32,
        ),
        forall|i: int|
            #![trigger enc.chunk_history()[i]]
            0 <= i < enc.chunk_history().len() && is_sequenced(enc.chunk_history()[i].kind)
                ==> enc.chunk_history()[i].data.subrange(0, 4) == be32(
                enc.chunk_history()[i].sequence,
            ),
{
}

/// Frame accounting: once every declared frame has been written — the
/// state in which `finish` succeeds — the history holds exactly
/// `Meta.frames` frame control chunks.
pub proof fn lemma_frame_accounting(enc: Encoder)
    requires
        enc.wf(),
        enc.frames_written() == enc.spec_meta().frames,
    ensures
        count_of(enc.chunk_history(), ChunkKind::FrameControl) == enc.spec_meta().frames as int,
{
}

/// A single image-data block: no reachable encoder state holds more
/// than one `IDAT` chunk, and none after an `fdAT` chunk.
pub proof fn lemma_single_image_data(enc: Encoder)
    requires
        enc.wf(),
    ensures
        count_of(enc.chunk_history(), ChunkKind::ImageData) <= 1,
        forall|i: int, j: int|
            #![trigger enc.chunk_history()[i], enc.chunk_history()[j]]
            0 <= i < enc.chunk_history().len() && 0 <= j < enc.chunk_history().len()
                && enc.chunk_history()[i].kind is ImageData && enc.chunk_history()[j].kind
                is FrameData ==> i < j,
{
}

/// Rectangle bounds: against a rectangle that lies within the canvas,
/// a buffer of exactly `height * stride` bytes passes validation; a
/// strictly smaller buffer is too small; a buffer reaching one full
/// row past the rectangle's bottom edge is too large. (A buffer larger
/// by less than one row still holds exactly `height` complete rows and
/// passes, as do whole rows up to the bottom edge of an offset
/// rectangle: the implied row count `len / stride` is what is ruled.)
pub proof fn lemma_rectangle_bounds(meta: Meta, rect: Rectangle, stride: int, len: int)
    requires
        0 < stride <= usize::MAX,
        rect.spec_right() <= meta.width,
        rect.spec_bottom() <= meta.height,
        0 <= len,
    ensures
        len == rect.height * stride ==> size_check(meta, rect, stride, len) is None,
        len < rect.height * stride ==> size_check(meta, rect, stride, len) == Some(
            ApngError::TooSmallImage,
        ),
        len >= (rect.spec_bottom() + 1) * stride ==> size_check(meta, rect, stride, len) == Some(
            ApngError::TooLargeImage,
        ),
{
    let height = rect.height as int;
    if len == height * stride {
        lemma_div_multiples_vanish(height, stride);
        assert(height * stride == stride * height) by (nonlinear_arith);
    }
    if len < height * stride {
        lemma_div_is_ordered(len, height * stride - 1, stride);
        assert(height * stride - 1 == (height - 1) * stride + (stride - 1))
            by (nonlinear_arith);
        lemma_fundamental_div_mod_converse(height * stride - 1, stride, height - 1, stride - 1);
    }
    if len >= (rect.spec_bottom() + 1) * stride {
        let bottom = rect.spec_bottom();
        lemma_div_is_ordered((bottom + 1) * stride, len, stride);
        lemma_div_multiples_vanish(bottom + 1, stride);
        assert((bottom + 1) * stride == stride * (bottom + 1)) by (nonlinear_arith);
    }
}

} // verus!
