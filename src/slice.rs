//! The binary slice format: a framed header, then frames of a time and a
//! flat array of values over an index sub-region.
use vstd::prelude::*;
use crate::text::{lossy_text, text_from_bytes};
use crate::wire::{
    copy_range, fixed_record_outcome, le_u32, read_le_u32, record_outcome, record_payload,
    record_end, parse_record, check_fixed_record, tag_at, Outcome,
};

verus! {

/// The inclusive index sub-region that a slice covers.
#[derive(Clone, Copy, Debug, PartialEq, Eq, Structural)]
pub struct Dimensions {
    pub i_min: u32,
    pub i_max: u32,
    pub j_min: u32,
    pub j_max: u32,
    pub k_min: u32,
    pub k_max: u32,
}

/// The header of a slice file.
#[derive(Clone, Debug, PartialEq)]
pub struct SliceHeader {
    pub quantity: String,
    pub short_name: String,
    pub units: String,
    pub dimensions: Dimensions,
}

/// One frame: the time and the values, each as the bit pattern of a
/// little-endian IEEE-754 single-precision number.
#[derive(Clone, Debug, PartialEq)]
pub struct Frame {
    pub time: u32,
    pub values: Vec<u32>,
}

/// A whole slice file: the header and every frame up to the first that
/// could not be decoded.
#[derive(Clone, Debug, PartialEq)]
pub struct SliceFile {
    pub header: SliceHeader,
    pub frames: Vec<Frame>,
}

/// Why a slice file could not be decoded.
#[derive(Clone, Copy, Debug, PartialEq, Eq, Structural)]
pub enum ParseSliceError {
    /// The input ends inside a record.
    Truncated,
    /// The two length tags of the record at this byte offset (counted from
    /// the start of the bytes decoded) disagree, or the region record there
    /// does not hold exactly six words.
    RecLengthError(usize),
    /// The region has an axis whose upper bound lies below its lower bound,
    /// or a frame too long to address.
    InvalidDimensions,
}

/// The number of cells of an axis from `lo` to `hi`.
pub open spec fn extent(lo: u32, hi: u32) -> int {
    hi - lo + 1
}

impl Dimensions {
    pub open spec fn ordered(&self) -> bool {
        self.i_min <= self.i_max && self.j_min <= self.j_max && self.k_min <= self.k_max
    }

    /// The number of values in each frame.
    pub open spec fn spec_value_count(&self) -> int {
        extent(self.i_min, self.i_max) * extent(self.j_min, self.j_max) * extent(
            self.k_min,
            self.k_max,
        )
    }

    /// The bytes of one frame: the time record (4 + 4 + 4) and the payload
    /// record (4 + 4 * values + 4).
    pub open spec fn spec_frame_length(&self) -> int {
        12 + 8 + 4 * self.spec_value_count()
    }

    /// A region that frames can be read over: one frame's bytes can be
    /// counted in a `usize`.
    pub open spec fn valid(&self) -> bool {
        self.ordered() && self.spec_frame_length() <= usize::MAX
    }

    /// The number of values in each frame, counted wide enough for any
    /// ordered region.
    fn wide_value_count(&self) -> (r: u128)
        requires
            self.ordered(),
        ensures
            r == self.spec_value_count(),
            r <= 0x1_0000_0000_0000_0000u128 * 0x1_0000_0000u128,
    {
        let a = (self.i_max - self.i_min) as u128 + 1;
        let b = (self.j_max - self.j_min) as u128 + 1;
        let c = (self.k_max - self.k_min) as u128 + 1;
        assert(a * b <= 0x1_0000_0000u128 * 0x1_0000_0000u128) by (nonlinear_arith)
            requires
                a <= 0x1_0000_0000u128,
                b <= 0x1_0000_0000u128,
        ;
        let ab = a * b;
        assert(ab * c <= 0x1_0000_0000_0000_0000u128 * 0x1_0000_0000u128) by (nonlinear_arith)
            requires
                ab <= 0x1_0000_0000_0000_0000u128,
                c <= 0x1_0000_0000u128,
        ;
        ab * c
    }

    /// Checks `valid`.
    pub fn is_valid(&self) -> (r: bool)
        ensures
            r == self.valid(),
    {
        if self.i_min > self.i_max || self.j_min > self.j_max || self.k_min > self.k_max {
            return false;
        }
        let n = self.wide_value_count();
        20 + 4 * n <= usize::MAX as u128
    }

    /// The number of values in each frame.
    pub fn value_count(&self) -> (r: usize)
        requires
            self.valid(),
        ensures
            r == self.spec_value_count(),
    {
        self.wide_value_count() as usize
    }

    /// The byte length of one frame.
    pub fn frame_length(&self) -> (r: u64)
        requires
            self.valid(),
        ensures
            r == self.spec_frame_length(),
    {
        let n = self.value_count();
        (20 + 4 * n) as u64
    }
}

} // verus!

verus! {

/// The error that a failed piece of decoding reports.
pub open spec fn fault_of(o: Outcome, at: int) -> ParseSliceError {
    match o {
        Outcome::Mismatch => ParseSliceError::RecLengthError(at as usize),
        _ => ParseSliceError::Truncated,
    }
}

fn fault(o: Outcome, at: usize) -> (r: ParseSliceError)
    ensures
        r == fault_of(o, at as int),
{
    match o {
        Outcome::Mismatch => ParseSliceError::RecLengthError(at),
        _ => ParseSliceError::Truncated,
    }
}

/// Where the short name, units and region records start.
pub open spec fn short_name_at(b: Seq<u8>) -> int {
    record_end(b, 0)
}

pub open spec fn units_at(b: Seq<u8>) -> int {
    record_end(b, short_name_at(b))
}

pub open spec fn region_at(b: Seq<u8>) -> int {
    record_end(b, units_at(b))
}

/// How the framing of the header ends: the position after it, or the first
/// fault met when reading its records in order.
pub open spec fn header_outcome(b: Seq<u8>) -> Result<int, ParseSliceError> {
    match record_outcome(b, 0) {
        Outcome::Ends(_) => match record_outcome(b, short_name_at(b)) {
            Outcome::Ends(_) => match record_outcome(b, units_at(b)) {
                Outcome::Ends(_) => match fixed_record_outcome(b, region_at(b), 24) {
                    Outcome::Ends(e) => Ok(e),
                    o => Err(fault_of(o, region_at(b))),
                },
                o => Err(fault_of(o, units_at(b))),
            },
            o => Err(fault_of(o, short_name_at(b))),
        },
        o => Err(fault_of(o, 0)),
    }
}

/// The region held by the six words of the record at `at`.
pub open spec fn region_of(b: Seq<u8>, at: int) -> Dimensions {
    Dimensions {
        i_min: le_u32(b, at + 4) as u32,
        i_max: le_u32(b, at + 8) as u32,
        j_min: le_u32(b, at + 12) as u32,
        j_max: le_u32(b, at + 16) as u32,
        k_min: le_u32(b, at + 20) as u32,
        k_max: le_u32(b, at + 24) as u32,
    }
}

/// What opening a parser on `b` gives: the header's end, or the error.
pub open spec fn open_outcome(b: Seq<u8>) -> Result<int, ParseSliceError> {
    match header_outcome(b) {
        Ok(e) => if region_of(b, region_at(b)).valid() {
            Ok(e)
        } else {
            Err(ParseSliceError::InvalidDimensions)
        },
        Err(x) => Err(x),
    }
}

/// The header that `b` starts with, once `open_outcome(b)` is `Ok`.
pub open spec fn header_matches(h: SliceHeader, b: Seq<u8>) -> bool {
    &&& h.quantity@ == lossy_text(record_payload(b, 0))
    &&& h.short_name@ == lossy_text(record_payload(b, short_name_at(b)))
    &&& h.units@ == lossy_text(record_payload(b, units_at(b)))
    &&& h.dimensions == region_of(b, region_at(b))
}

fn read_region(b: &[u8], at: usize) -> (r: Dimensions)
    requires
        at + 28 <= b@.len(),
    ensures
        r == region_of(b@, at as int),
{
    let _n = b.len();
    Dimensions {
        i_min: read_le_u32(b, at + 4),
        i_max: read_le_u32(b, at + 8),
        j_min: read_le_u32(b, at + 12),
        j_max: read_le_u32(b, at + 16),
        k_min: read_le_u32(b, at + 20),
        k_max: read_le_u32(b, at + 24),
    }
}

/// Decodes the header at the start of `b` and the position after it.
pub fn parse_slice_header(b: &[u8]) -> (r: Result<(SliceHeader, usize), ParseSliceError>)
    ensures
        match r {
            Ok((h, e)) => header_outcome(b@) == Ok::<int, ParseSliceError>(e as int)
                && header_matches(h, b@),
            Err(x) => header_outcome(b@) == Err::<int, ParseSliceError>(x),
        },
{
    let _n = b.len();
    let (quantity, e0) = match parse_record(b, 0) {
        Ok(x) => x,
        Err(o) => return Err(fault(o, 0)),
    };
    let (short_name, e1) = match parse_record(b, e0) {
        Ok(x) => x,
        Err(o) => return Err(fault(o, e0)),
    };
    let (units, e2) = match parse_record(b, e1) {
        Ok(x) => x,
        Err(o) => return Err(fault(o, e1)),
    };
    assert(e0 == short_name_at(b@));
    assert(e1 == units_at(b@));
    assert(e2 == region_at(b@));
    let dimensions = match parse_dimensions(b, e2) {
        Ok(d) => d,
        Err(x) => return Err(x),
    };
    let header = SliceHeader {
        quantity: text_from_bytes(quantity.as_slice()),
        short_name: text_from_bytes(short_name.as_slice()),
        units: text_from_bytes(units.as_slice()),
        dimensions,
    };
    Ok((header, e2 + 32))
}

/// Decodes the region record at `at`: a record of exactly six words.
pub fn parse_dimensions(b: &[u8], at: usize) -> (r: Result<Dimensions, ParseSliceError>)
    requires
        at <= b@.len(),
    ensures
        match r {
            Ok(d) => fixed_record_outcome(b@, at as int, 24) == Outcome::Ends(at + 32) && d
                == region_of(b@, at as int),
            Err(x) => !(fixed_record_outcome(b@, at as int, 24) is Ends) && x == fault_of(
                fixed_record_outcome(b@, at as int, 24),
                at as int,
            ),
        },
{
    match check_fixed_record(b, at, 24) {
        Ok(_) => Ok(read_region(b, at)),
        Err(o) => Err(fault(o, at)),
    }
}

} // verus!

verus! {

/// How decoding a frame of `n` values at `at` ends: the position after it,
/// or the first fault met. The time record carries one word whatever its tags
/// say; the tags of each record must agree.
pub open spec fn frame_outcome(b: Seq<u8>, at: int, n: int) -> Result<int, ParseSliceError> {
    if at + 12 > b.len() {
        Err(ParseSliceError::Truncated)
    } else if tag_at(b, at) != tag_at(b, at + 8) {
        Err(ParseSliceError::RecLengthError(at as usize))
    } else if at + 20 + 4 * n > b.len() {
        Err(ParseSliceError::Truncated)
    } else if tag_at(b, at + 12) != tag_at(b, at + 16 + 4 * n) {
        Err(ParseSliceError::RecLengthError((at + 12) as usize))
    } else {
        Ok(at + 20 + 4 * n)
    }
}

/// `f` is the frame of `n` values stored at `at`.
pub open spec fn frame_matches(f: Frame, b: Seq<u8>, at: int, n: int) -> bool {
    &&& f.time as int == le_u32(b, at + 4)
    &&& f.values@.len() == n
    &&& forall|j: int| 0 <= j < n ==> #[trigger] f.values@[j] as int == le_u32(b, at + 16 + 4 * j)
}

/// Decodes the frame of `n` values at `at`.
pub fn parse_data_set(b: &[u8], at: usize, n: usize) -> (r: Result<Frame, ParseSliceError>)
    requires
        at <= b@.len(),
        20 + 4 * n <= usize::MAX,
    ensures
        match r {
            Ok(f) => frame_outcome(b@, at as int, n as int) is Ok && frame_matches(
                f,
                b@,
                at as int,
                n as int,
            ),
            Err(x) => frame_outcome(b@, at as int, n as int) == Err::<int, ParseSliceError>(x),
        },
{
    if b.len() - at < 12 {
        return Err(ParseSliceError::Truncated);
    }
    let rec_length = read_le_u32(b, at);
    let time = read_le_u32(b, at + 4);
    let check_length = read_le_u32(b, at + 8);
    if check_length != rec_length {
        return Err(ParseSliceError::RecLengthError(at));
    }
    let values = parse_slice_data(b, at + 12, n)?;
    Ok(Frame { time, values })
}

/// Decodes the payload record of `n` words at `at`.
pub fn parse_slice_data(b: &[u8], at: usize, n: usize) -> (r: Result<Vec<u32>, ParseSliceError>)
    requires
        at <= b@.len(),
        20 + 4 * n <= usize::MAX,
    ensures
        match r {
            Ok(v) => at + 8 + 4 * n <= b@.len() && tag_at(b@, at as int) == tag_at(
                b@,
                at + 4 + 4 * n,
            ) && v@.len() == n && forall|j: int|
                0 <= j < n ==> #[trigger] v@[j] as int == le_u32(b@, at + 4 + 4 * j),
            Err(x) => if at + 8 + 4 * n > b@.len() {
                x == ParseSliceError::Truncated
            } else {
                x == ParseSliceError::RecLengthError(at) && tag_at(b@, at as int) != tag_at(
                    b@,
                    at + 4 + 4 * n,
                )
            },
        },
{
    if b.len() - at < 8 + 4 * n {
        return Err(ParseSliceError::Truncated);
    }
    let rec_length = read_le_u32(b, at);
    let len = b.len();
    let mut values: Vec<u32> = Vec::with_capacity(n);
    let mut j: usize = 0;
    while j < n
        invariant
            j <= n,
            len == b@.len(),
            at + 8 + 4 * n <= b@.len(),
            values@.len() == j,
            forall|t: int| 0 <= t < j ==> #[trigger] values@[t] as int == le_u32(b@, at + 4 + 4 * t),
        decreases n - j,
    {
        values.push(read_le_u32(b, at + 4 + 4 * j));
        j = j + 1;
    }
    let check_length = read_le_u32(b, at + 4 + 4 * n);
    if check_length != rec_length {
        return Err(ParseSliceError::RecLengthError(at));
    }
    Ok(values)
}

} // verus!

verus! {

/// A cursor over the frames of one slice stream. It holds the header, the
/// byte length of the header and the index of the frame that comes next; the
/// caller holds the stream and hands over the bytes of each frame.
#[derive(Clone, Debug)]
pub struct SliceParser {
    pub header: SliceHeader,
    pub current_frame: usize,
    pub header_length: u64,
    /// The byte length of every frame, computed once from the header.
    pub frame_length: u64,
}

impl SliceParser {
    /// The parser's region allows frames to be read.
    pub open spec fn wf(&self) -> bool {
        &&& self.header.dimensions.valid()
        &&& self.frame_length == self.header.dimensions.spec_frame_length()
    }

    pub open spec fn spec_header_length(&self) -> int {
        self.header_length as int
    }

    pub open spec fn spec_current_frame(&self) -> int {
        self.current_frame as int
    }

    pub open spec fn spec_frame_length(&self) -> int {
        self.header.dimensions.spec_frame_length()
    }

    pub open spec fn spec_value_count(&self) -> int {
        self.header.dimensions.spec_value_count()
    }

    /// Opens a parser on a stream whose first bytes are `data`: decodes the
    /// header and remembers where it ends.
    pub fn new(data: &[u8]) -> (r: Result<SliceParser, ParseSliceError>)
        ensures
            match open_outcome(data@) {
                Ok(e) => r matches Ok(p) && p.wf() && header_matches(p.header, data@)
                    && p.spec_header_length() == e && p.spec_current_frame() == 0,
                Err(x) => r == Err::<SliceParser, ParseSliceError>(x),
            },
    {
        let (header, end) = parse_slice_header(data)?;
        if !header.dimensions.is_valid() {
            return Err(ParseSliceError::InvalidDimensions);
        }
        let frame_length = header.dimensions.frame_length();
        Ok(SliceParser { header, current_frame: 0, header_length: end as u64, frame_length })
    }

    /// The byte offset at which the first frame starts.
    pub fn header_length(&self) -> (r: u64)
        ensures
            r == self.spec_header_length(),
    {
        self.header_length
    }

    /// The byte length of every frame.
    pub fn frame_length(&self) -> (r: u64)
        requires
            self.wf(),
        ensures
            r == self.spec_frame_length(),
    {
        self.frame_length
    }

    /// The index of the frame that a sequential read decodes next.
    pub fn current_frame(&self) -> (r: usize)
        ensures
            r == self.spec_current_frame(),
    {
        self.current_frame
    }

    /// How far the stream moves forward to pass over one frame.
    pub fn seek_next_frame(&self) -> (r: u64)
        requires
            self.wf(),
        ensures
            r == self.spec_frame_length(),
    {
        self.frame_length()
    }

    /// The byte offset at which frame `frame` starts, if it can be counted
    /// in a `u64`.
    pub fn seek_frame(&self, frame: usize) -> (r: Option<u64>)
        requires
            self.wf(),
        ensures
            self.spec_header_length() + self.spec_frame_length() * frame <= u64::MAX ==> r
                == Some((self.spec_header_length() + self.spec_frame_length() * frame) as u64),
            self.spec_header_length() + self.spec_frame_length() * frame > u64::MAX ==> r
                is None,
    {
        let f = self.frame_length() as u128;
        let k = frame as u128;
        assert(f * k <= 0xFFFF_FFFF_FFFF_FFFFu128 * 0xFFFF_FFFF_FFFF_FFFFu128)
            by (nonlinear_arith)
            requires
                f <= 0xFFFF_FFFF_FFFF_FFFFu128,
                k <= 0xFFFF_FFFF_FFFF_FFFFu128,
        ;
        let offset = self.header_length as u128 + f * k;
        if offset <= u64::MAX as u128 {
            Some(offset as u64)
        } else {
            None
        }
    }

    /// Decodes the frame that `bytes` start with, the bytes of the stream at
    /// the parser's current frame, and moves on to the next frame when it
    /// succeeds.
    pub fn parse_frame(&mut self, bytes: &[u8]) -> (r: Result<Frame, ParseSliceError>)
        requires
            old(self).wf(),
        ensures
            final(self).wf(),
            final(self).header == old(self).header,
            final(self).spec_header_length() == old(self).spec_header_length(),
            match r {
                Ok(f) => frame_outcome(bytes@, 0, old(self).spec_value_count()) is Ok
                    && frame_matches(f, bytes@, 0, old(self).spec_value_count())
                    && final(self).spec_current_frame() == if old(self).spec_current_frame()
                    < usize::MAX {
                    old(self).spec_current_frame() + 1
                } else {
                    old(self).spec_current_frame()
                },
                Err(x) => frame_outcome(bytes@, 0, old(self).spec_value_count()) == Err::<
                    int,
                    ParseSliceError,
                >(x) && final(self).spec_current_frame() == old(self).spec_current_frame(),
            },
    {
        let n = self.header.dimensions.value_count();
        let frame = parse_data_set(bytes, 0, n);
        if frame.is_ok() && self.current_frame < usize::MAX {
            self.current_frame = self.current_frame + 1;
        }
        frame
    }

    /// Decodes frame `frame` from `bytes`, the bytes of the stream at
    /// `seek_frame(frame)`, and makes it the current frame.
    pub fn get_frame(&mut self, frame: usize, bytes: &[u8]) -> (r: Result<Frame, ParseSliceError>)
        requires
            old(self).wf(),
        ensures
            final(self).wf(),
            final(self).header == old(self).header,
            final(self).spec_header_length() == old(self).spec_header_length(),
            match r {
                Ok(f) => frame_outcome(bytes@, 0, old(self).spec_value_count()) is Ok
                    && frame_matches(f, bytes@, 0, old(self).spec_value_count())
                    && final(self).spec_current_frame() == if frame < usize::MAX {
                    frame + 1
                } else {
                    frame as int
                },
                Err(x) => frame_outcome(bytes@, 0, old(self).spec_value_count()) == Err::<
                    int,
                    ParseSliceError,
                >(x) && final(self).spec_current_frame() == frame,
            },
    {
        self.current_frame = frame;
        self.parse_frame(bytes)
    }
}

} // verus!

verus! {

/// How many frames of `n` values decode one after another from `at` before
/// the first one that does not.
pub open spec fn count_frames(b: Seq<u8>, at: int, n: int) -> nat
    decreases b.len() - at,
{
    match frame_outcome(b, at, n) {
        Ok(e) => if 0 <= n && at <= b.len() {
            1 + count_frames(b, e, n)
        } else {
            0
        },
        Err(_) => 0,
    }
}

/// Where the stream stands after `k` sequential frame reads from `at`, each
/// moving past the frame it decoded.
pub open spec fn position_after(b: Seq<u8>, at: int, n: int, k: nat) -> int
    decreases k,
{
    if k == 0 {
        at
    } else {
        match frame_outcome(b, at, n) {
            Ok(e) => position_after(b, e, n, (k - 1) as nat),
            Err(_) => at,
        }
    }
}

/// Decodes a whole slice file held in `data`: the header, then frames one
/// after another until the first that fails, which ends the list without an
/// error (a file cut inside a frame loses that frame).
pub fn parse_slice_file(data: &[u8]) -> (r: Result<SliceFile, ParseSliceError>)
    ensures
        match open_outcome(data@) {
            Ok(h) => r matches Ok(sf) && header_matches(sf.header, data@) && {
                let n = sf.header.dimensions.spec_value_count();
                let fl = sf.header.dimensions.spec_frame_length();
                &&& sf.frames@.len() == count_frames(data@, h, n)
                &&& forall|j: int|
                    0 <= j < sf.frames@.len() ==> frame_matches(
                        #[trigger] sf.frames@[j],
                        data@,
                        h + j * fl,
                        n,
                    )
            },
            Err(x) => r == Err::<SliceFile, ParseSliceError>(x),
        },
{
    let parser = SliceParser::new(data)?;
    let n = parser.header.dimensions.value_count();
    let fl = parser.frame_length() as usize;
    let len = data.len();
    let mut pos = parser.header_length as usize;
    let ghost h = pos as int;
    let mut frames: Vec<Frame> = Vec::new();
    assert(fl == 20 + 4 * n);
    while pos <= len
        invariant
            len == data@.len(),
            fl == 20 + 4 * n,
            h <= pos,
            pos == h + frames@.len() * fl,
            count_frames(data@, h, n as int) == frames@.len() + count_frames(
                data@,
                pos as int,
                n as int,
            ),
            forall|j: int|
                0 <= j < frames@.len() ==> frame_matches(
                    #[trigger] frames@[j],
                    data@,
                    h + j * fl,
                    n as int,
                ),
        ensures
            count_frames(data@, pos as int, n as int) == 0,
        decreases len + 1 - pos,
    {
        match parse_data_set(data, pos, n) {
            Ok(f) => {
                assert(count_frames(data@, pos as int, n as int) == 1 + count_frames(
                    data@,
                    pos + fl,
                    n as int,
                ));
                frames.push(f);
                pos = pos + fl;
                assert(pos == h + frames@.len() * fl) by (nonlinear_arith)
                    requires
                        pos == h + (frames@.len() - 1) * fl + fl,
                ;
            },
            Err(_) => {
                assert(count_frames(data@, pos as int, n as int) == 0);
                break;
            },
        }
    }
    Ok(SliceFile { header: parser.header, frames })
}

} // verus!

verus! {

/// Reading frames one after another from the end of the header passes the
/// offsets that seeking computes: after `k` sequential reads of sound frames
/// the stream stands at the header's length plus `k` frame lengths.
pub proof fn lemma_sequential_reads_match_seek(b: Seq<u8>, d: Dimensions, h: int, k: nat)
    requires
        d.valid(),
        k <= count_frames(b, h, d.spec_value_count()),
    ensures
        position_after(b, h, d.spec_value_count(), k) == h + k * d.spec_frame_length(),
    decreases k,
{
    let n = d.spec_value_count();
    let fl = d.spec_frame_length();
    if k > 0 {
        assert(n >= 0) by (nonlinear_arith)
            requires
                n == extent(d.i_min, d.i_max) * extent(d.j_min, d.j_max) * extent(
                    d.k_min,
                    d.k_max,
                ),
                extent(d.i_min, d.i_max) >= 1,
                extent(d.j_min, d.j_max) >= 1,
                extent(d.k_min, d.k_max) >= 1,
        ;
        assert(frame_outcome(b, h, n) == Ok::<int, ParseSliceError>(h + fl));
        lemma_sequential_reads_match_seek(b, d, h + fl, (k - 1) as nat);
        assert(h + fl + (k - 1) * fl == h + k * fl) by (nonlinear_arith);
    } else {
        assert(k * fl == 0) by (nonlinear_arith)
            requires
                k == 0,
        ;
    }
}

/// Changing the trailing tag of a sound record, and nothing else, makes its
/// decoding fail with a mismatch.
pub proof fn lemma_corrupt_trailing_tag(b: Seq<u8>, c: Seq<u8>, at: int)
    requires
        0 <= at,
        record_outcome(b, at) is Ends,
        c.len() == b.len(),
        forall|i: int|
            0 <= i < b.len() && !(at + 4 + tag_at(b, at) <= i < at + 8 + tag_at(b, at)) ==> c[i]
                == b[i],
        le_u32(c, at + 4 + tag_at(b, at)) != le_u32(b, at + 4 + tag_at(b, at)),
    ensures
        record_outcome(c, at) == Outcome::Mismatch,
{
    assert(tag_at(c, at) == tag_at(b, at));
}

/// Changing the leading tag of a sound record, and nothing else, makes its
/// decoding fail (short input or a mismatch), unless the four bytes where the
/// new length puts the trailing tag happen to spell that new length.
pub proof fn lemma_corrupt_leading_tag(b: Seq<u8>, c: Seq<u8>, at: int)
    requires
        0 <= at,
        record_outcome(b, at) is Ends,
        c.len() == b.len(),
        forall|i: int| 0 <= i < b.len() && !(at <= i < at + 4) ==> c[i] == b[i],
        le_u32(c, at) != le_u32(b, at),
        at + 8 + tag_at(c, at) <= c.len() ==> le_u32(c, at + 4 + tag_at(c, at)) != tag_at(c, at),
    ensures
        record_outcome(c, at) == Outcome::Short || record_outcome(c, at) == Outcome::Mismatch,
{
}

/// Changing the trailing tag of the time record or of the payload record of
/// a sound frame, and nothing else, makes the frame fail with a mismatch.
pub proof fn lemma_corrupt_frame_tag(b: Seq<u8>, c: Seq<u8>, at: int, n: int, t: int)
    requires
        0 <= at,
        0 <= n,
        frame_outcome(b, at, n) is Ok,
        t == at + 8 || t == at + 16 + 4 * n,
        c.len() == b.len(),
        forall|i: int| 0 <= i < b.len() && !(t <= i < t + 4) ==> c[i] == b[i],
        le_u32(c, t) != le_u32(b, t),
    ensures
        frame_outcome(c, at, n) matches Err(ParseSliceError::RecLengthError(_)),
{
    assert(tag_at(c, at) == tag_at(b, at));
    assert(tag_at(c, at + 12) == tag_at(b, at + 12));
    if t == at + 8 {
        assert(tag_at(c, at + 16 + 4 * n) == tag_at(b, at + 16 + 4 * n));
    } else {
        assert(tag_at(c, at + 8) == tag_at(b, at + 8));
    }
}

} // verus!

verus! {

/// How many more bytes than `b` holds are needed to decide the header that
/// starts at `at`, with `k` text records still to come before the region
/// record; 0 when `b` already decides it.
pub open spec fn wanted_from(b: Seq<u8>, at: int, k: nat) -> int
    decreases k,
{
    if at + 4 > b.len() {
        at + 4 - b.len()
    } else if k == 0 {
        if tag_at(b, at) != 24 || at + 32 <= b.len() {
            0
        } else {
            at + 32 - b.len()
        }
    } else if record_end(b, at) > b.len() {
        record_end(b, at) - b.len()
    } else if record_outcome(b, at) == Outcome::Mismatch {
        0
    } else {
        wanted_from(b, record_end(b, at), (k - 1) as nat)
    }
}

/// How many more bytes a stream's first bytes `b` need before `SliceParser::new`
/// can decide the header: 0 when it can.
pub fn header_bytes_wanted(b: &[u8]) -> (r: u64)
    ensures
        r == wanted_from(b@, 0, 3),
{
    let ulen = b.len();
    let len = ulen as u64;
    let mut at: u64 = 0;
    let mut k: usize = 3;
    while k > 0
        invariant
            len == b@.len(),
            ulen == b@.len(),
            k <= 3,
            at <= (3 - k) * 0x1_0000_0008,
            at <= b@.len(),
            wanted_from(b@, 0, 3) == wanted_from(b@, at as int, k as nat),
        decreases k,
    {
        if at + 4 > len {
            return at + 4 - len;
        }
        let n = read_le_u32(b, at as usize) as u64;
        let end = at + 8 + n;
        assert(record_end(b@, at as int) == end);
        assert(wanted_from(b@, at as int, k as nat) == if end > len {
            end - len
        } else if record_outcome(b@, at as int) == Outcome::Mismatch {
            0
        } else {
            wanted_from(b@, end as int, (k - 1) as nat)
        });
        if end > len {
            return end - len;
        }
        if read_le_u32(b, (at + 4 + n) as usize) as u64 != n {
            return 0;
        }
        at = end;
        k = k - 1;
    }
    if at + 4 > len {
        return at + 4 - len;
    }
    if read_le_u32(b, at as usize) != 24 || at + 32 <= len {
        0
    } else {
        at + 32 - len
    }
}

} // verus!

verus! {

/// Once `header_bytes_wanted` asks for nothing more, the bytes at hand
/// decide the header: decoding it does not fail for want of input.
pub proof fn lemma_nothing_wanted_decides_header(b: Seq<u8>)
    requires
        wanted_from(b, 0, 3) == 0,
    ensures
        header_outcome(b) != Err::<int, ParseSliceError>(ParseSliceError::Truncated),
{
    reveal_with_fuel(wanted_from, 4);
    let e0 = record_end(b, 0);
    let e1 = record_end(b, e0);
    let e2 = record_end(b, e1);
    assert(short_name_at(b) == e0);
    assert(units_at(b) == e1);
    assert(region_at(b) == e2);
}

} // verus!
