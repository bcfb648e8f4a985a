//! DSF (Direct Stream File) reading from a stream that cannot seek.
//!
//! A DSF file lays audio out in blocks of a fixed size per channel: one block
//! of the first channel, one of the second, and so on, then the next round.
//! The reader turns that back into one byte per channel at a time, bits in
//! time order from the most significant down, whatever bit order the file
//! uses, and stops at the declared length so that the padding of the last
//! block never reaches a converter.
//!
//! Bytes come in as the caller gets hold of them: `new` takes the header and
//! whatever follows it, `feed` takes more.
use crate::text;
use vstd::prelude::*;

verus! {

/// The `fmt ` version this reader understands.
pub const FMT_VERSION: u32 = 1;

/// The format id of raw DSD.
pub const FMT_FORMAT_ID_DSD_RAW: u32 = 0;

/// Where the audio starts: behind the `DSD `, `fmt ` and `data` headers.
pub const PAYLOAD_OFFSET: usize = 92;

/// Why a stream is not a readable DSF stream.
#[derive(Debug, Clone, Copy)]
pub enum Error {
    /// The stream ended inside the headers.
    UnexpectedEof,
    /// The stream does not start with `DSD `.
    BadMagic([u8; 4]),
    /// Another chunk stands where `expected` should.
    UnexpectedChunk { expected: [u8; 4], got: [u8; 4] },
    /// A DSF stream of a kind that is not supported.
    Unsupported(&'static str),
    /// A field holds a value it cannot have.
    Invalid(&'static str),
}

/// Four bytes as a list of decimal numbers in brackets.
pub open spec fn id_text(id: [u8; 4]) -> Seq<char> {
    "["@ + text::decimal(id[0] as nat) + ", "@ + text::decimal(id[1] as nat) + ", "@ + text::decimal(
        id[2] as nat,
    ) + ", "@ + text::decimal(id[3] as nat) + "]"@
}

/// Appends four bytes as a list of decimal numbers in brackets.
fn push_id(out: &mut String, id: [u8; 4])
    ensures
        final(out)@ == old(out)@ + id_text(id),
{
    out.append("[");
    text::push_decimal(out, id[0] as u64);
    out.append(", ");
    text::push_decimal(out, id[1] as u64);
    out.append(", ");
    text::push_decimal(out, id[2] as u64);
    out.append(", ");
    text::push_decimal(out, id[3] as u64);
    out.append("]");
    assert(out@ =~= old(out)@ + id_text(id));
}

impl Error {
    /// The error in words.
    pub open spec fn words(&self) -> Seq<char> {
        match *self {
            Error::UnexpectedEof => "io: failed to fill whole buffer"@,
            Error::BadMagic(id) => "not a DSF stream (bad magic "@ + id_text(id) + ")"@,
            Error::UnexpectedChunk { expected, got } => "expected chunk "@ + id_text(expected) + ", got "@
                + id_text(got),
            Error::Unsupported(what) => "unsupported DSF: "@ + what@,
            Error::Invalid(what) => "invalid DSF field: "@ + what@,
        }
    }

    /// The error in words.
    pub fn message(&self) -> (r: String)
        ensures
            r@ == self.words(),
    {
        match *self {
            Error::UnexpectedEof => "io: failed to fill whole buffer".to_owned(),
            Error::BadMagic(id) => {
                let mut out = "not a DSF stream (bad magic ".to_owned();
                push_id(&mut out, id);
                out.append(")");
                out
            },
            Error::UnexpectedChunk { expected, got } => {
                let mut out = "expected chunk ".to_owned();
                push_id(&mut out, expected);
                out.append(", got ");
                push_id(&mut out, got);
                out
            },
            Error::Unsupported(what) => text::joined("unsupported DSF: ", what),
            Error::Invalid(what) => text::joined("invalid DSF field: ", what),
        }
    }
}

/// What the `fmt ` chunk says.
#[derive(Debug, Clone, Copy)]
pub struct DsfHeader {
    pub channels: u32,
    /// DSD bits per second per channel.
    pub sampling_frequency: u32,
    /// DSD bits per channel in the whole stream.
    pub sample_count: u64,
    /// Bytes per channel and block.
    pub block_size: u32,
}

impl DsfHeader {
    /// The DSD bytes that each channel holds, without padding.
    pub open spec fn total_bytes(&self) -> int {
        (self.sample_count + 7) / 8
    }

    /// What every header that the reader accepts satisfies.
    pub open spec fn wf(&self) -> bool {
        &&& 1 <= self.channels <= 6
        &&& supported_frequency(self.sampling_frequency)
        &&& 1 <= self.block_size <= 65536
    }

    /// The DSD bytes that each channel holds, without padding.
    pub fn bytes_per_channel(&self) -> (r: u64)
        ensures
            r == self.total_bytes(),
    {
        let whole: u64 = self.sample_count / 8;
        if self.sample_count % 8 == 0 {
            whole
        } else {
            whole + 1
        }
    }
}

/// The DSD rates that are supported: 64, 128, 256 and 512 times 44.1 kHz.
pub open spec fn supported_frequency(f: u32) -> bool {
    f == 2_822_400 || f == 5_644_800 || f == 11_289_600 || f == 22_579_200
}

// ------------------------------------------------------------ little-endian fields

/// The 32-bit little-endian number at `i`.
pub open spec fn le32(s: Seq<u8>, i: int) -> int {
    s[i] + 256 * s[i + 1] + 65536 * s[i + 2] + 0x100_0000 * s[i + 3]
}

/// The 64-bit little-endian number at `i`.
pub open spec fn le64(s: Seq<u8>, i: int) -> int {
    le32(s, i) + 0x1_0000_0000 * le32(s, i + 4)
}

/// Whether `id` stands at `i`.
pub open spec fn id_at(s: Seq<u8>, i: int, id: [u8; 4]) -> bool {
    s[i] == id[0] && s[i + 1] == id[1] && s[i + 2] == id[2] && s[i + 3] == id[3]
}

/// Reads four bytes and steps over them.
fn read_id(bytes: &[u8], pos: &mut usize) -> (r: Result<[u8; 4], Error>)
    requires
        *old(pos) <= bytes@.len(),
    ensures
        *old(pos) + 4 <= bytes@.len() ==> {
            &&& r is Ok
            &&& id_at(bytes@, *old(pos) as int, r->Ok_0)
            &&& *final(pos) == *old(pos) + 4
        },
        *old(pos) + 4 > bytes@.len() ==> r == Err::<[u8; 4], Error>(Error::UnexpectedEof),
{
    let i: usize = *pos;
    if bytes.len() - i < 4 {
        return Err(Error::UnexpectedEof);
    }
    *pos = i + 4;
    Ok([bytes[i], bytes[i + 1], bytes[i + 2], bytes[i + 3]])
}

/// Reads a 32-bit little-endian number and steps over it.
fn read_u32_le(bytes: &[u8], pos: &mut usize) -> (r: Result<u32, Error>)
    requires
        *old(pos) <= bytes@.len(),
    ensures
        *old(pos) + 4 <= bytes@.len() ==> {
            &&& r is Ok
            &&& r->Ok_0 == le32(bytes@, *old(pos) as int)
            &&& *final(pos) == *old(pos) + 4
        },
        *old(pos) + 4 > bytes@.len() ==> r == Err::<u32, Error>(Error::UnexpectedEof),
{
    let i: usize = *pos;
    if bytes.len() - i < 4 {
        return Err(Error::UnexpectedEof);
    }
    *pos = i + 4;
    Ok(
        bytes[i] as u32 + 256 * (bytes[i + 1] as u32) + 65536 * (bytes[i + 2] as u32) + 0x100_0000 * (
        bytes[i + 3] as u32),
    )
}

/// Reads a 64-bit little-endian number and steps over it.
fn read_u64_le(bytes: &[u8], pos: &mut usize) -> (r: Result<u64, Error>)
    requires
        *old(pos) <= bytes@.len(),
    ensures
        *old(pos) + 8 <= bytes@.len() ==> {
            &&& r is Ok
            &&& r->Ok_0 == le64(bytes@, *old(pos) as int)
            &&& *final(pos) == *old(pos) + 8
        },
        *old(pos) + 8 > bytes@.len() ==> r == Err::<u64, Error>(Error::UnexpectedEof),
{
    let i: usize = *pos;
    if bytes.len() - i < 8 {
        return Err(Error::UnexpectedEof);
    }
    let lo = read_u32_le(bytes, pos)?;
    let hi = read_u32_le(bytes, pos)?;
    Ok(lo as u64 + 0x1_0000_0000 * (hi as u64))
}

// ------------------------------------------------------------ the headers

/// The id of the first chunk.
pub open spec fn header_id() -> [u8; 4] {
    [0x44u8, 0x53, 0x44, 0x20]
}

/// The id of the format chunk.
pub open spec fn fmt_id() -> [u8; 4] {
    [0x66u8, 0x6d, 0x74, 0x20]
}

/// The id of the data chunk.
pub open spec fn data_id() -> [u8; 4] {
    [0x64u8, 0x61, 0x74, 0x61]
}

/// The four bytes at `i`.
pub open spec fn four(s: Seq<u8>, i: int) -> [u8; 4] {
    [s[i], s[i + 1], s[i + 2], s[i + 3]]
}

/// What keeps the bytes at 0 from being a `DSD ` chunk, if anything.
pub open spec fn dsd_chunk_error(s: Seq<u8>) -> Option<Error> {
    if s.len() < 4 {
        Some(Error::UnexpectedEof)
    } else if four(s, 0) != header_id() {
        Some(Error::BadMagic(four(s, 0)))
    } else if s.len() < 28 {
        Some(Error::UnexpectedEof)
    } else if le64(s, 4) != 28 {
        Some(Error::Invalid("DSD chunk size != 28"))
    } else {
        None
    }
}

/// What keeps the bytes at 28 from being a supported `fmt ` chunk, if
/// anything. The fields are judged in the order in which they stand.
pub open spec fn fmt_chunk_error(s: Seq<u8>) -> Option<Error> {
    if s.len() < 32 {
        Some(Error::UnexpectedEof)
    } else if four(s, 28) != fmt_id() {
        Some(Error::UnexpectedChunk { expected: fmt_id(), got: four(s, 28) })
    } else if s.len() < 40 {
        Some(Error::UnexpectedEof)
    } else if le64(s, 32) != 52 {
        Some(Error::Invalid("fmt chunk size != 52"))
    } else if s.len() < 44 {
        Some(Error::UnexpectedEof)
    } else if le32(s, 40) != FMT_VERSION {
        Some(Error::Unsupported("fmt version != 1"))
    } else if s.len() < 48 {
        Some(Error::UnexpectedEof)
    } else if le32(s, 44) != FMT_FORMAT_ID_DSD_RAW {
        Some(Error::Unsupported("format id != 0 (DSD raw)"))
    } else if s.len() < 56 {
        Some(Error::UnexpectedEof)
    } else if !(1 <= le32(s, 52) <= 6) {
        Some(Error::Invalid("channel count out of range"))
    } else if s.len() < 60 {
        Some(Error::UnexpectedEof)
    } else if !supported_frequency(le32(s, 56) as u32) {
        Some(Error::Unsupported("unexpected DSD sampling frequency"))
    } else if s.len() < 64 {
        Some(Error::UnexpectedEof)
    } else if le32(s, 60) != 1 && le32(s, 60) != 8 {
        Some(Error::Invalid("bits per sample must be 1 or 8"))
    } else if s.len() < 76 {
        Some(Error::UnexpectedEof)
    } else if !(1 <= le32(s, 72) <= 65536) {
        Some(Error::Invalid("implausible block size"))
    } else if s.len() < 80 {
        Some(Error::UnexpectedEof)
    } else {
        None
    }
}

/// What keeps the bytes at 80 from being a `data` header, if anything.
pub open spec fn data_chunk_error(s: Seq<u8>) -> Option<Error> {
    if s.len() < 84 {
        Some(Error::UnexpectedEof)
    } else if four(s, 80) != data_id() {
        Some(Error::UnexpectedChunk { expected: data_id(), got: four(s, 80) })
    } else if s.len() < 92 {
        Some(Error::UnexpectedEof)
    } else {
        None
    }
}

/// The first thing wrong with the three headers of a stream, if anything is.
pub open spec fn header_error(s: Seq<u8>) -> Option<Error> {
    if dsd_chunk_error(s) is Some {
        dsd_chunk_error(s)
    } else if fmt_chunk_error(s) is Some {
        fmt_chunk_error(s)
    } else {
        data_chunk_error(s)
    }
}

/// The header that a stream declares.
pub open spec fn declared_header(s: Seq<u8>) -> DsfHeader {
    DsfHeader {
        channels: le32(s, 52) as u32,
        sampling_frequency: le32(s, 56) as u32,
        sample_count: le64(s, 64) as u64,
        block_size: le32(s, 72) as u32,
    }
}

/// Whether the stream's bytes hold the oldest bit in their lowest place.
pub open spec fn declared_lsb_first(s: Seq<u8>) -> bool {
    le32(s, 60) == 1
}

fn same_id(a: [u8; 4], b: [u8; 4]) -> (r: bool)
    ensures
        r == (a == b),
{
    let r: bool = a[0] == b[0] && a[1] == b[1] && a[2] == b[2] && a[3] == b[3];
    proof {
        if r {
            assert(a@ =~= b@);
            assert(a =~= b);
        }
    }
    r
}

/// Reads the `DSD ` chunk: its size, the size of the file and the offset of
/// the metadata.
fn read_dsd_chunk(bytes: &[u8], pos: &mut usize) -> (r: Result<(u64, u64, u64), Error>)
    requires
        *old(pos) == 0,
    ensures
        match dsd_chunk_error(bytes@) {
            Some(e) => r == Err::<(u64, u64, u64), Error>(e),
            None => {
                &&& r is Ok
                &&& r->Ok_0.0 == le64(bytes@, 4)
                &&& r->Ok_0.1 == le64(bytes@, 12)
                &&& r->Ok_0.2 == le64(bytes@, 20)
                &&& *final(pos) == 28
            },
        },
{
    let id = read_id(bytes, pos)?;
    assert(id =~= four(bytes@, 0));
    if !same_id(id, [0x44u8, 0x53, 0x44, 0x20]) {
        return Err(Error::BadMagic(id));
    }
    let size = read_u64_le(bytes, pos)?;
    let total = read_u64_le(bytes, pos)?;
    let meta = read_u64_le(bytes, pos)?;
    if size != 28 {
        return Err(Error::Invalid("DSD chunk size != 28"));
    }
    Ok((size, total, meta))
}

/// Reads the `fmt ` chunk: the header, and whether bytes hold their oldest
/// bit in the lowest place.
fn read_fmt_chunk(bytes: &[u8], pos: &mut usize) -> (r: Result<(DsfHeader, bool), Error>)
    requires
        *old(pos) == 28,
        bytes@.len() >= 28,
    ensures
        match fmt_chunk_error(bytes@) {
            Some(e) => r == Err::<(DsfHeader, bool), Error>(e),
            None => {
                &&& r == Ok::<(DsfHeader, bool), Error>(
                    (declared_header(bytes@), declared_lsb_first(bytes@)),
                )
                &&& declared_header(bytes@).wf()
                &&& *final(pos) == 80
            },
        },
{
    let id = read_id(bytes, pos)?;
    assert(id =~= four(bytes@, 28));
    let expected: [u8; 4] = [0x66u8, 0x6d, 0x74, 0x20];
    if !same_id(id, expected) {
        return Err(Error::UnexpectedChunk { expected, got: id });
    }
    let size = read_u64_le(bytes, pos)?;
    if size != 52 {
        return Err(Error::Invalid("fmt chunk size != 52"));
    }
    let version = read_u32_le(bytes, pos)?;
    if version != FMT_VERSION {
        return Err(Error::Unsupported("fmt version != 1"));
    }
    let format_id = read_u32_le(bytes, pos)?;
    if format_id != FMT_FORMAT_ID_DSD_RAW {
        return Err(Error::Unsupported("format id != 0 (DSD raw)"));
    }
    let _channel_type = read_u32_le(bytes, pos)?;
    let channels = read_u32_le(bytes, pos)?;
    if channels < 1 || channels > 6 {
        return Err(Error::Invalid("channel count out of range"));
    }
    let sampling_frequency = read_u32_le(bytes, pos)?;
    if sampling_frequency != 2_822_400 && sampling_frequency != 5_644_800 && sampling_frequency
        != 11_289_600 && sampling_frequency != 22_579_200 {
        return Err(Error::Unsupported("unexpected DSD sampling frequency"));
    }
    let bits_per_sample = read_u32_le(bytes, pos)?;
    if bits_per_sample != 1 && bits_per_sample != 8 {
        return Err(Error::Invalid("bits per sample must be 1 or 8"));
    }
    let sample_count = read_u64_le(bytes, pos)?;
    let block_size = read_u32_le(bytes, pos)?;
    if block_size == 0 || block_size > 65536 {
        return Err(Error::Invalid("implausible block size"));
    }
    let _reserved = read_u32_le(bytes, pos)?;
    Ok((DsfHeader { channels, sampling_frequency, sample_count, block_size }, bits_per_sample == 1))
}

/// Reads the header of the `data` chunk: its size.
fn read_data_chunk_header(bytes: &[u8], pos: &mut usize) -> (r: Result<u64, Error>)
    requires
        *old(pos) == 80,
        bytes@.len() >= 80,
    ensures
        match data_chunk_error(bytes@) {
            Some(e) => r == Err::<u64, Error>(e),
            None => {
                &&& r is Ok
                &&& r->Ok_0 == le64(bytes@, 84)
                &&& *final(pos) == 92
            },
        },
{
    let id = read_id(bytes, pos)?;
    assert(id =~= four(bytes@, 80));
    let expected: [u8; 4] = [0x64u8, 0x61, 0x74, 0x61];
    if !same_id(id, expected) {
        return Err(Error::UnexpectedChunk { expected, got: id });
    }
    read_u64_le(bytes, pos)
}

// ------------------------------------------------------------ bit order

/// The byte with its bits in the opposite order.
pub open spec fn reversed(b: u8) -> u8 {
    ((b & 0x01) << 7) | ((b & 0x02) << 5) | ((b & 0x04) << 3) | ((b & 0x08) << 1) | ((b & 0x10) >> 1)
        | ((b & 0x20) >> 3) | ((b & 0x40) >> 5) | ((b & 0x80) >> 7)
}

/// Bit `i` of a reversed byte is bit `7 - i` of the byte.
pub proof fn law_reversed_bits(b: u8, i: u8)
    requires
        i < 8,
    ensures
        (reversed(b) >> i) & 1 == (b >> ((7 - i) as u8)) & 1,
{
    assert(i < 8 ==> (reversed(b) >> i) & 1 == (b >> ((7 - i) as u8)) & 1) by (bit_vector);
}

/// Reversing twice gives the byte back.
pub proof fn law_reversed_twice(b: u8)
    ensures
        reversed(reversed(b)) == b,
{
    assert(reversed(reversed(b)) == b) by (bit_vector);
}

/// Reverses the bits of a byte.
pub fn reverse_bits(b: u8) -> (r: u8)
    ensures
        r == reversed(b),
{
    ((b & 0x01) << 7) | ((b & 0x02) << 5) | ((b & 0x04) << 3) | ((b & 0x08) << 1) | ((b & 0x10) >> 1)
        | ((b & 0x20) >> 3) | ((b & 0x40) >> 5) | ((b & 0x80) >> 7)
}

// ------------------------------------------------------------ the reader

/// Where byte `k` of channel `ch` stands in the audio data.
pub open spec fn place(header: DsfHeader, k: int, ch: int) -> int {
    (k / header.block_size as int) * (header.block_size * header.channels) + ch * header.block_size + k
        % header.block_size as int
}

/// Whether the audio data reaches byte `k` of every channel.
pub open spec fn reaches(header: DsfHeader, payload: Seq<u8>, k: int) -> bool {
    place(header, k, header.channels - 1) < payload.len()
}

/// Byte `k` of channel `ch`, its oldest bit in the highest place.
pub open spec fn channel_byte(
    header: DsfHeader,
    lsb_first: bool,
    payload: Seq<u8>,
    k: int,
    ch: int,
) -> u8 {
    let raw = payload[place(header, k, ch)];
    if lsb_first {
        reversed(raw)
    } else {
        raw
    }
}

/// Byte `k` of every channel, in channel order.
pub open spec fn byte_per_channel(
    header: DsfHeader,
    lsb_first: bool,
    payload: Seq<u8>,
    k: int,
) -> Seq<u8> {
    Seq::new(header.channels as nat, |ch: int| channel_byte(header, lsb_first, payload, k, ch))
}

/// A reader over the bytes that have come in so far.
pub struct DsfReader {
    header: DsfHeader,
    lsb_first: bool,
    /// Bytes that came in; those before `start` are spent.
    buffer: Vec<u8>,
    /// Where the current round of blocks starts in `buffer`.
    start: usize,
    /// Which byte of each block is next.
    pos_in_block: usize,
    bytes_yielded_per_channel: u64,
    cap_per_channel: u64,
    /// All audio data that came in.
    payload: Ghost<Seq<u8>>,
}

impl DsfReader {
    /// The header of the stream.
    pub closed spec fn head(&self) -> DsfHeader {
        self.header
    }

    /// Whether the stream's bytes hold the oldest bit in their lowest place.
    pub closed spec fn is_lsb_first(&self) -> bool {
        self.lsb_first
    }

    /// All audio data that has come in.
    pub closed spec fn audio(&self) -> Seq<u8> {
        self.payload@
    }

    /// How many bytes of each channel have been handed out.
    pub closed spec fn yielded(&self) -> int {
        self.bytes_yielded_per_channel as int
    }

    /// Whether byte `yielded()` of every channel is at hand and belongs to
    /// the declared length.
    pub open spec fn has_next(&self) -> bool {
        self.yielded() < self.head().total_bytes() && reaches(self.head(), self.audio(), self.yielded())
    }

    /// What holds of every reader.
    pub closed spec fn wf(&self) -> bool {
        let bs = self.header.block_size as int;
        let round = (self.yielded() / bs) * (bs * self.header.channels);
        &&& self.header.wf()
        &&& self.cap_per_channel == self.header.total_bytes()
        &&& self.bytes_yielded_per_channel <= self.cap_per_channel
        &&& self.pos_in_block == self.yielded() % bs
        &&& self.start <= self.buffer@.len()
        &&& 0 <= round <= self.payload@.len()
        &&& self.buffer@.skip(self.start as int) == self.payload@.skip(round)
    }

    /// Reads the headers of a stream that starts with `bytes`. What follows
    /// the headers is the first audio data.
    pub fn new(bytes: &[u8]) -> (r: Result<Self, Error>)
        ensures
            match header_error(bytes@) {
                Some(e) => r == Err::<DsfReader, Error>(e),
                None => {
                    &&& r is Ok
                    &&& r->Ok_0.wf()
                    &&& r->Ok_0.head() == declared_header(bytes@)
                    &&& r->Ok_0.is_lsb_first() == declared_lsb_first(bytes@)
                    &&& r->Ok_0.audio() == bytes@.skip(PAYLOAD_OFFSET as int)
                    &&& r->Ok_0.yielded() == 0
                },
            },
    {
        let mut pos: usize = 0;
        let _dsd = read_dsd_chunk(bytes, &mut pos)?;
        let (header, lsb_first) = read_fmt_chunk(bytes, &mut pos)?;
        let _size = read_data_chunk_header(bytes, &mut pos)?;
        let cap: u64 = header.bytes_per_channel();
        let buffer = vstd::slice::slice_to_vec(vstd::slice::slice_subrange(bytes, pos, bytes.len()));
        let ghost audio = bytes@.skip(PAYLOAD_OFFSET as int);
        let reader = DsfReader {
            header,
            lsb_first,
            buffer,
            start: 0,
            pos_in_block: 0,
            bytes_yielded_per_channel: 0,
            cap_per_channel: cap,
            payload: Ghost(audio),
        };
        proof {
            let bs = header.block_size as int;
            assert(0int / bs == 0 && 0int % bs == 0) by (nonlinear_arith)
                requires
                    bs > 0,
            ;
            assert(0 * (bs * header.channels) == 0) by (nonlinear_arith);
            assert(reader.buffer@ =~= audio);
            assert(reader.buffer@.skip(0) =~= audio.skip(0));
        }
        Ok(reader)
    }

    /// The header of the stream.
    pub fn header(&self) -> (r: &DsfHeader)
        ensures
            *r == self.head(),
    {
        &self.header
    }

    /// Takes more of the stream's audio data in.
    pub fn feed(&mut self, bytes: &[u8])
        requires
            old(self).wf(),
        ensures
            final(self).wf(),
            final(self).audio() == old(self).audio() + bytes@,
            final(self).head() == old(self).head(),
            final(self).is_lsb_first() == old(self).is_lsb_first(),
            final(self).yielded() == old(self).yielded(),
    {
        let ghost bs = self.header.block_size as int;
        let ghost round = (self.yielded() / bs) * (bs * self.header.channels);
        let len: usize = self.buffer.len();
        let mut rest = vstd::slice::slice_to_vec(
            vstd::slice::slice_subrange(self.buffer.as_slice(), self.start, len),
        );
        let ghost before = rest@;
        let mut i: usize = 0;
        while i < bytes.len()
            invariant
                i <= bytes@.len(),
                rest@ == before + bytes@.take(i as int),
            decreases bytes@.len() - i,
        {
            rest.push(bytes[i]);
            assert(bytes@.take(i + 1) =~= bytes@.take(i as int).push(bytes@[i as int]));
            i = i + 1;
        }
        assert(bytes@.take(bytes@.len() as int) =~= bytes@);
        assert(before =~= self.payload@.skip(round));
        self.buffer = rest;
        self.start = 0;
        proof {
            self.payload@ = self.payload@ + bytes@;
        }
        assert(self.buffer@.skip(0) =~= self.payload@.skip(round));
    }

    /// Whether the stream must be fed before it can go on: more bytes are
    /// declared, and the next one of some channel has not come in.
    pub fn wants_input(&self) -> (r: bool)
        requires
            self.wf(),
        ensures
            r == (self.yielded() < self.head().total_bytes() && !reaches(
                self.head(),
                self.audio(),
                self.yielded(),
            )),
    {
        self.bytes_yielded_per_channel < self.cap_per_channel && !self.at_hand()
    }

    /// Whether the buffer holds the next byte of every channel.
    fn at_hand(&self) -> (r: bool)
        requires
            self.wf(),
        ensures
            r == reaches(self.head(), self.audio(), self.yielded()),
            r ==> self.start + self.header.block_size * (self.header.channels - 1) + self.pos_in_block
                < self.buffer@.len(),
    {
        let bs: usize = self.header.block_size as usize;
        let c: usize = self.header.channels as usize;
        let left: usize = self.buffer.len() - self.start;
        proof {
            let round = (self.yielded() / (bs as int)) * (bs * c);
            assert(self.buffer@.skip(self.start as int).len() == self.payload@.skip(round).len());
            assert(0 <= (c - 1) * bs <= 6 * 65536) by (nonlinear_arith)
                requires
                    1 <= c <= 6,
                    bs <= 65536,
            ;
            vstd::arithmetic::mul::lemma_mul_is_commutative(c - 1, bs as int);
        }
        (c - 1) * bs + self.pos_in_block < left
    }

    /// Reads one DSD byte per channel into `out`, which holds one place per
    /// channel. Returns `Ok(false)` at the end of the stream.
    pub fn next_byte_per_channel(&mut self, out: &mut [u8]) -> (r: Result<bool, Error>)
        requires
            old(self).wf(),
        ensures
            final(self).wf(),
            final(self).head() == old(self).head(),
            final(self).is_lsb_first() == old(self).is_lsb_first(),
            final(self).audio() == old(self).audio(),
            old(out)@.len() != old(self).head().channels ==> {
                &&& r == Err::<bool, Error>(Error::Invalid("output slice size != channel count"))
                &&& final(out)@ == old(out)@
                &&& final(self).yielded() == old(self).yielded()
            },
            old(out)@.len() == old(self).head().channels && !old(self).has_next() ==> {
                &&& r == Ok::<bool, Error>(false)
                &&& final(out)@ == old(out)@
                &&& final(self).yielded() == old(self).yielded()
            },
            old(out)@.len() == old(self).head().channels && old(self).has_next() ==> {
                &&& r == Ok::<bool, Error>(true)
                &&& final(out)@ == byte_per_channel(
                    old(self).head(),
                    old(self).is_lsb_first(),
                    old(self).audio(),
                    old(self).yielded(),
                )
                &&& final(self).yielded() == old(self).yielded() + 1
            },
    {
        if out.len() != self.header.channels as usize {
            return Err(Error::Invalid("output slice size != channel count"));
        }
        if self.bytes_yielded_per_channel >= self.cap_per_channel {
            return Ok(false);
        }
        if !self.at_hand() {
            return Ok(false);
        }
        let bs: usize = self.header.block_size as usize;
        let n: usize = out.len();
        let total: usize = self.buffer.len();
        assert(0 <= bs * (n - 1)) by (nonlinear_arith)
            requires
                n >= 1,
                bs >= 0,
        ;
        let base: usize = self.start + self.pos_in_block;
        let lsb: bool = self.lsb_first;
        let ghost k = self.yielded();
        let ghost head = self.header;
        let ghost payload = self.payload@;
        let mut ch: usize = 0;
        while ch < n
            invariant
                ch <= n,
                self.wf(),
                self.header == head,
                self.lsb_first == lsb,
                self.payload@ == payload,
                self.yielded() == k,
                self.bytes_yielded_per_channel < self.cap_per_channel,
                n == head.channels,
                bs == head.block_size,
                out@.len() == n,
                base == self.start + self.pos_in_block,
                self.buffer@.len() == total,
                base + bs * (n - 1) < total,
                forall|j: int|
                    0 <= j < ch ==> out@[j] == channel_byte(head, lsb, payload, k, j),
            decreases n - ch,
        {
            proof {
                assert(0 <= ch * bs <= bs * (n - 1)) by (nonlinear_arith)
                    requires
                        0 <= ch <= n - 1,
                        bs >= 0,
                ;
                let round = (k / (bs as int)) * (bs * n);
                let at = self.start + self.pos_in_block + ch * bs;
                assert(self.payload@.skip(round).len() == self.buffer@.skip(self.start as int).len());
                assert(place(head, k, ch as int) == round + (at - self.start));
                assert(self.buffer@.skip(self.start as int)[at - self.start] == self.buffer@[at]);
                assert(self.payload@.skip(round)[at - self.start] == payload[place(head, k, ch as int)]);
            }
            let at: usize = base + ch * bs;
            let raw: u8 = self.buffer[at];
            out[ch] = if lsb {
                reverse_bits(raw)
            } else {
                raw
            };
            ch = ch + 1;
        }
        assert(out@ =~= byte_per_channel(head, lsb, payload, k));
        self.step();
        Ok(true)
    }

    /// Counts one byte per channel as handed out, and moves on to the next
    /// round of blocks when this one is spent.
    fn step(&mut self)
        requires
            old(self).wf(),
            old(self).bytes_yielded_per_channel < old(self).cap_per_channel,
            reaches(old(self).header, old(self).payload@, old(self).yielded()),
        ensures
            final(self).wf(),
            final(self).header == old(self).header,
            final(self).lsb_first == old(self).lsb_first,
            final(self).payload@ == old(self).payload@,
            final(self).yielded() == old(self).yielded() + 1,
    {
        let bs: usize = self.header.block_size as usize;
        let c: usize = self.header.channels as usize;
        let _total: usize = self.buffer.len();
        let ghost k = self.yielded();
        let ghost g = k / (bs as int);
        let ghost round = g * (bs * c);
        let ghost left = self.buffer@.skip(self.start as int);
        proof {
            vstd::arithmetic::div_mod::lemma_fundamental_div_mod(k, bs as int);
            assert(left.len() == self.payload@.skip(round).len());
            assert(0 <= bs * c <= 6 * 65536) by (nonlinear_arith)
                requires
                    1 <= c <= 6,
                    bs <= 65536,
            ;
            assert((c - 1) * bs + bs == bs * c) by (nonlinear_arith);
        }
        self.bytes_yielded_per_channel = self.bytes_yielded_per_channel + 1;
        if self.pos_in_block + 1 == bs {
            proof {
                assert(g >= 0) by (nonlinear_arith)
                    requires
                        k >= 0,
                        bs > 0,
                        g == k / (bs as int),
                ;
                assert(k + 1 == (g + 1) * bs + 0) by (nonlinear_arith)
                    requires
                        k == bs * g + (bs - 1),
                ;
                vstd::arithmetic::div_mod::lemma_fundamental_div_mod_converse(k + 1, bs as int, g + 1, 0);
                assert((g + 1) * (bs * c) == round + bs * c) by (nonlinear_arith)
                    requires
                        round == g * (bs * c),
                ;
            }
            self.pos_in_block = 0;
            self.start = self.start + bs * c;
            assert(self.buffer@.skip(self.start as int) =~= left.skip(bs * c));
            assert(self.payload@.skip(round + bs * c) =~= self.payload@.skip(round).skip(bs * c));
        } else {
            proof {
                vstd::arithmetic::div_mod::lemma_fundamental_div_mod_converse(
                    k + 1,
                    bs as int,
                    g,
                    k % (bs as int) + 1,
                );
            }
            self.pos_in_block = self.pos_in_block + 1;
        }
    }
}

// ------------------------------------------------------------ laws

/// A reader never hands out more than the declared length, so the padding of
/// the last block stays behind.
pub proof fn law_stops_at_declared_length(reader: DsfReader)
    requires
        reader.wf(),
    ensures
        reader.yielded() <= reader.head().total_bytes(),
        reader.yielded() == reader.head().total_bytes() ==> !reader.has_next(),
{
}

/// Every reader has a header that passed the checks.
pub proof fn law_reader_header_is_valid(reader: DsfReader)
    requires
        reader.wf(),
    ensures
        reader.head().wf(),
{
}

/// Audio data that comes in later changes nothing about the bytes that are
/// already at hand.
pub proof fn law_feeding_keeps_bytes(
    header: DsfHeader,
    lsb_first: bool,
    payload: Seq<u8>,
    more: Seq<u8>,
    k: int,
)
    requires
        header.wf(),
        k >= 0,
        reaches(header, payload, k),
    ensures
        reaches(header, payload + more, k),
        byte_per_channel(header, lsb_first, payload + more, k) == byte_per_channel(
            header,
            lsb_first,
            payload,
            k,
        ),
{
    assert forall|ch: int| 0 <= ch < header.channels implies 0 <= #[trigger] place(header, k, ch)
        < payload.len() by {
        lemma_place_order(header, k, ch);
    }
    assert(byte_per_channel(header, lsb_first, payload + more, k) =~= byte_per_channel(
        header,
        lsb_first,
        payload,
        k,
    ));
}

/// Within one round of blocks the channels stand in order.
proof fn lemma_place_order(header: DsfHeader, k: int, ch: int)
    requires
        header.wf(),
        k >= 0,
        0 <= ch < header.channels,
    ensures
        0 <= place(header, k, ch) <= place(header, k, header.channels - 1),
{
    let bs = header.block_size as int;
    let c = header.channels as int;
    assert(0 <= ch * bs <= (c - 1) * bs) by (nonlinear_arith)
        requires
            0 <= ch <= c - 1,
            bs > 0,
    ;
    assert(0 <= (k / bs) * (bs * c)) by (nonlinear_arith)
        requires
            k >= 0,
            bs > 0,
            c > 0,
    ;
    vstd::arithmetic::div_mod::lemma_mod_bound(k, bs);
}

/// Every byte of the audio data belongs to one channel and one position only:
/// both can be read back from where the byte stands.
pub proof fn law_place_is_one_to_one(header: DsfHeader, k: int, ch: int)
    requires
        header.wf(),
        k >= 0,
        0 <= ch < header.channels,
    ensures
        (place(header, k, ch) % (header.block_size * header.channels)) / header.block_size as int == ch,
        (place(header, k, ch) / (header.block_size * header.channels)) * header.block_size + place(
            header,
            k,
            ch,
        ) % header.block_size as int == k,
{
    let bs = header.block_size as int;
    let c = header.channels as int;
    let q = k / bs;
    let m = k % bs;
    let at = place(header, k, ch);
    vstd::arithmetic::div_mod::lemma_fundamental_div_mod(k, bs);
    vstd::arithmetic::div_mod::lemma_mod_bound(k, bs);
    let inner = ch * bs + m;
    assert(0 <= inner < bs * c) by (nonlinear_arith)
        requires
            0 <= ch <= c - 1,
            0 <= m < bs,
            inner == ch * bs + m,
    ;
    vstd::arithmetic::div_mod::lemma_fundamental_div_mod_converse(at, bs * c, q, inner);
    vstd::arithmetic::div_mod::lemma_fundamental_div_mod_converse(inner, bs, ch, m);
    assert(at == (q * c + ch) * bs + m) by (nonlinear_arith)
        requires
            at == q * (bs * c) + ch * bs + m,
    ;
    vstd::arithmetic::div_mod::lemma_fundamental_div_mod_converse(at, bs, q * c + ch, m);
    assert(q * bs + m == k) by (nonlinear_arith)
        requires
            k == bs * q + m,
    ;
}

/// A little-endian number holds its bytes with the lowest first.
pub proof fn law_little_endian(s: Seq<u8>, i: int)
    ensures
        le32(s, i) % 256 == s[i],
        (le32(s, i) / 256) % 256 == s[i + 1],
        (le32(s, i) / 65536) % 256 == s[i + 2],
        le32(s, i) / 0x100_0000 == s[i + 3],
        le64(s, i) % 0x1_0000_0000 == le32(s, i),
        le64(s, i) / 0x1_0000_0000 == le32(s, i + 4),
{
}

/// The headers of a stream are accepted exactly when the three chunks stand
/// where they belong, `DSD `, `fmt ` and `data`, with the sizes and the values
/// that are supported.
#[verifier::rlimit(50)]
pub proof fn law_accepted_headers(s: Seq<u8>)
    ensures
        header_error(s) is None <==> {
            &&& s.len() >= 92
            &&& s[0] == 0x44 && s[1] == 0x53 && s[2] == 0x44 && s[3] == 0x20
            &&& le64(s, 4) == 28
            &&& s[28] == 0x66 && s[29] == 0x6d && s[30] == 0x74 && s[31] == 0x20
            &&& le64(s, 32) == 52
            &&& le32(s, 40) == 1
            &&& le32(s, 44) == 0
            &&& 1 <= le32(s, 52) <= 6
            &&& le32(s, 56) == 64 * 44_100 || le32(s, 56) == 128 * 44_100 || le32(s, 56) == 256 * 44_100 || le32(
                s,
                56,
            ) == 512 * 44_100
            &&& le32(s, 60) == 1 || le32(s, 60) == 8
            &&& 1 <= le32(s, 72) <= 65536
            &&& s[80] == 0x64 && s[81] == 0x61 && s[82] == 0x74 && s[83] == 0x61
        },
{
    assert forall|i: int, id: [u8; 4]| (#[trigger] four(s, i) == id) == #[trigger] id_at(s, i, id) by {
        if id_at(s, i, id) {
            assert(four(s, i)@ =~= id@);
            assert(four(s, i) =~= id);
        } else if four(s, i) == id {
            assert(four(s, i)[0] == id[0] && four(s, i)[1] == id[1] && four(s, i)[2] == id[2] && four(s, i)[3]
                == id[3]);
        }
    }
    assert(id_at(s, 0, header_id()) == (s[0] == 0x44 && s[1] == 0x53 && s[2] == 0x44 && s[3] == 0x20));
    assert(id_at(s, 28, fmt_id()) == (s[28] == 0x66 && s[29] == 0x6d && s[30] == 0x74 && s[31] == 0x20));
    assert(id_at(s, 80, data_id()) == (s[80] == 0x64 && s[81] == 0x61 && s[82] == 0x74 && s[83] == 0x61));
}

/// The header of an accepted stream says what its `fmt ` chunk says: channels,
/// rate, bits per channel, size of a block and order of the bits, each at its
/// place.
#[verifier::rlimit(50)]
pub proof fn law_declared_header(s: Seq<u8>)
    requires
        header_error(s) is None,
    ensures
        declared_header(s).channels == s[52] + 256 * s[53] + 0x1_0000 * s[54] + 0x100_0000 * s[55],
        declared_header(s).sampling_frequency == s[56] + 256 * s[57] + 0x1_0000 * s[58] + 0x100_0000 * s[59],
        declared_header(s).sample_count % 0x1_0000_0000 == s[64] + 256 * s[65] + 0x1_0000 * s[66] + 0x100_0000
            * s[67],
        declared_header(s).sample_count / 0x1_0000_0000 == s[68] + 256 * s[69] + 0x1_0000 * s[70] + 0x100_0000
            * s[71],
        declared_header(s).block_size == s[72] + 256 * s[73] + 0x1_0000 * s[74] + 0x100_0000 * s[75],
        declared_lsb_first(s) <==> s[60] == 1 && s[61] == 0 && s[62] == 0 && s[63] == 0,
        declared_header(s).wf(),
{
    law_little_endian(s, 60);
    lemma_fits(s, 52);
    lemma_fits(s, 56);
    lemma_fits(s, 60);
    lemma_fits(s, 64);
    lemma_fits(s, 68);
    lemma_fits(s, 72);
    assert(fmt_chunk_error(s) is None);
    let lo = le32(s, 64);
    let hi = le32(s, 68);
    assert(le64(s, 64) == lo + 0x1_0000_0000 * hi);
    assert(declared_header(s).sample_count == lo + 0x1_0000_0000 * hi);
}

/// A number of four bytes fits into 32 bits.
proof fn lemma_fits(s: Seq<u8>, i: int)
    ensures
        0 <= le32(s, i) <= u32::MAX,
{
}

/// The bytes of a channel are as many as its bits need, and no more.
pub proof fn law_bytes_hold_all_bits(header: DsfHeader)
    ensures
        8 * header.total_bytes() >= header.sample_count,
        8 * header.total_bytes() < header.sample_count + 8,
{
}

/// A byte of a channel is the byte of the audio data that belongs to it, and its
/// bits come in time order from the highest down: as they stand where the
/// stream holds the oldest bit highest, and the other way round where lowest.
pub proof fn law_channel_bits(header: DsfHeader, lsb_first: bool, payload: Seq<u8>, k: int, ch: int, i: u8)
    requires
        i < 8,
    ensures
        ({
            let raw = payload[place(header, k, ch)];
            let got = channel_byte(header, lsb_first, payload, k, ch);
            &&& !lsb_first ==> got == raw
            &&& lsb_first ==> (got >> i) & 1 == (raw >> ((7 - i) as u8)) & 1
        }),
{
    law_reversed_bits(payload[place(header, k, ch)], i);
}

/// Within a block the bytes of a channel follow one another; the blocks of the
/// channels stand side by side, and a round of them behind the last.
pub proof fn law_blocks_stand_side_by_side(header: DsfHeader, round: nat, at: nat, ch: nat)
    requires
        header.wf(),
        at < header.block_size,
    ensures
        place(header, (round * header.block_size + at) as int, ch as int) == (round * header.channels + ch)
            * header.block_size + at,
        byte_per_channel(header, false, Seq::empty(), at as int).len() == header.channels,
{
    let bs = header.block_size as int;
    let c = header.channels as int;
    let k = round * bs + at;
    vstd::arithmetic::div_mod::lemma_fundamental_div_mod_converse(k, bs, round as int, at as int);
    assert(round * (bs * c) + ch * bs == (round * c + ch) * bs) by (nonlinear_arith);
}

/// One byte per channel is one byte of each channel, in channel order.
pub proof fn law_one_byte_of_each_channel(
    header: DsfHeader,
    lsb_first: bool,
    payload: Seq<u8>,
    k: int,
    ch: int,
)
    requires
        0 <= ch < header.channels,
    ensures
        byte_per_channel(header, lsb_first, payload, k).len() == header.channels,
        byte_per_channel(header, lsb_first, payload, k)[ch] == channel_byte(
            header,
            lsb_first,
            payload,
            k,
            ch,
        ),
{
}

/// The audio data reaches a byte when it holds that byte of every channel.
pub proof fn law_reaching_a_byte(header: DsfHeader, payload: Seq<u8>, k: int)
    requires
        header.wf(),
        k >= 0,
    ensures
        reaches(header, payload, k) <==> forall|ch: int|
            0 <= ch < header.channels ==> 0 <= #[trigger] place(header, k, ch) < payload.len(),
{
    assert forall|ch: int| 0 <= ch < header.channels implies 0 <= #[trigger] place(header, k, ch) <= place(
        header,
        k,
        header.channels - 1,
    ) by {
        lemma_place_order(header, k, ch);
    }
    if forall|ch: int| 0 <= ch < header.channels ==> 0 <= #[trigger] place(header, k, ch) < payload.len() {
        assert(place(header, k, header.channels - 1) < payload.len());
    }
}

/// A stream that breaks off inside the headers is reported as such, and one that
/// is no DSF stream with the bytes that it starts with.
#[verifier::rlimit(50)]
pub proof fn law_header_errors(s: Seq<u8>)
    ensures
        s.len() < 4 ==> header_error(s) == Some(Error::UnexpectedEof),
        s.len() >= 4 && !(s[0] == 0x44 && s[1] == 0x53 && s[2] == 0x44 && s[3] == 0x20) ==> (header_error(s)
            matches Some(Error::BadMagic(id)) && id[0] == s[0] && id[1] == s[1] && id[2] == s[2] && id[3] == s[3]),
        header_error(s) is None ==> s.len() >= PAYLOAD_OFFSET,
        PAYLOAD_OFFSET == 92,
{
    if s.len() >= 4 && four(s, 0) == header_id() {
        assert(four(s, 0)[0] == 0x44 && four(s, 0)[1] == 0x53 && four(s, 0)[2] == 0x44 && four(s, 0)[3] == 0x20);
    }
}

/// An error says in words what is wrong, and shows the bytes that stand where others
/// should as numbers.
pub proof fn law_errors_carry_their_reason(what: &'static str, id: [u8; 4])
    ensures
        Error::Unsupported(what).words() == "unsupported DSF: "@ + what@,
        Error::Invalid(what).words() == "invalid DSF field: "@ + what@,
        Error::BadMagic(id).words() == "not a DSF stream (bad magic ["@ + text::decimal(id[0] as nat) + ", "@
            + text::decimal(id[1] as nat) + ", "@ + text::decimal(id[2] as nat) + ", "@ + text::decimal(
            id[3] as nat,
        ) + "])"@,
{
    reveal_strlit("not a DSF stream (bad magic ");
    reveal_strlit("not a DSF stream (bad magic [");
    reveal_strlit("[");
    reveal_strlit("]");
    reveal_strlit(")");
    reveal_strlit("])");
    assert("not a DSF stream (bad magic "@ + "["@ =~= "not a DSF stream (bad magic ["@);
    assert("]"@ + ")"@ =~= "])"@);
    assert(Error::BadMagic(id).words() =~= ("not a DSF stream (bad magic "@ + "["@) + text::decimal(id[0] as nat)
        + ", "@ + text::decimal(id[1] as nat) + ", "@ + text::decimal(id[2] as nat) + ", "@ + text::decimal(
        id[3] as nat,
    ) + ("]"@ + ")"@));
}

} // verus!
