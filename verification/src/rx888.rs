//! The RX-888 receiver: its vendor requests, its firmware image and the
//! integer part of its down-converter.
use vstd::prelude::*;
use crate::bytes;
use crate::cic::{self, CicDecimator};

pub use crate::cic::CIC_STAGES;

verus! {

pub const VID: u16 = 0x04b4;

/// Product id before the firmware is loaded.
pub const PID_UNLOADED: u16 = 0x00f3;

/// Product id once the firmware runs.
pub const PID_STREAMING: u16 = 0x00f1;

pub const EP_STREAM_IN: u8 = 0x81;

/// Bytes asked for in one read of the stream: about half a millisecond.
pub const STREAM_READ_SIZE: usize = 65_536;

/// Request that reads and writes the controller's memory, and starts a
/// program in it.
pub const RW_INTERNAL: u8 = 0xA0;

pub const STARTFX3: u8 = 0xAA;

pub const STOPFX3: u8 = 0xAB;

pub const GPIOFX3: u8 = 0xAD;

pub const STARTADC: u8 = 0xB2;

/// Parks the tuner, which direct sampling does not use.
pub const TUNERSTDBY: u8 = 0xB8;

pub const SETARGFX3: u8 = 0xB6;

/// The step attenuator, in half decibels.
pub const DAT31_ATT: u16 = 10;

/// The variable-gain amplifier ahead of the converter.
pub const AD8340_VGA: u16 = 11;

/// Output pins that switch on dither and the output randomizer.
pub const GPIO_DITH: u32 = 64;

pub const GPIO_RANDO: u32 = 128;

/// Pause after each setup request, in milliseconds.
pub const REQUEST_PAUSE_MS: u64 = 5;

/// Wait for the device to come back after its firmware has started, in
/// milliseconds.
pub const RESTART_WAIT_MS: u64 = 1000;

pub const DEFAULT_SAMPLE_RATE_HZ: u32 = 64_800_000;

/// Samples taken in for one sample out.
pub const CIC_DECIMATION: u32 = 675;

pub const OUTPUT_SAMPLE_RATE_HZ: u32 = DEFAULT_SAMPLE_RATE_HZ / CIC_DECIMATION;

/// What the converter's randomizer makes of 16 bits: where the lowest is
/// set, all the others are inverted.
pub open spec fn randomized(u: u16) -> u16 {
    if u & 1 != 0 {
        u ^ 0xFFFE
    } else {
        u
    }
}

/// Undoes the converter's output randomizer. The operation is its own
/// inverse.
#[inline]
pub fn derandomize(sample: i16) -> (out: i16)
    ensures
        bytes::wire16(out) == randomized(bytes::wire16(sample)),
{
    proof {
        let mask: i16 = !1i16;
        assert(if sample & 1 != 0 {
            bytes::wire16(sample ^ mask) == randomized(bytes::wire16(sample))
        } else {
            bytes::wire16(sample) == randomized(bytes::wire16(sample))
        }) by (bit_vector)
            requires
                mask == !1i16,
        ;
    }
    if sample & 1 != 0 {
        sample ^ !1i16
    } else {
        sample
    }
}

/// Derandomizing what the converter randomized gives the sample back, and
/// doing either twice changes nothing.
pub proof fn law_randomizer_is_its_own_inverse(u: u16)
    ensures
        randomized(randomized(u)) == u,
{
    assert(randomized(randomized(u)) == u) by (bit_vector);
}

/// Whether a device on the bus is an RX-888, with or without firmware.
pub fn is_rx888(vendor: u16, product: u16) -> (yes: bool)
    ensures
        yes <==> vendor == VID && (product == PID_UNLOADED || product == PID_STREAMING),
{
    vendor == VID && (product == PID_UNLOADED || product == PID_STREAMING)
}

/// A vendor request to the device.
#[derive(Debug)]
pub struct ControlRequest {
    pub request: u8,
    pub value: u16,
    pub index: u16,
    pub data: Vec<u8>,
}

/// The four bytes of `x`, least significant first.
pub open spec fn le32(x: u32) -> Seq<u8> {
    bytes::be32(x).reverse()
}

/// A command with its 32-bit operand.
pub fn command_send(cmd: u8, data: u32) -> (r: ControlRequest)
    ensures
        r.request == cmd,
        r.value == 0,
        r.index == 0,
        r.data@ == le32(data),
{
    let b: [u8; 4] = bytes::be32_bytes(data);
    let payload: Vec<u8> = vec![b[3], b[2], b[1], b[0]];
    assert(payload@ =~= le32(data));
    ControlRequest { request: cmd, value: 0, index: 0, data: payload }
}

/// A setting: its number travels as the index, the low 16 bits of its
/// value as the request's value.
pub fn argument_send(arg: u16, data: u32) -> (r: ControlRequest)
    ensures
        r.request == SETARGFX3,
        r.value == data % 0x1_0000,
        r.index == arg,
        r.data@ == seq![0u8],
{
    let payload: Vec<u8> = vec![0u8];
    assert(payload@ =~= seq![0u8]);
    ControlRequest {
        request: SETARGFX3,
        value: (data % 0x1_0000) as u16,
        index: arg,
        data: payload,
    }
}

/// The value and index that address a byte of the controller's memory.
pub fn ram_address(addr: u32) -> (va: (u16, u16))
    ensures
        va.0 == addr % 0x1_0000,
        va.1 == addr / 0x1_0000,
{
    ((addr % 0x1_0000) as u16, (addr / 0x1_0000) as u16)
}

/// Writes bytes to the controller's memory.
pub fn fx3_ram_write(addr: u32, data: &[u8]) -> (r: ControlRequest)
    ensures
        r.request == RW_INTERNAL,
        r.value == addr % 0x1_0000,
        r.index == addr / 0x1_0000,
        r.data@ == data@,
{
    let (value, index): (u16, u16) = ram_address(addr);
    ControlRequest { request: RW_INTERNAL, value, index, data: vstd::slice::slice_to_vec(data) }
}

/// Starts the program at an address: a write of no bytes.
pub fn fx3_jump(addr: u32) -> (r: ControlRequest)
    ensures
        r.request == RW_INTERNAL,
        r.value == addr % 0x1_0000,
        r.index == addr / 0x1_0000,
        r.data@ == Seq::<u8>::empty(),
{
    let (value, index): (u16, u16) = ram_address(addr);
    ControlRequest { request: RW_INTERNAL, value, index, data: Vec::new() }
}

/// Sets the step attenuator, in whole decibels up to 31.
pub fn attenuator_request(att_db: u32) -> (r: ControlRequest)
    ensures
        r.request == SETARGFX3,
        r.value == 2 * (if att_db < 31 {
            att_db
        } else {
            31
        }),
        r.index == DAT31_ATT,
        r.data@ == seq![0u8],
{
    let whole: u32 = if att_db < 31 {
        att_db
    } else {
        31
    };
    argument_send(DAT31_ATT, whole * 2)
}

/// Stops the stream.
pub fn stop_request() -> (r: ControlRequest)
    ensures
        r.request == STOPFX3,
        r.value == 0,
        r.index == 0,
        r.data@ == le32(0),
{
    command_send(STOPFX3, 0)
}

/// The amplifier's argument: a 7-bit gain code, and a high bit that
/// selects its high-gain mode.
pub fn vga_arg(highgain: bool, code: u32) -> (arg: u32)
    ensures
        arg == (if code < 127 {
            code
        } else {
            127
        }) + (if highgain {
            128int
        } else {
            0
        }),
{
    let clamped: u32 = if code < 127 {
        code
    } else {
        127
    };
    if highgain {
        clamped + 128
    } else {
        clamped
    }
}

/// That `r` is a command with its operand.
pub open spec fn is_command(r: ControlRequest, cmd: u8, data: u32) -> bool {
    r.request == cmd && r.value == 0 && r.index == 0 && r.data@ == le32(data)
}

/// That `r` is a setting.
pub open spec fn is_argument(r: ControlRequest, arg: u16, value: int) -> bool {
    r.request == SETARGFX3 && r.value == value && r.index == arg && r.data@ == seq![0u8]
}

/// The requests that set the receiver up, to be sent in this order with a
/// pause after each: sample rate, dither and randomizer, attenuator,
/// amplifier.
pub fn setup_requests(att_db: u32, vga: u32) -> (rs: Vec<ControlRequest>)
    ensures
        rs@.len() == 4,
        is_command(rs@[0], STARTADC, DEFAULT_SAMPLE_RATE_HZ),
        is_command(rs@[1], GPIOFX3, (GPIO_DITH + GPIO_RANDO) as u32),
        is_argument(
            rs@[2],
            DAT31_ATT,
            2 * (if att_db < 31 {
                att_db as int
            } else {
                31
            }),
        ),
        is_argument(rs@[3], AD8340_VGA, vga as int % 0x1_0000),
{
    let mut rs: Vec<ControlRequest> = Vec::new();
    rs.push(command_send(STARTADC, DEFAULT_SAMPLE_RATE_HZ));
    rs.push(command_send(GPIOFX3, GPIO_DITH + GPIO_RANDO));
    rs.push(attenuator_request(att_db));
    rs.push(argument_send(AD8340_VGA, vga));
    rs
}

/// The requests that start the stream, once its endpoint is claimed, with
/// a pause between them.
pub fn start_requests() -> (rs: Vec<ControlRequest>)
    ensures
        rs@.len() == 2,
        is_command(rs@[0], STARTFX3, 0),
        is_command(rs@[1], TUNERSTDBY, 0),
{
    let mut rs: Vec<ControlRequest> = Vec::new();
    rs.push(command_send(STARTFX3, 0));
    rs.push(command_send(TUNERSTDBY, 0));
    rs
}

/// Bytes of a firmware section that are written, and read back, at once.
pub const RAM_CHUNK: usize = 4096;

/// What can be wrong with a firmware image, or with its loading.
#[derive(Clone, Copy, Debug, PartialEq, Eq, Structural)]
pub enum Fx3Error {
    MissingSignature,
    UnsupportedType(u8),
    TruncatedHeader,
    TruncatedData,
    MissingChecksum,
    ChecksumMismatch,
    VerifyMismatch,
}

/// A piece of the image and the address that it is written to.
#[derive(Clone, Copy, Debug)]
pub struct Fx3Chunk {
    pub addr: u32,
    pub start: usize,
    pub end: usize,
}

/// What loading an image asks for next.
#[derive(Debug)]
pub enum Fx3Step {
    /// Write each of these pieces and check what reads back.
    Write(Vec<Fx3Chunk>),
    /// Start the program here: the image is loaded.
    Run(u32),
}

/// The 32-bit word at byte `at`, least significant byte first.
pub open spec fn word_at(image: Seq<u8>, at: int) -> int {
    image[at] + image[at + 1] * 0x100 + image[at + 2] * 0x1_0000 + image[at + 3] * 0x100_0000
}

/// The sum of `n` words from byte `at` on.
pub open spec fn word_sum(image: Seq<u8>, at: int, n: nat) -> int
    decreases n,
{
    if n == 0 {
        0
    } else {
        word_sum(image, at, (n - 1) as nat) + word_at(image, at + 4 * (n - 1))
    }
}

/// Where a section of `len` bytes from `start` on, meant for `addr`, is
/// cut: at every full chunk.
pub open spec fn is_cut(chunks: Seq<Fx3Chunk>, addr: u32, start: int, len: int) -> bool {
    &&& chunks.len() == (len + 4095) / 4096
    &&& forall|k: int|
        0 <= k < chunks.len() ==> {
            &&& (#[trigger] chunks[k]).addr == (addr + 4096 * k) % 0x1_0000_0000
            &&& chunks[k].start == start + 4096 * k
            &&& chunks[k].end == (if 4096 * (k + 1) < len {
                start + 4096 * (k + 1)
            } else {
                start + len
            })
        }
}

/// A record of an image: a section of words for an address, or the end
/// with the program's entry.
pub enum Fx3Record {
    Section { addr: u32, start: int, words: int },
    End { entry: u32 },
}

/// The record at byte `at`, where the words before it add up to
/// `checksum`: a length in words and an address, then the words; a length
/// of zero ends the image, and the expected sum follows.
pub open spec fn record_at(image: Seq<u8>, at: int, checksum: u32) -> Result<Fx3Record, Fx3Error> {
    let words = word_at(image, at);
    let addr = word_at(image, at + 4) as u32;
    if at + 8 > image.len() {
        Err(Fx3Error::TruncatedHeader)
    } else if words == 0 && at + 12 > image.len() {
        Err(Fx3Error::MissingChecksum)
    } else if words == 0 && word_at(image, at + 8) != checksum {
        Err(Fx3Error::ChecksumMismatch)
    } else if words == 0 {
        Ok(Fx3Record::End { entry: addr })
    } else if at + 8 + 4 * words > image.len() {
        Err(Fx3Error::TruncatedData)
    } else {
        Ok(Fx3Record::Section { addr, start: at + 8, words })
    }
}

/// The little-endian word at byte `at`.
fn read_word(image: &[u8], at: usize) -> (w: u32)
    requires
        at + 4 <= image@.len(),
    ensures
        w == word_at(image@, at as int),
{
    image[at] as u32 + image[at + 1] as u32 * 0x100 + image[at + 2] as u32 * 0x1_0000
        + image[at + 3] as u32 * 0x100_0000
}

/// `checksum` with `n` words from byte `at` on added to it.
fn add_words(image: &[u8], at: usize, n: usize, checksum: u32) -> (sum: u32)
    requires
        at + 4 * n <= image@.len(),
    ensures
        sum == (checksum + word_sum(image@, at as int, n as nat)) % 0x1_0000_0000,
{
    let mut sum: u32 = checksum;
    let total: usize = image.len();
    for i in 0..n
        invariant
            total == image@.len(),
            at + 4 * n <= total,
            sum == (checksum + word_sum(image@, at as int, i as nat)) % 0x1_0000_0000,
    {
        let w: u32 = read_word(image, at + 4 * i);
        proof {
            let before = word_sum(image@, at as int, i as nat);
            assert(word_sum(image@, at as int, (i + 1) as nat) == before + w);
        }
        sum = sum.wrapping_add(w);
    }
    sum
}

/// Cuts a section into chunks. Addresses wrap at the end of the address
/// space.
fn cut_section(addr: u32, start: usize, len: usize) -> (chunks: Vec<Fx3Chunk>)
    requires
        len >= 1,
        start + len <= usize::MAX,
    ensures
        is_cut(chunks@, addr, start as int, len as int),
{
    let mut chunks: Vec<Fx3Chunk> = Vec::new();
    let mut done: usize = 0;
    let mut at: u32 = addr;
    while done < len
        invariant
            len >= 1,
            start + len <= usize::MAX,
            done <= len,
            done < len ==> done == 4096 * chunks@.len() && at == (addr + done) % 0x1_0000_0000,
            done == len ==> chunks@.len() == (len + 4095) / 4096,
            forall|k: int|
                0 <= k < chunks@.len() ==> {
                    &&& (#[trigger] chunks@[k]).addr == (addr + 4096 * k) % 0x1_0000_0000
                    &&& chunks@[k].start == start + 4096 * k
                    &&& chunks@[k].end == (if 4096 * (k + 1) < len {
                        start + 4096 * (k + 1)
                    } else {
                        start + len
                    })
                },
        decreases len - done,
    {
        let left: usize = len - done;
        let size: usize = if left < RAM_CHUNK {
            left
        } else {
            RAM_CHUNK
        };
        chunks.push(Fx3Chunk { addr: at, start: start + done, end: start + done + size });
        at = at.wrapping_add(size as u32);
        done = done + size;
    }
    chunks
}

/// A firmware image on its way into the controller's memory: where the
/// next record starts, and the sum of the words so far.
#[derive(Clone, Copy, Debug)]
pub struct Fx3Loader {
    pub pos: usize,
    pub checksum: u32,
}

impl Fx3Loader {
    /// That `self` stands at a record of an image of `len` bytes.
    pub open spec fn wf(self, len: nat) -> bool {
        self.pos <= len
    }

    /// Looks at an image's header.
    pub fn new(image: &[u8]) -> (r: Result<Fx3Loader, Fx3Error>)
        ensures
            r == (if image@.len() < 4 || image@[0] != 0x43 || image@[1] != 0x59 {
                Err(Fx3Error::MissingSignature)
            } else if image@[3] != 0xB0 {
                Err(Fx3Error::UnsupportedType(image@[3]))
            } else {
                Ok(Fx3Loader { pos: 4, checksum: 0 })
            }),
    {
        if image.len() < 4 || image[0] != 0x43 || image[1] != 0x59 {
            return Err(Fx3Error::MissingSignature);
        }
        if image[3] != 0xB0 {
            return Err(Fx3Error::UnsupportedType(image[3]));
        }
        Ok(Fx3Loader { pos: 4, checksum: 0 })
    }

    /// Reads the next record: a section to write, or the end of the image
    /// with its entry address and checksum.
    pub fn next(&mut self, image: &[u8]) -> (r: Result<Fx3Step, Fx3Error>)
        requires
            old(self).wf(image@.len()),
        ensures
            final(self).wf(image@.len()),
            match record_at(image@, old(self).pos as int, old(self).checksum) {
                Err(e) => r == Err::<Fx3Step, Fx3Error>(e),
                Ok(Fx3Record::End { entry }) => r == Ok::<Fx3Step, Fx3Error>(Fx3Step::Run(entry)),
                Ok(Fx3Record::Section { addr, start, words }) => {
                    &&& r matches Ok(Fx3Step::Write(chunks)) && is_cut(
                        chunks@,
                        addr,
                        start,
                        4 * words,
                    )
                    &&& final(self).pos == start + 4 * words
                    &&& final(self).checksum == (old(self).checksum + word_sum(
                        image@,
                        start,
                        words as nat,
                    )) % 0x1_0000_0000
                },
            },
            !(r matches Ok(Fx3Step::Write(_))) ==> *final(self) == *old(self),
    {
        let total: usize = image.len();
        if total - self.pos < 8 {
            return Err(Fx3Error::TruncatedHeader);
        }
        let words: u32 = read_word(image, self.pos);
        let addr: u32 = read_word(image, self.pos + 4);
        let body: usize = self.pos + 8;
        if words == 0 {
            if total - body < 4 {
                return Err(Fx3Error::MissingChecksum);
            }
            if read_word(image, body) != self.checksum {
                return Err(Fx3Error::ChecksumMismatch);
            }
            return Ok(Fx3Step::Run(addr));
        }
        if words as usize > (total - body) / 4 {
            return Err(Fx3Error::TruncatedData);
        }
        let count: usize = words as usize;
        self.checksum = add_words(image, body, count, self.checksum);
        self.pos = body + 4 * count;
        Ok(Fx3Step::Write(cut_section(addr, body, 4 * count)))
    }
}

proof fn lemma_word_reads_back(image: Seq<u8>, at: int, x: u32)
    requires
        0 <= at,
        at + 4 <= image.len(),
        image.subrange(at, at + 4) == le32(x),
    ensures
        word_at(image, at) == x,
{
    let w = image.subrange(at, at + 4);
    assert(image[at] == w[0] && image[at + 1] == w[1] && image[at + 2] == w[2] && image[at + 3]
        == w[3]);
    assert(le32(x)[0] == (x % 256) as u8);
    assert(le32(x)[1] == ((x / 256) % 256) as u8);
    assert(le32(x)[2] == ((x / 0x1_0000) % 256) as u8);
    assert(le32(x)[3] == (x / 0x100_0000) as u8);
}

/// A section written into an image reads back: its address, and exactly
/// its bytes.
pub proof fn law_section_reads_back(
    before: Seq<u8>,
    addr: u32,
    data: Seq<u8>,
    after: Seq<u8>,
    checksum: u32,
)
    requires
        data.len() > 0,
        data.len() % 4 == 0,
        data.len() / 4 <= u32::MAX,
    ensures
        ({
            let words = data.len() / 4;
            let image = before + le32(words as u32) + le32(addr) + data + after;
            let start = before.len() as int + 8;
            &&& record_at(image, before.len() as int, checksum) == Ok::<Fx3Record, Fx3Error>(
                Fx3Record::Section { addr, start, words: words as int },
            )
            &&& image.subrange(start, start + 4 * words) == data
        }),
{
    let words = (data.len() / 4) as u32;
    let image = before + le32(words) + le32(addr) + data + after;
    let at = before.len() as int;
    assert(image.subrange(at, at + 4) =~= le32(words));
    assert(image.subrange(at + 4, at + 8) =~= le32(addr));
    lemma_word_reads_back(image, at, words);
    lemma_word_reads_back(image, at + 4, addr);
    assert(image.subrange(at + 8, at + 8 + 4 * words) =~= data);
}

/// The end of an image gives the program's entry exactly where the
/// written sum is that of the words read.
pub proof fn law_end_checks_sum(
    before: Seq<u8>,
    entry: u32,
    sum: u32,
    after: Seq<u8>,
    checksum: u32,
)
    ensures
        record_at(
            before + le32(0) + le32(entry) + le32(sum) + after,
            before.len() as int,
            checksum,
        ) == (if sum == checksum {
            Ok(Fx3Record::End { entry })
        } else {
            Err(Fx3Error::ChecksumMismatch)
        }),
{
    let image = before + le32(0) + le32(entry) + le32(sum) + after;
    let at = before.len() as int;
    assert(image.subrange(at, at + 4) =~= le32(0));
    assert(image.subrange(at + 4, at + 8) =~= le32(entry));
    assert(image.subrange(at + 8, at + 12) =~= le32(sum));
    lemma_word_reads_back(image, at, 0);
    lemma_word_reads_back(image, at + 4, entry);
    lemma_word_reads_back(image, at + 8, sum);
}

/// What loading from byte `at` on comes to, where the words before it add up
/// to `checksum`: the sections in order, and then the program's entry or
/// what is wrong.
pub open spec fn loaded(image: Seq<u8>, at: int, checksum: u32) -> (Seq<Fx3Record>, Result<
    u32,
    Fx3Error,
>)
    decreases image.len() - at,
{
    match record_at(image, at, checksum) {
        Err(e) => (Seq::empty(), Err(e)),
        Ok(Fx3Record::End { entry }) => (Seq::empty(), Ok(entry)),
        Ok(Fx3Record::Section { addr, start, words }) => {
            let sum = (checksum + word_sum(image, start, words as nat)) % 0x1_0000_0000;
            let rest = loaded(image, start + 4 * words, sum as u32);
            (seq![Fx3Record::Section { addr, start, words }] + rest.0, rest.1)
        },
    }
}

/// The sum of the words of all these sections.
pub open spec fn sections_sum(image: Seq<u8>, rs: Seq<Fx3Record>) -> int
    decreases rs.len(),
{
    if rs.len() == 0 {
        0
    } else {
        (match rs[0] {
            Fx3Record::Section { start, words, .. } => word_sum(image, start, words as nat),
            Fx3Record::End { .. } => 0,
        }) + sections_sum(image, rs.skip(1))
    }
}

/// Where these sections, the first of which has its record at byte `at`,
/// end.
pub open spec fn sections_end(at: int, rs: Seq<Fx3Record>) -> int
    decreases rs.len(),
{
    if rs.len() == 0 {
        at
    } else {
        match rs[0] {
            Fx3Record::Section { start, words, .. } => sections_end(
                start + 4 * words,
                rs.skip(1),
            ),
            Fx3Record::End { .. } => at,
        }
    }
}

/// Whatever an image holds, its program is started only behind all its
/// sections, at the address that the end record gives, and only where the
/// sum written there is that of the words of all sections.
pub proof fn law_entry_needs_matching_sum(image: Seq<u8>, at: int, checksum: u32)
    ensures
        loaded(image, at, checksum).1 matches Ok(entry) ==> {
            let rs = loaded(image, at, checksum).0;
            let end = sections_end(at, rs);
            &&& word_at(image, end) == 0
            &&& word_at(image, end + 4) == entry
            &&& word_at(image, end + 8) == (checksum + sections_sum(image, rs)) % 0x1_0000_0000
        },
        forall|k: int|
            0 <= k < loaded(image, at, checksum).0.len() ==> (#[trigger] loaded(
                image,
                at,
                checksum,
            ).0[k]) is Section,
    decreases image.len() - at,
{
    if let Ok(Fx3Record::Section { addr, start, words }) = record_at(image, at, checksum) {
        let sum = (checksum + word_sum(image, start, words as nat)) % 0x1_0000_0000;
        let rest = loaded(image, start + 4 * words, sum as u32);
        let rs = loaded(image, at, checksum).0;
        law_entry_needs_matching_sum(image, start + 4 * words, sum as u32);
        assert(rs.skip(1) =~= rest.0);
        assert forall|k: int| 0 <= k < rs.len() implies (#[trigger] rs[k]) is Section by {
            if k > 0 {
                assert(rs[k] == rest.0[k - 1]);
            }
        }
    }
}

/// A section of firmware: its address and its bytes, which are whole words.
pub open spec fn is_section(s: (u32, Seq<u8>)) -> bool {
    s.1.len() > 0 && s.1.len() % 4 == 0 && s.1.len() / 4 <= u32::MAX
}

/// The bytes of a section's record.
pub open spec fn section_bytes(s: (u32, Seq<u8>)) -> Seq<u8> {
    le32((s.1.len() / 4) as u32) + le32(s.0) + s.1
}

/// The bytes of an image's records: its sections, the entry and the sum.
pub open spec fn image_bytes(ss: Seq<(u32, Seq<u8>)>, entry: u32, sum: u32) -> Seq<u8>
    decreases ss.len(),
{
    if ss.len() == 0 {
        le32(0) + le32(entry) + le32(sum)
    } else {
        section_bytes(ss[0]) + image_bytes(ss.skip(1), entry, sum)
    }
}

/// The records of these sections, the first of them at byte `at`.
pub open spec fn section_records(at: int, ss: Seq<(u32, Seq<u8>)>) -> Seq<Fx3Record>
    decreases ss.len(),
{
    if ss.len() == 0 {
        Seq::empty()
    } else {
        let words = (ss[0].1.len() / 4) as int;
        seq![Fx3Record::Section { addr: ss[0].0, start: at + 8, words }] + section_records(
            at + 8 + 4 * words,
            ss.skip(1),
        )
    }
}

/// The sum of the words of all these sections.
pub open spec fn firmware_sum(ss: Seq<(u32, Seq<u8>)>) -> int
    decreases ss.len(),
{
    if ss.len() == 0 {
        0
    } else {
        word_sum(ss[0].1, 0, (ss[0].1.len() / 4) as nat) + firmware_sum(ss.skip(1))
    }
}

proof fn lemma_word_sum_moves(image: Seq<u8>, at: int, data: Seq<u8>, n: nat)
    requires
        0 <= at,
        at + data.len() <= image.len(),
        4 * n <= data.len(),
        image.subrange(at, at + data.len()) == data,
    ensures
        word_sum(image, at, n) == word_sum(data, 0, n),
    decreases n,
{
    if n > 0 {
        lemma_word_sum_moves(image, at, data, (n - 1) as nat);
        let k = 4 * (n - 1);
        assert forall|j: int| k <= j < k + 4 implies image[at + j] == #[trigger] data[j] by {
            assert(image.subrange(at, at + data.len())[j] == image[at + j]);
        }
        assert(data[k] == image[at + k] && data[k + 1] == image[at + k + 1] && data[k + 2]
            == image[at + k + 2] && data[k + 3] == image[at + k + 3]);
    }
}

proof fn lemma_regroup(p: Seq<u8>, a: Seq<u8>, b: Seq<u8>, c: Seq<u8>, d: Seq<u8>)
    ensures
        p + (a + b + c) + d == p + a + b + c + d,
{
    assert(p + (a + b + c) + d =~= p + a + b + c + d);
}

proof fn lemma_regroup_tail(p: Seq<u8>, a: Seq<u8>, b: Seq<u8>, c: Seq<u8>)
    ensures
        p + (a + b) + c == (p + a) + (b + c),
        (p + a) + (b + c) == (p + a) + b + c,
{
    assert(p + (a + b) + c =~= (p + a) + (b + c));
    assert((p + a) + (b + c) =~= (p + a) + b + c);
}

/// Loading goes on behind a section.
proof fn lemma_loaded_step(
    image: Seq<u8>,
    at: int,
    checksum: u32,
    addr: u32,
    words: int,
    sum: u32,
)
    requires
        record_at(image, at, checksum) == Ok::<Fx3Record, Fx3Error>(
            Fx3Record::Section { addr, start: at + 8, words },
        ),
        sum == (checksum + word_sum(image, at + 8, words as nat)) % 0x1_0000_0000,
    ensures
        loaded(image, at, checksum).0 == seq![
            Fx3Record::Section { addr, start: at + 8, words },
        ] + loaded(image, at + 8 + 4 * words, sum).0,
        loaded(image, at, checksum).1 == loaded(image, at + 8 + 4 * words, sum).1,
{
}

/// Loading `image` from byte `at` on gives these sections and this outcome.
#[verifier::opaque]
spec fn loads_as(
    image: Seq<u8>,
    at: int,
    checksum: u32,
    rs: Seq<Fx3Record>,
    outcome: Result<u32, Fx3Error>,
) -> bool {
    loaded(image, at, checksum) == (rs, outcome)
}

/// How an image with this sum written in it comes out.
spec fn sum_checked(entry: u32, sum: u32, checksum: int) -> Result<u32, Fx3Error> {
    if sum == checksum % 0x1_0000_0000 {
        Ok(entry)
    } else {
        Err(Fx3Error::ChecksumMismatch)
    }
}

/// One section in front of what follows it.
proof fn lemma_section_loads(
    before: Seq<u8>,
    s: (u32, Seq<u8>),
    rest: Seq<u8>,
    checksum: u32,
    sum: u32,
    rs: Seq<Fx3Record>,
    outcome: Result<u32, Fx3Error>,
)
    requires
        is_section(s),
        sum == (checksum + word_sum(s.1, 0, (s.1.len() / 4) as nat)) % 0x1_0000_0000,
        loads_as(
            before + section_bytes(s) + rest,
            (before.len() + 8 + 4 * (s.1.len() / 4)) as int,
            sum,
            rs,
            outcome,
        ),
    ensures
        loads_as(
            before + section_bytes(s) + rest,
            before.len() as int,
            checksum,
            seq![
                Fx3Record::Section {
                    addr: s.0,
                    start: before.len() as int + 8,
                    words: (s.1.len() / 4) as int,
                },
            ] + rs,
            outcome,
        ),
{
    reveal(loads_as);
    let image = before + section_bytes(s) + rest;
    let at = before.len() as int;
    let words = (s.1.len() / 4) as int;
    lemma_regroup(before, le32(words as u32), le32(s.0), s.1, rest);
    law_section_reads_back(before, s.0, s.1, rest, checksum);
    lemma_word_sum_moves(image, at + 8, s.1, words as nat);
    lemma_loaded_step(image, at, checksum, s.0, words, sum);
}

/// The end of an image.
proof fn lemma_end_loads(before: Seq<u8>, entry: u32, sum: u32, after: Seq<u8>, checksum: u32)
    ensures
        loads_as(
            before + (le32(0) + le32(entry) + le32(sum)) + after,
            before.len() as int,
            checksum,
            Seq::empty(),
            sum_checked(entry, sum, checksum as int),
        ),
{
    reveal(loads_as);
    law_end_checks_sum(before, entry, sum, after, checksum);
    lemma_regroup(before, le32(0), le32(entry), le32(sum), after);
}

proof fn lemma_section_len(s: (u32, Seq<u8>))
    ensures
        section_bytes(s).len() == 8 + s.1.len(),
{
}

proof fn lemma_image_loads(
    before: Seq<u8>,
    ss: Seq<(u32, Seq<u8>)>,
    entry: u32,
    sum: u32,
    after: Seq<u8>,
    checksum: u32,
)
    requires
        forall|k: int| 0 <= k < ss.len() ==> is_section(#[trigger] ss[k]),
    ensures
        loads_as(
            before + image_bytes(ss, entry, sum) + after,
            before.len() as int,
            checksum,
            section_records(before.len() as int, ss),
            sum_checked(entry, sum, checksum + firmware_sum(ss)),
        ),
    decreases ss.len(),
{
    if ss.len() == 0 {
        lemma_end_loads(before, entry, sum, after, checksum);
    } else {
        let first = section_bytes(ss[0]);
        let more = image_bytes(ss.skip(1), entry, sum);
        let words = (ss[0].1.len() / 4) as int;
        let sofar = ((checksum + word_sum(ss[0].1, 0, words as nat)) % 0x1_0000_0000) as u32;
        assert(is_section(ss[0]));
        assert forall|k: int| 0 <= k < ss.skip(1).len() implies is_section(
            #[trigger] ss.skip(1)[k],
        ) by {
            assert(is_section(ss[k + 1]));
        }
        lemma_image_loads(before + first, ss.skip(1), entry, sum, after, sofar);
        lemma_section_len(ss[0]);
        lemma_regroup_tail(before, first, more, after);
        lemma_section_loads(
            before,
            ss[0],
            more + after,
            checksum,
            sofar,
            section_records((before + first).len() as int, ss.skip(1)),
            sum_checked(entry, sum, sofar + firmware_sum(ss.skip(1))),
        );
        assert((sofar + firmware_sum(ss.skip(1))) % 0x1_0000_0000 == (checksum + firmware_sum(ss))
            % 0x1_0000_0000);
    }
}

/// An image made of sections loads as exactly these sections in order, and
/// its program is then started where the written sum is that of all their
/// words.
pub proof fn law_image_loads(
    before: Seq<u8>,
    ss: Seq<(u32, Seq<u8>)>,
    entry: u32,
    sum: u32,
    after: Seq<u8>,
    checksum: u32,
)
    requires
        forall|k: int| 0 <= k < ss.len() ==> is_section(#[trigger] ss[k]),
    ensures
        loaded(before + image_bytes(ss, entry, sum) + after, before.len() as int, checksum) == (
            section_records(before.len() as int, ss),
            if sum == (checksum + firmware_sum(ss)) % 0x1_0000_0000 {
                Ok::<u32, Fx3Error>(entry)
            } else {
                Err(Fx3Error::ChecksumMismatch)
            },
        ),
{
    lemma_image_loads(before, ss, entry, sum, after, checksum);
    reveal(loads_as);
}

/// Compares a piece of the image with what reads back from the memory it
/// was written to.
pub fn verify_chunk(image: &[u8], chunk: &Fx3Chunk, readback: &[u8]) -> (r: Result<(), Fx3Error>)
    requires
        chunk.start <= chunk.end <= image@.len(),
    ensures
        r == (if readback@ == image@.subrange(chunk.start as int, chunk.end as int) {
            Ok::<(), Fx3Error>(())
        } else {
            Err(Fx3Error::VerifyMismatch)
        }),
{
    let want: usize = chunk.end - chunk.start;
    let ghost piece = image@.subrange(chunk.start as int, chunk.end as int);
    if readback.len() != want {
        return Err(Fx3Error::VerifyMismatch);
    }
    let total: usize = image.len();
    for i in 0..want
        invariant
            total == image@.len(),
            want == readback@.len(),
            want == chunk.end - chunk.start,
            chunk.start <= chunk.end <= total,
            piece == image@.subrange(chunk.start as int, chunk.end as int),
            readback@.take(i as int) =~= piece.take(i as int),
    {
        if readback[i] != image[chunk.start + i] {
            assert(readback@[i as int] != piece[i as int]);
            return Err(Fx3Error::VerifyMismatch);
        }
    }
    assert(readback@ =~= readback@.take(want as int));
    assert(piece =~= piece.take(want as int));
    Ok(())
}

/// The in-phase and quadrature decimators of the down-converter.
#[derive(Clone, Copy, Debug)]
pub struct IqDecimator {
    pub i: CicDecimator,
    pub q: CicDecimator,
}

impl IqDecimator {
    pub open spec fn wf(self) -> bool {
        &&& self.i.wf()
        &&& self.q.wf()
        &&& self.i.count == self.q.count
        &&& self.i.decimation == self.q.decimation
    }

    pub fn new(decimation: u32) -> (d: Self)
        ensures
            d.wf(),
            d.i@ == cic::at_rest(decimation),
            d.q@ == cic::at_rest(decimation),
    {
        IqDecimator { i: CicDecimator::new(decimation), q: CicDecimator::new(decimation) }
    }

    /// Takes in one mixed sample; every `decimation` samples there is an
    /// output.
    pub fn push(&mut self, i: i64, q: i64) -> (out: Option<(i64, i64)>)
        requires
            old(self).wf(),
        ensures
            final(self).wf(),
            final(self).i@ == cic::after_sample(old(self).i@, i),
            final(self).q@ == cic::after_sample(old(self).q@, q),
            out is Some <==> cic::output_due(old(self).i@),
            out matches Some(pair) ==> cic::output(old(self).i@, i) == Some(pair.0)
                && cic::output(old(self).q@, q) == Some(pair.1),
    {
        let from_i: Option<i64> = self.i.push(i);
        let from_q: Option<i64> = self.q.push(q);
        match (from_i, from_q) {
            (Some(a), Some(b)) => Some((a, b)),
            _ => None,
        }
    }

    /// Takes in a block of mixed samples and returns its outputs.
    pub fn process_block(&mut self, mixed: &[(i64, i64)]) -> (out: Vec<(i64, i64)>)
        requires
            old(self).wf(),
        ensures
            final(self).wf(),
            final(self).i@ == cic::after_block(old(self).i@, in_phase(mixed@)),
            final(self).q@ == cic::after_block(old(self).q@, quadrature(mixed@)),
            in_phase(out@) == cic::block_outputs(old(self).i@, in_phase(mixed@)),
            quadrature(out@) == cic::block_outputs(old(self).q@, quadrature(mixed@)),
    {
        let mut out: Vec<(i64, i64)> = Vec::new();
        let n: usize = mixed.len();
        proof {
            assert(in_phase(mixed@.take(0)) =~= Seq::empty());
            assert(quadrature(mixed@.take(0)) =~= Seq::empty());
            assert(in_phase(out@) =~= Seq::empty());
            assert(quadrature(out@) =~= Seq::empty());
        }
        for k in 0..n
            invariant
                n == mixed@.len(),
                self.wf(),
                self.i@ == cic::after_block(old(self).i@, in_phase(mixed@.take(k as int))),
                self.q@ == cic::after_block(old(self).q@, quadrature(mixed@.take(k as int))),
                in_phase(out@) == cic::block_outputs(
                    old(self).i@,
                    in_phase(mixed@.take(k as int)),
                ),
                quadrature(out@) == cic::block_outputs(
                    old(self).q@,
                    quadrature(mixed@.take(k as int)),
                ),
        {
            let (i, q): (i64, i64) = mixed[k];
            let ghost before = out@;
            proof {
                let now = mixed@.take(k + 1);
                assert(in_phase(now).drop_last() =~= in_phase(mixed@.take(k as int)));
                assert(quadrature(now).drop_last() =~= quadrature(mixed@.take(k as int)));
            }
            if let Some(pair) = self.push(i, q) {
                out.push(pair);
                assert(in_phase(out@) =~= in_phase(before).push(pair.0));
                assert(quadrature(out@) =~= quadrature(before).push(pair.1));
            }
        }
        assert(mixed@.take(n as int) =~= mixed@);
        out
    }
}

/// The in-phase part of mixed samples.
pub open spec fn in_phase(mixed: Seq<(i64, i64)>) -> Seq<i64> {
    mixed.map_values(|p: (i64, i64)| p.0)
}

/// The quadrature part of mixed samples.
pub open spec fn quadrature(mixed: Seq<(i64, i64)>) -> Seq<i64> {
    mixed.map_values(|p: (i64, i64)| p.1)
}

/// It does not matter how a run of mixed samples is cut into blocks: both
/// parts give the same outputs in the same order, and leave the same
/// decimators behind.
pub proof fn law_mixed_blocks_join(
    i: cic::CicModel,
    q: cic::CicModel,
    a: Seq<(i64, i64)>,
    b: Seq<(i64, i64)>,
)
    ensures
        cic::block_outputs(i, in_phase(a + b)) == cic::block_outputs(i, in_phase(a))
            + cic::block_outputs(cic::after_block(i, in_phase(a)), in_phase(b)),
        cic::block_outputs(q, quadrature(a + b)) == cic::block_outputs(q, quadrature(a))
            + cic::block_outputs(cic::after_block(q, quadrature(a)), quadrature(b)),
        cic::after_block(i, in_phase(a + b)) == cic::after_block(
            cic::after_block(i, in_phase(a)),
            in_phase(b),
        ),
        cic::after_block(q, quadrature(a + b)) == cic::after_block(
            cic::after_block(q, quadrature(a)),
            quadrature(b),
        ),
{
    assert(in_phase(a + b) =~= in_phase(a) + in_phase(b));
    assert(quadrature(a + b) =~= quadrature(a) + quadrature(b));
    cic::law_blocks_join(i, in_phase(a), in_phase(b));
    cic::law_blocks_join(q, quadrature(a), quadrature(b));
}

proof fn lemma_adc_gain_fits()
    ensures
        cic::gain(CIC_DECIMATION as nat, 5) == 140_126_044_921_875,
        cic::gain(CIC_DECIMATION as nat, 5) * 32768 <= i64::MAX,
{
    reveal_with_fuel(cic::gain, 6);
    assert(cic::gain(675, 5) == 140_126_044_921_875);
}

/// With this receiver's decimation, samples of the converter's 16-bit
/// range never spoil an output, however long it runs: each output is the
/// exact five-fold moving sum of the input.
pub proof fn law_adc_samples_decimate_exactly(x: Seq<i64>, v: i64)
    requires
        cic::bounded(x.push(v), 32768),
    ensures
        cic::output(cic::after_all(CIC_DECIMATION, x), v) == (if (x.len() as int + 1)
            % CIC_DECIMATION as int == 0 {
            Some(
                cic::moving_sum(x.push(v), CIC_DECIMATION as nat, 5, x.len() as int + 1) as i64,
            )
        } else {
            None
        }),
        -i64::MAX <= cic::moving_sum(x.push(v), CIC_DECIMATION as nat, 5, x.len() as int + 1)
            <= i64::MAX,
{
    lemma_adc_gain_fits();
    cic::law_output_is_exact(CIC_DECIMATION, x, v, 32768);
}

/// An output with the filter's gain divided out, and brought to 256/5 of
/// the converter's scale, is within 1,677,722 in exact arithmetic.
pub open spec fn within_scale(y: i64) -> bool {
    let gain = cic::gain(CIC_DECIMATION as nat, 5);
    -1_677_722 * (5 * gain) <= 256 * y <= 1_677_722 * (5 * gain)
}

/// From samples of the converter's 16-bit range no output ever grows past
/// the filter's gain times full scale, whatever bias they have, and each
/// second of them gives a second of outputs.
pub proof fn law_adc_stream_stays_bounded(x: Seq<i64>)
    requires
        cic::bounded(x, 32768),
    ensures
        cic::bounded(
            cic::block_outputs(cic::at_rest(CIC_DECIMATION), x),
            140_126_044_921_875int * 32768,
        ),
        forall|k: int|
            0 <= k < cic::block_outputs(cic::at_rest(CIC_DECIMATION), x).len() ==> within_scale(
                #[trigger] cic::block_outputs(cic::at_rest(CIC_DECIMATION), x)[k],
            ),
        cic::block_outputs(cic::at_rest(CIC_DECIMATION), x).len() == x.len()
            / CIC_DECIMATION as nat,
        x.len() == DEFAULT_SAMPLE_RATE_HZ ==> cic::block_outputs(
            cic::at_rest(CIC_DECIMATION),
            x,
        ).len() == OUTPUT_SAMPLE_RATE_HZ,
{
    lemma_adc_gain_fits();
    cic::law_output_is_bounded(CIC_DECIMATION, x, 32768);
    cic::law_output_count(CIC_DECIMATION, x);
}

/// The same holds of every block, however many samples of that range came
/// before it.
pub proof fn law_adc_blocks_stay_bounded(before: Seq<i64>, block: Seq<i64>)
    requires
        cic::bounded(before, 32768),
        cic::bounded(block, 32768),
    ensures
        ({
            let out = cic::block_outputs(cic::after_all(CIC_DECIMATION, before), block);
            &&& cic::bounded(out, 140_126_044_921_875int * 32768)
            &&& forall|k: int| 0 <= k < out.len() ==> within_scale(#[trigger] out[k])
        }),
{
    let rest = cic::at_rest(CIC_DECIMATION);
    let first = cic::block_outputs(rest, before);
    let out = cic::block_outputs(cic::after_all(CIC_DECIMATION, before), block);
    let all = cic::block_outputs(rest, before + block);
    law_adc_stream_stays_bounded(before + block);
    cic::law_blocks_join(rest, before, block);
    assert forall|k: int| 0 <= k < out.len() implies out[k] == all[first.len() + k] by {
    }
}

/// The randomizer leaves even samples alone, and of odd ones gives what is
/// missing to 65,536.
pub proof fn law_randomizer(u: u16)
    ensures
        u % 2 == 0 ==> randomized(u) == u,
        u % 2 == 1 ==> randomized(u) + u == 0x1_0000,
{
    assert((u & 1 != 0) == (u % 2 == 1)) by (bit_vector);
    assert(u % 2 == 1 ==> (u ^ 0xFFFE) + u == 0x1_0000) by (bit_vector);
}

/// Words are written and read with the least significant byte first.
pub proof fn law_words(image: Seq<u8>, at: int, x: u32)
    ensures
        le32(x).len() == 4,
        le32(x)[0] + 0x100 * le32(x)[1] + 0x1_0000 * le32(x)[2] + 0x100_0000 * le32(x)[3] == x,
        word_at(image, at) == image[at] + 0x100 * image[at + 1] + 0x1_0000 * image[at + 2]
            + 0x100_0000 * image[at + 3],
{
    bytes::law_bytes_hold_what_was_written(0, 0, 0, x);
}

/// The sum of no words is 0, and of one word more it is more by that word.
pub proof fn law_word_sums(image: Seq<u8>, at: int, n: nat)
    ensures
        word_sum(image, at, 0) == 0,
        word_sum(image, at, n + 1) == word_sum(image, at, n) + image[at + 4 * n] + 0x100 * image[at
            + 4 * n + 1] + 0x1_0000 * image[at + 4 * n + 2] + 0x100_0000 * image[at + 4 * n + 3],
{
}

/// The numbers of the device's requests, settings and outputs.
pub proof fn law_requests_have_their_numbers(r: ControlRequest, data: u32, value: int)
    ensures
        is_command(r, 0xB2, data) ==> r.request == 0xB2 && r.value == 0 && r.index == 0
            && r.data@.len() == 4 && r.data@[0] == data % 0x100,
        is_argument(r, 10, value) ==> r.request == 0xB6 && r.value == value && r.index == 10,
        STARTFX3 == 0xAA && STOPFX3 == 0xAB && GPIOFX3 == 0xAD && STARTADC == 0xB2 && TUNERSTDBY
            == 0xB8 && SETARGFX3 == 0xB6 && RW_INTERNAL == 0xA0,
        DAT31_ATT == 10 && AD8340_VGA == 11 && GPIO_DITH == 64 && GPIO_RANDO == 128,
        VID == 0x04B4 && PID_UNLOADED == 0x00F3 && PID_STREAMING == 0x00F1,
        DEFAULT_SAMPLE_RATE_HZ == 64_800_000 && CIC_DECIMATION == 675 && OUTPUT_SAMPLE_RATE_HZ
            == 96_000,
{
    law_words(Seq::empty(), 0, data);
}

/// A section is cut into pieces that follow each other without a gap, from
/// its first byte to its last, none longer than 4096 bytes; each is written
/// as far behind the section's address as it stands behind its start.
pub proof fn law_pieces_make_the_section(
    chunks: Seq<Fx3Chunk>,
    addr: u32,
    start: int,
    len: int,
    k: int,
)
    requires
        is_cut(chunks, addr, start, len),
        len > 0,
        0 <= k < chunks.len(),
    ensures
        chunks.len() > 0,
        chunks[0].start == start,
        chunks[chunks.len() - 1].end == start + len,
        k + 1 < chunks.len() ==> chunks[k].end == chunks[k + 1].start,
        0 < chunks[k].end - chunks[k].start <= 4096,
        chunks[k].addr == (addr + (chunks[k].start - start)) % 0x1_0000_0000,
{
    let last = chunks.len() - 1;
    assert(chunks[last].start == start + 4096 * last);
    assert(chunks[0].start == start + 4096 * 0);
    assert(chunks[k].start == start + 4096 * k);
}

/// An image that ends too early, inside a header, inside a section or
/// before the sum, is refused for that.
pub proof fn law_short_images_are_refused(image: Seq<u8>, at: int, checksum: u32)
    requires
        0 <= at <= image.len(),
    ensures
        ({
            let words = image[at] + 0x100 * image[at + 1] + 0x1_0000 * image[at + 2] + 0x100_0000
                * image[at + 3];
            let left = image.len() - at;
            &&& left < 8 ==> record_at(image, at, checksum) == Err::<Fx3Record, Fx3Error>(
                Fx3Error::TruncatedHeader,
            )
            &&& 8 <= left < 12 && words == 0 ==> record_at(image, at, checksum) == Err::<
                Fx3Record,
                Fx3Error,
            >(Fx3Error::MissingChecksum)
            &&& left >= 8 && words > 0 && left - 8 < 4 * words ==> record_at(image, at, checksum)
                == Err::<Fx3Record, Fx3Error>(Fx3Error::TruncatedData)
        }),
{
}

} // verus!
