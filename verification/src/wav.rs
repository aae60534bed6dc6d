//! The WAV container that a conversion produces, and the encoder that writes it.

use crate::error::ConverterError;
use crate::samples::{sample_value, samples_of};
use vstd::prelude::*;
use vstd::string::StringExecFns;

verus! {

/// Whether samples are stored as integers or as IEEE floats.
#[derive(Clone, Copy, Debug, PartialEq, Eq, Structural)]
pub enum SampleFormat {
    Float,
    Int,
}

/// The audio properties declared in a WAV header.
#[derive(Clone, Copy, Debug, PartialEq, Eq, Structural)]
pub struct WavFormatSpec {
    pub channels: u16,
    pub sample_rate: u32,
    pub bits_per_sample: u16,
    pub sample_format: SampleFormat,
}

/// The most samples one container can hold: the header's two length fields
/// are 32 bits wide and the larger one counts 36 bytes of header as well.
pub const MAX_SAMPLES: usize = 2147483629;

/// `width` bytes of `value`, least significant first.
pub open spec fn le_bytes(value: int, width: nat) -> Seq<u8>
    decreases width,
{
    if width == 0 {
        Seq::<u8>::empty()
    } else {
        seq![(value % 256) as u8] + le_bytes(value / 256, (width - 1) as nat)
    }
}

/// The number that `width` bytes of `bytes` from `at` on encode, least
/// significant first.
pub open spec fn le_value(bytes: Seq<u8>, at: int, width: nat) -> int
    decreases width,
{
    if width == 0 {
        0
    } else {
        bytes[at] as int + 256 * le_value(bytes, at + 1, (width - 1) as nat)
    }
}

/// The two bytes that store a sample: its two's complement, low byte first.
pub open spec fn sample_bytes(sample: i16) -> Seq<u8> {
    le_bytes(if sample >= 0 { sample as int } else { sample + 65536 }, 2)
}

/// The data chunk's payload: every sample in order, two bytes each.
pub open spec fn pcm_bytes(samples: Seq<i16>) -> Seq<u8>
    decreases samples.len(),
{
    if samples.len() == 0 {
        Seq::<u8>::empty()
    } else {
        pcm_bytes(samples.drop_last()) + sample_bytes(samples.last())
    }
}

impl WavFormatSpec {
    /// Integer PCM of 16 bits in one or two channels, at a rate whose byte
    /// rate fits the header: what is written with the plain 16-byte format
    /// chunk.
    pub open spec fn is_plain_pcm16(self) -> bool {
        &&& self.sample_format == SampleFormat::Int
        &&& self.bits_per_sample == 16
        &&& 1 <= self.channels <= 2
        &&& 0 < self.sample_rate
        &&& self.sample_rate * 2 * self.channels <= u32::MAX
    }

    /// The first 12 bytes of a file: the tag `RIFF`, the number of bytes that
    /// follow the next field, and the tag `WAVE`.
    pub open spec fn riff_chunk(data_len: nat) -> Seq<u8> {
        seq![0x52u8, 0x49u8, 0x46u8, 0x46u8] + le_bytes(36 + data_len as int, 4)
            + seq![0x57u8, 0x41u8, 0x56u8, 0x45u8]
    }

    /// The 24 bytes of the format chunk: the tag `fmt `, the chunk's size of
    /// 16, the code 1 for integer PCM, the channel count, the sample rate, the
    /// bytes per second, the bytes per frame and the bits per sample.
    pub open spec fn format_chunk(self) -> Seq<u8> {
        seq![0x66u8, 0x6du8, 0x74u8, 0x20u8] + le_bytes(16, 4) + le_bytes(1, 2) + le_bytes(
            self.channels as int,
            2,
        ) + le_bytes(self.sample_rate as int, 4) + le_bytes(
            self.sample_rate * 2 * self.channels,
            4,
        ) + le_bytes(2 * self.channels, 2) + le_bytes(self.bits_per_sample as int, 2)
    }

    /// The 8 bytes that open the data chunk: the tag `data` and the length of
    /// the data.
    pub open spec fn data_chunk_start(data_len: nat) -> Seq<u8> {
        seq![0x64u8, 0x61u8, 0x74u8, 0x61u8] + le_bytes(data_len as int, 4)
    }

    /// The 44 bytes that precede the samples of a 16-bit PCM file whose data
    /// chunk holds `data_len` bytes.
    pub open spec fn header(self, data_len: nat) -> Seq<u8> {
        Self::riff_chunk(data_len) + self.format_chunk() + Self::data_chunk_start(data_len)
    }

    /// The whole file that holds `samples` in this format.
    pub open spec fn file(self, samples: Seq<i16>) -> Seq<u8> {
        self.header(2 * samples.len()) + pcm_bytes(samples)
    }
}

/// Runs `hound::WavWriter` over an in-memory sink: `WavWriter::new` with the
/// given format, `write_sample` for each sample in order, `finalize`. For a
/// plain 16-bit PCM format hound writes the 44-byte header of
/// [`WavFormatSpec::header`], then each sample as two little-endian bytes, and
/// on `finalize` patches both length fields.
///
/// hound fails only where a write or a seek on its sink fails, where the bit
/// depth is not one it writes, or, on `finalize`, where the last frame lacks a
/// channel. The sink here is a vector in memory, on which writes and seeks
/// within its length do not fail, and 16 bits are written. So the call
/// succeeds exactly when the samples make whole frames. The bound on the
/// number of samples keeps hound's 32-bit byte counter from overflowing.
#[verifier::external_body]
fn hound_encode(format: &WavFormatSpec, samples: &Vec<i16>) -> (outcome: Result<
    Vec<u8>,
    hound::Error,
>)
    requires
        format.is_plain_pcm16(),
        samples.len() <= MAX_SAMPLES,
    ensures
        outcome is Ok <==> samples@.len() % (format.channels as nat) == 0,
        outcome matches Ok(bytes) ==> bytes@ == format.file(samples@),
{
    let sample_format = match format.sample_format {
        SampleFormat::Int => hound::SampleFormat::Int,
        SampleFormat::Float => hound::SampleFormat::Float,
    };
    let (channels, sample_rate) = (format.channels, format.sample_rate);
    let spec = hound::WavSpec { channels, sample_rate, bits_per_sample: format.bits_per_sample, sample_format };
    let mut sink = std::io::Cursor::new(Vec::new());
    let mut writer = hound::WavWriter::new(&mut sink, spec)?;
    for sample in samples.iter() {
        writer.write_sample(*sample)?;
    }
    writer.finalize()?;
    Ok(sink.into_inner())
}

/// What a conversion returns once the encoder has answered: its bytes, or its
/// failure as a [`ConverterError::WavError`].
pub fn encoded_or_failure(outcome: Result<Vec<u8>, hound::Error>) -> (result: Result<
    Vec<u8>,
    ConverterError,
>)
    ensures
        outcome matches Ok(bytes) ==> result == Ok::<Vec<u8>, ConverterError>(bytes),
        outcome is Err ==> result matches Err(ConverterError::WavError(_)),
{
    match outcome {
        Ok(bytes) => Ok(bytes),
        Err(cause) => Err(ConverterError::from_wav(cause)),
    }
}

/// Encodes `samples` as a WAV file in `format`.
///
/// Succeeds exactly when the samples fit one container, which holds at most
/// [`MAX_SAMPLES`], and make whole frames, one sample for each channel. The
/// bytes are then the file that [`WavFormatSpec::file`] describes. Too many
/// samples are refused as invalid data; a frame that lacks a channel is the
/// encoder's failure, a `WavError`.
pub fn encode_wav(format: &WavFormatSpec, samples: &Vec<i16>) -> (result: Result<
    Vec<u8>,
    ConverterError,
>)
    requires
        format.is_plain_pcm16(),
    ensures
        result is Ok <==> samples@.len() <= MAX_SAMPLES && samples@.len() % (
        format.channels as nat) == 0,
        match result {
            Ok(bytes) => bytes@ == format.file(samples@),
            Err(error) => if samples@.len() > MAX_SAMPLES {
                error is InvalidData && error.detail() == "too many samples for one WAV file"@
            } else {
                error is WavError
            },
        },
{
    if samples.len() > MAX_SAMPLES {
        return Err(
            ConverterError::InvalidData(String::from_str("too many samples for one WAV file")),
        );
    }
    encoded_or_failure(hound_encode(format, samples))
}

/// Two bytes, least significant first, written out.
proof fn le_bytes_of_two(value: int)
    ensures
        le_bytes(value, 2) == seq![(value % 256) as u8, (value / 256 % 256) as u8],
{
    reveal_with_fuel(le_bytes, 3);
    assert(le_bytes(value, 2) =~= seq![(value % 256) as u8, (value / 256 % 256) as u8]);
}

/// Four bytes, least significant first, written out.
proof fn le_bytes_of_four(value: int)
    ensures
        le_bytes(value, 4) == seq![
            (value % 256) as u8,
            (value / 256 % 256) as u8,
            (value / 256 / 256 % 256) as u8,
            (value / 256 / 256 / 256 % 256) as u8,
        ],
{
    reveal_with_fuel(le_bytes, 5);
    assert(le_bytes(value, 4) =~= seq![
        (value % 256) as u8,
        (value / 256 % 256) as u8,
        (value / 256 / 256 % 256) as u8,
        (value / 256 / 256 / 256 % 256) as u8,
    ]);
}

/// The header is 44 bytes long and declares the format and both lengths: the
/// channel count at byte 22, the sample rate at 24, the bits per sample at 34,
/// the length of the data at 40, and at 4 the length of all that follows that
/// field.
pub proof fn header_declares_format(format: WavFormatSpec, data_len: nat)
    requires
        format.is_plain_pcm16(),
        36 + data_len <= u32::MAX,
    ensures
        format.header(data_len).len() == 44,
        le_value(format.header(data_len), 4, 4) == 36 + data_len,
        le_value(format.header(data_len), 22, 2) == format.channels,
        le_value(format.header(data_len), 24, 4) == format.sample_rate,
        le_value(format.header(data_len), 34, 2) == format.bits_per_sample,
        le_value(format.header(data_len), 40, 4) == data_len,
{
    let riff = WavFormatSpec::riff_chunk(data_len);
    let fmt = format.format_chunk();
    let data = WavFormatSpec::data_chunk_start(data_len);
    let header = format.header(data_len);
    le_bytes_of_four(36 + data_len as int);
    le_bytes_of_four(16);
    le_bytes_of_two(1);
    le_bytes_of_two(format.channels as int);
    le_bytes_of_four(format.sample_rate as int);
    le_bytes_of_four(format.sample_rate * 2 * format.channels);
    le_bytes_of_two(2 * format.channels);
    le_bytes_of_two(format.bits_per_sample as int);
    le_bytes_of_four(data_len as int);
    assert(riff.len() == 12);
    assert(fmt.len() == 24);
    assert(data.len() == 8);
    assert(header.subrange(4, 8) =~= le_bytes(36 + data_len as int, 4)) by {
        assert forall|k: int| 4 <= k < 8 implies header[k] == riff[k] by {}
    }
    assert(header.subrange(22, 24) =~= le_bytes(format.channels as int, 2)) by {
        assert forall|k: int| 22 <= k < 24 implies header[k] == fmt[k - 12] by {}
    }
    assert(header.subrange(24, 28) =~= le_bytes(format.sample_rate as int, 4)) by {
        assert forall|k: int| 24 <= k < 28 implies header[k] == fmt[k - 12] by {}
    }
    assert(header.subrange(34, 36) =~= le_bytes(format.bits_per_sample as int, 2)) by {
        assert forall|k: int| 34 <= k < 36 implies header[k] == fmt[k - 12] by {}
    }
    assert(header.subrange(40, 44) =~= le_bytes(data_len as int, 4)) by {
        assert forall|k: int| 40 <= k < 44 implies header[k] == data[k - 36] by {}
    }
    le_value_reads_two(header, 22, format.channels as int);
    le_value_reads_two(header, 34, format.bits_per_sample as int);
    le_value_reads_four(header, 4, 36 + data_len as int);
    le_value_reads_four(header, 24, format.sample_rate as int);
    le_value_reads_four(header, 40, data_len as int);
}

/// Reading two bytes gives back the number that was written there.
proof fn le_value_reads_two(bytes: Seq<u8>, at: int, value: int)
    requires
        0 <= value < 0x1_0000,
        0 <= at,
        at + 2 <= bytes.len(),
        bytes.subrange(at, at + 2) == le_bytes(value, 2),
    ensures
        le_value(bytes, at, 2) == value,
{
    reveal_with_fuel(le_value, 3);
    le_bytes_of_two(value);
    assert(bytes[at] == bytes.subrange(at, at + 2)[0]);
    assert(bytes[at + 1] == bytes.subrange(at, at + 2)[1]);
}

/// Reading four bytes gives back the number that was written there.
proof fn le_value_reads_four(bytes: Seq<u8>, at: int, value: int)
    requires
        0 <= value < 0x1_0000_0000,
        0 <= at,
        at + 4 <= bytes.len(),
        bytes.subrange(at, at + 4) == le_bytes(value, 4),
    ensures
        le_value(bytes, at, 4) == value,
{
    reveal_with_fuel(le_value, 5);
    le_bytes_of_four(value);
    assert(bytes[at] == bytes.subrange(at, at + 4)[0]);
    assert(bytes[at + 1] == bytes.subrange(at, at + 4)[1]);
    assert(bytes[at + 2] == bytes.subrange(at, at + 4)[2]);
    assert(bytes[at + 3] == bytes.subrange(at, at + 4)[3]);
}

/// A file is its header followed by two bytes for each sample, and the
/// header's data length is the number of samples times two.
pub proof fn file_declares_its_samples(format: WavFormatSpec, samples: Seq<i16>)
    requires
        format.is_plain_pcm16(),
        36 + 2 * samples.len() <= u32::MAX,
    ensures
        format.file(samples).len() == 44 + 2 * samples.len(),
        le_value(format.file(samples), 22, 2) == format.channels,
        le_value(format.file(samples), 24, 4) == format.sample_rate,
        le_value(format.file(samples), 34, 2) == format.bits_per_sample,
        le_value(format.file(samples), 40, 4) == 2 * samples.len(),
        format.file(samples).skip(44) == pcm_bytes(samples),
{
    let header = format.header(2 * samples.len());
    let file = format.file(samples);
    header_declares_format(format, 2 * samples.len());
    pcm_bytes_len(samples);
    assert forall|k: int| 0 <= k < 44 implies file[k] == header[k] by {}
    le_value_ignores_the_rest(header, file, 22, 2);
    le_value_ignores_the_rest(header, file, 24, 4);
    le_value_ignores_the_rest(header, file, 34, 2);
    le_value_ignores_the_rest(header, file, 40, 4);
    assert(file.skip(44) =~= pcm_bytes(samples));
}

/// What is read from a range depends on the bytes in that range alone.
proof fn le_value_ignores_the_rest(a: Seq<u8>, b: Seq<u8>, at: int, width: nat)
    requires
        forall|k: int| at <= k < at + width ==> a[k] == b[k],
    ensures
        le_value(a, at, width) == le_value(b, at, width),
    decreases width,
{
    if width > 0 {
        le_value_ignores_the_rest(a, b, at + 1, (width - 1) as nat);
    }
}

/// The payload is two bytes long for each sample.
pub proof fn pcm_bytes_len(samples: Seq<i16>)
    ensures
        pcm_bytes(samples).len() == 2 * samples.len(),
    decreases samples.len(),
{
    reveal_with_fuel(le_bytes, 3);
    if samples.len() > 0 {
        pcm_bytes_len(samples.drop_last());
    }
}

/// The payload written for the samples of a buffer is the buffer itself,
/// without its last byte where its length is odd.
pub proof fn payload_is_input(bytes: Seq<u8>)
    ensures
        pcm_bytes(samples_of(bytes)) == bytes.take(2 * (bytes.len() as int / 2)),
    decreases bytes.len(),
{
    let count = bytes.len() as int / 2;
    let samples = samples_of(bytes);
    if count == 0 {
        assert(pcm_bytes(samples) =~= bytes.take(0));
    } else {
        let front = bytes.take(2 * (count - 1));
        payload_is_input(front);
        assert(samples.drop_last() =~= samples_of(front));
        let lo = bytes[2 * (count - 1)];
        let hi = bytes[2 * (count - 1) + 1];
        assert(samples.last() == sample_value(lo, hi) as i16);
        reveal_with_fuel(le_bytes, 3);
        assert(sample_bytes(samples.last()) =~= seq![lo, hi]);
        assert(front.take(2 * (front.len() as int / 2)) =~= front);
        assert(front + seq![lo, hi] =~= bytes.take(2 * count));
    }
}

} // verus!
