//! The converter: one VR8 file in, one WAV file out, and the summary of a
//! batch.

use crate::batch::{
    elapsed_millis, elapsed_ms, output_path_for, planned_output, ConversionResult,
};
use crate::error::ConverterError;
use crate::samples::{
    concat_all, decode_each, decode_samples, decode_windowed, samples_of,
    windows_decode_like_whole,
};
use crate::wav::{
    encode_wav, file_declares_its_samples, le_value, payload_is_input, SampleFormat,
    WavFormatSpec, MAX_SAMPLES,
};
use vstd::prelude::*;
use vstd::string::StringExecFns;

verus! {

/// Inputs larger than this many bytes are read and decoded window by window.
pub const CHUNK_THRESHOLD: u64 = 30 * 1024 * 1024;

/// The length of a window in bytes. It is even, so that no sample is split
/// between two windows.
pub const WINDOW_BYTES: usize = 64 * 1024;

/// The one format that is ever written: mono, 44.1 kHz, 16-bit integer PCM.
pub open spec fn standard_format() -> WavFormatSpec {
    WavFormatSpec {
        channels: 1,
        sample_rate: 44100,
        bits_per_sample: 16,
        sample_format: SampleFormat::Int,
    }
}

/// The number of outcomes at the front of `outcomes` that are successes: the
/// index of the first failure, if there is one.
pub open spec fn converted_before_failure(outcomes: Seq<Result<(), ConverterError>>) -> nat
    decreases outcomes.len(),
{
    if outcomes.len() > 0 && outcomes[0] is Ok {
        1 + converted_before_failure(outcomes.skip(1))
    } else {
        0
    }
}

/// A converted file: where it goes and what it holds.
#[derive(Debug)]
pub struct WavFile {
    pub path: String,
    pub bytes: Vec<u8>,
}

/// Handles the conversion of VR8 files to WAV format.
pub struct Converter {
    wav_spec: WavFormatSpec,
}

impl Default for Converter {
    fn default() -> (converter: Converter)
        ensures
            converter.format() == standard_format(),
    {
        Converter {
            wav_spec: WavFormatSpec {
                channels: 1,
                sample_rate: 44100,
                bits_per_sample: 16,
                sample_format: SampleFormat::Int,
            },
        }
    }
}

impl Converter {
    #[verifier::type_invariant]
    spec fn writes_standard_format(self) -> bool {
        self.wav_spec == standard_format()
    }

    /// The format that this converter writes.
    pub closed spec fn format(self) -> WavFormatSpec {
        self.wav_spec
    }

    /// The format that this converter writes: always the standard one.
    pub fn wav_spec(&self) -> (format: WavFormatSpec)
        ensures
            format == self.format(),
            format == standard_format(),
    {
        proof {
            use_type_invariant(self);
        }
        self.wav_spec
    }

    /// Whether an input of `file_size` bytes is read window by window rather
    /// than at once.
    pub fn reads_in_windows(&self, file_size: u64) -> (windowed: bool)
        ensures
            windowed == (file_size > CHUNK_THRESHOLD),
    {
        file_size > CHUNK_THRESHOLD
    }

    /// Writes samples that were decoded from `input_path` as the WAV file that
    /// belongs under `output_dir`.
    ///
    /// Succeeds exactly when the input has a file stem and the samples are at
    /// most [`MAX_SAMPLES`]. The file is then the 44-byte header of the
    /// standard format followed by the samples. Each of the two failures is
    /// invalid data with its own text, the missing stem first.
    pub fn encode_file(&self, input_path: &str, output_dir: &str, samples: &Vec<i16>) -> (result:
        Result<WavFile, ConverterError>)
        ensures
            result is Ok <==> planned_output(input_path@, output_dir@) is Some && samples@.len()
                <= MAX_SAMPLES,
            match result {
                Ok(file) => {
                    &&& planned_output(input_path@, output_dir@) == Some(file.path@)
                    &&& file.bytes@ == standard_format().file(samples@)
                },
                Err(error) => {
                    &&& error is InvalidData
                    &&& error.detail() == if planned_output(input_path@, output_dir@) is None {
                        "Invalid input filename"@
                    } else {
                        "too many samples for one WAV file"@
                    }
                },
            },
    {
        proof {
            use_type_invariant(self);
        }
        let path = match output_path_for(input_path, output_dir) {
            Ok(path) => path,
            Err(error) => {
                return Err(error);
            },
        };
        match encode_wav(&self.wav_spec, samples) {
            Ok(bytes) => Ok(WavFile { path, bytes }),
            Err(error) => Err(error),
        }
    }

    /// Converts the content of one VR8 file into the WAV file that belongs
    /// under `output_dir`.
    ///
    /// Every two bytes of `data` are one little-endian sample; an odd last
    /// byte is dropped. Content above [`CHUNK_THRESHOLD`] is decoded in
    /// windows of [`WINDOW_BYTES`], smaller content at once, with the same
    /// result. The conversion succeeds exactly when the input has a file stem
    /// and holds at most [`MAX_SAMPLES`] samples. The file then holds the
    /// header of the standard format, which declares the length of the data,
    /// and then the content itself, without the dropped byte.
    pub fn convert_file(&self, input_path: &str, output_dir: &str, data: &[u8]) -> (result: Result<
        WavFile,
        ConverterError,
    >)
        ensures
            result is Ok <==> planned_output(input_path@, output_dir@) is Some && data@.len() / 2
                <= MAX_SAMPLES,
            match result {
                Ok(file) => {
                    &&& planned_output(input_path@, output_dir@) == Some(file.path@)
                    &&& file.bytes@ == standard_format().file(samples_of(data@))
                    &&& file.bytes@.len() == 44 + 2 * (data@.len() / 2)
                    &&& le_value(file.bytes@, 40, 4) == 2 * (data@.len() / 2)
                    &&& file.bytes@.skip(44) == data@.take(2 * (data@.len() as int / 2))
                },
                Err(error) => {
                    &&& error is InvalidData
                    &&& error.detail() == if planned_output(input_path@, output_dir@) is None {
                        "Invalid input filename"@
                    } else {
                        "too many samples for one WAV file"@
                    }
                },
            },
    {
        let samples = if data.len() as u64 > CHUNK_THRESHOLD {
            decode_windowed(data, WINDOW_BYTES)
        } else {
            decode_samples(data)
        };
        let result = self.encode_file(input_path, output_dir, &samples);
        proof {
            if result is Ok {
                assert(standard_format().is_plain_pcm16());
                file_declares_its_samples(standard_format(), samples@);
                payload_is_input(data@);
            }
        }
        result
    }

    /// Sums up a batch from the outcomes of its files, given in the order of
    /// the inputs, and from two readings of one clock in nanoseconds: one
    /// taken before the first file was started, one after the last had ended.
    ///
    /// Where every file was converted, the summary counts them and carries the
    /// whole milliseconds between the readings and the output directory.
    /// Where files failed, the batch fails with the error of the failed file
    /// that comes first among the inputs, whichever failed first in time.
    pub fn process_files(
        &self,
        outcomes: Vec<Result<(), ConverterError>>,
        output_dir: &str,
        started_ns: u128,
        finished_ns: u128,
    ) -> (result: Result<ConversionResult, ConverterError>)
        ensures
            match result {
                Ok(summary) => {
                    &&& converted_before_failure(outcomes@) == outcomes@.len()
                    &&& summary.files_converted == outcomes@.len()
                    &&& summary.duration_ms == elapsed_millis(
                        started_ns as nat,
                        finished_ns as nat,
                    )
                    &&& summary.output_dir@ == output_dir@
                },
                Err(error) => {
                    &&& converted_before_failure(outcomes@) < outcomes@.len()
                    &&& outcomes@[converted_before_failure(outcomes@) as int] == Err::<
                        (),
                        ConverterError,
                    >(error)
                },
            },
    {
        let count: usize = outcomes.len();
        let mut pending = outcomes;
        let mut index: usize = 0;
        assert(outcomes@.skip(0) =~= outcomes@);
        while index < count
            invariant
                pending@ == outcomes@,
                count == outcomes@.len(),
                index <= count,
                converted_before_failure(outcomes@) == index + converted_before_failure(
                    outcomes@.skip(index as int),
                ),
            decreases count - index,
        {
            if pending[index].is_err() {
                assert(outcomes@.skip(index as int)[0] == outcomes@[index as int]);
                if let Err(error) = pending.remove(index) {
                    return Err(error);
                }
            }
            assert(outcomes@.skip(index as int).skip(1) =~= outcomes@.skip(index + 1));
            index += 1;
        }
        Ok(
            ConversionResult {
                files_converted: count,
                duration_ms: elapsed_ms(started_ns, finished_ns),
                output_dir: String::from_str(output_dir),
            },
        )
    }
}

/// Every file written declares one channel, 44100 samples per second and 16
/// bits per sample, and a data length of two bytes for each sample written.
pub proof fn written_file_declares_standard_format(samples: Seq<i16>)
    requires
        samples.len() <= MAX_SAMPLES,
    ensures
        standard_format().file(samples).len() == 44 + 2 * samples.len(),
        le_value(standard_format().file(samples), 22, 2) == 1,
        le_value(standard_format().file(samples), 24, 4) == 44100,
        le_value(standard_format().file(samples), 34, 2) == 16,
        le_value(standard_format().file(samples), 40, 4) == 2 * samples.len(),
{
    assert(standard_format().is_plain_pcm16());
    file_declares_its_samples(standard_format(), samples);
}

/// Decoding window by window and decoding at once end in the same file, byte
/// for byte, as long as each window but the last has an even length.
pub proof fn windows_write_the_same_file(windows: Seq<Seq<u8>>)
    requires
        forall|k: int| 0 <= k < windows.len() - 1 ==> (#[trigger] windows[k]).len() % 2 == 0,
    ensures
        standard_format().file(decode_each(windows)) == standard_format().file(
            samples_of(concat_all(windows)),
        ),
{
    windows_decode_like_whole(windows);
}

/// The failures come after the successes counted: every outcome before the
/// first failure is a success, and the outcome there, if there is one, is a
/// failure.
pub proof fn converted_before_failure_is_first(outcomes: Seq<Result<(), ConverterError>>)
    ensures
        converted_before_failure(outcomes) <= outcomes.len(),
        forall|i: int| 0 <= i < converted_before_failure(outcomes) ==> outcomes[i] is Ok,
        converted_before_failure(outcomes) < outcomes.len() ==> outcomes[converted_before_failure(
            outcomes,
        ) as int] is Err,
    decreases outcomes.len(),
{
    if outcomes.len() > 0 && outcomes[0] is Ok {
        let rest = outcomes.skip(1);
        converted_before_failure_is_first(rest);
        assert forall|i: int| 0 <= i < converted_before_failure(outcomes) implies outcomes[i]
            is Ok by {
            if i > 0 {
                assert(outcomes[i] == rest[i - 1]);
            }
        }
    }
}

} // verus!
