use std::io::Cursor;
use vr8_core::converter::{CHUNK_THRESHOLD, WINDOW_BYTES};
use vr8_core::samples::{append_window, decode_samples};
use vr8_core::wav::{SampleFormat, WavFormatSpec};
use vr8_core::{convert_files, Converter, ConverterError, ListedPath};

fn read_back(bytes: &[u8]) -> (hound::WavSpec, Vec<i16>) {
    let mut reader = hound::WavReader::new(Cursor::new(bytes.to_vec())).unwrap();
    let spec = reader.spec();
    let samples = reader.samples::<i16>().map(|sample| sample.unwrap()).collect();
    (spec, samples)
}

#[test]
fn the_converter_writes_mono_44k_16_bit_integers() {
    let format = Converter::default().wav_spec();
    assert_eq!(
        format,
        WavFormatSpec {
            channels: 1,
            sample_rate: 44100,
            bits_per_sample: 16,
            sample_format: SampleFormat::Int,
        }
    );
}

#[test]
fn the_window_is_even_and_the_threshold_is_thirty_mebibytes() {
    assert_eq!(WINDOW_BYTES, 65536);
    assert_eq!(WINDOW_BYTES % 2, 0);
    assert_eq!(CHUNK_THRESHOLD, 31_457_280);
}

#[test]
fn only_inputs_above_the_threshold_are_read_in_windows() {
    let converter = Converter::default();
    assert!(!converter.reads_in_windows(0));
    assert!(!converter.reads_in_windows(31_457_280));
    assert!(converter.reads_in_windows(31_457_281));
    assert!(converter.reads_in_windows(u64::MAX));
}

#[test]
fn a_file_is_the_header_and_then_the_input() {
    let data: Vec<u8> = (0..10u8).collect();
    let file = Converter::default().convert_file("/m/take1.vr8", "out", &data).unwrap();
    assert_eq!(file.path, "out/take1.wav");
    assert_eq!(file.bytes.len(), 54);
    assert_eq!(&file.bytes[44..], &data[..]);
    let (spec, samples) = read_back(&file.bytes);
    assert_eq!((spec.channels, spec.sample_rate, spec.bits_per_sample), (1, 44100, 16));
    assert_eq!(samples, vec![0x0100, 0x0302, 0x0504, 0x0706, 0x0908]);
}

#[test]
fn an_odd_last_byte_is_left_out_of_the_file() {
    let data: Vec<u8> = (0..11u8).collect();
    let file = Converter::default().convert_file("/m/take1.vr8", "out", &data).unwrap();
    assert_eq!(file.bytes.len(), 54);
    assert_eq!(&file.bytes[44..], &data[..10]);
}

#[test]
fn a_one_byte_input_gives_a_valid_file_without_samples() {
    let file = Converter::default().convert_file("/m/one.vr8", "out", &[0x7f]).unwrap();
    assert_eq!(file.path, "out/one.wav");
    assert_eq!(file.bytes.len(), 44);
    let (spec, samples) = read_back(&file.bytes);
    assert_eq!((spec.channels, spec.sample_rate, spec.bits_per_sample), (1, 44100, 16));
    assert_eq!(spec.sample_format, hound::SampleFormat::Int);
    assert!(samples.is_empty());
}

#[test]
fn an_empty_input_gives_a_valid_file_without_samples() {
    let file = Converter::default().convert_file("/m/none.vr8", "out", &[]).unwrap();
    assert_eq!(file.bytes.len(), 44);
    assert!(read_back(&file.bytes).1.is_empty());
}

#[test]
fn an_input_without_file_name_is_invalid_data() {
    for input in ["/", "/m/takes/", ".."] {
        match Converter::default().convert_file(input, "out", &[1, 2, 3, 4]) {
            Err(ConverterError::InvalidData(text)) => assert_eq!(text, "Invalid input filename"),
            other => panic!("unexpected {:?}", other),
        }
    }
}

#[test]
fn samples_collected_from_windows_give_the_same_file() {
    let converter = Converter::default();
    let data: Vec<u8> = (0..200_001u32).map(|i| (i % 251) as u8).collect();
    let whole = converter.convert_file("/m/long.vr8", "out", &data).unwrap();
    let mut samples = Vec::new();
    for window in data.chunks(WINDOW_BYTES) {
        append_window(&mut samples, window);
    }
    let streamed = converter.encode_file("/m/long.vr8", "out", &samples).unwrap();
    assert_eq!(streamed.path, whole.path);
    assert_eq!(streamed.bytes, whole.bytes);
}

#[test]
fn an_input_above_the_threshold_gives_the_file_of_its_samples() {
    let converter = Converter::default();
    let len = CHUNK_THRESHOLD as usize + 4097;
    let data: Vec<u8> = (0..len).map(|i| (i % 253) as u8).collect();
    let windowed = converter.convert_file("/m/big.vr8", "out", &data).unwrap();
    let at_once = converter.encode_file("/m/big.vr8", "out", &decode_samples(&data)).unwrap();
    assert_eq!(windowed.bytes.len(), 44 + len - 1);
    assert!(windowed.bytes[44..] == data[..len - 1]);
    assert!(windowed.bytes == at_once.bytes);
}

#[test]
fn five_files_of_five_samples_are_all_converted() {
    let converter = Converter::default();
    let names = ["a", "b", "c", "d", "e"];
    let listed: Vec<ListedPath> = names
        .iter()
        .map(|name| {
            let path = format!("/in/{}.vr8", name);
            ListedPath { path: path.clone(), listing: Ok(vec![path]) }
        })
        .collect();
    let jobs = convert_files(&listed, "/work", "/tmp/out", &Ok(())).unwrap();
    assert_eq!(jobs.len(), 5);
    let mut outcomes = Vec::new();
    for (index, job) in jobs.iter().enumerate() {
        let data: Vec<u8> = (0..10u8).map(|byte| byte + index as u8).collect();
        let file = converter.convert_file(&job.input_path, "/tmp/out", &data).unwrap();
        assert_eq!(file.path, job.output_path);
        assert_eq!(file.path, format!("/tmp/out/{}.wav", names[index]));
        let (spec, samples) = read_back(&file.bytes);
        assert_eq!(spec.channels, 1);
        assert_eq!(samples.len(), 5);
        outcomes.push(Ok(()));
    }
    let summary = converter.process_files(outcomes, "/tmp/out", 1_000, 12_345_678).unwrap();
    assert_eq!(summary.files_converted, 5);
    assert_eq!(summary.duration_ms, 12);
    assert_eq!(summary.output_dir, "/tmp/out");
}

#[test]
fn a_batch_without_files_converts_none() {
    let summary = Converter::default().process_files(Vec::new(), "out", 0, 0).unwrap();
    assert_eq!(summary.files_converted, 0);
    assert_eq!(summary.duration_ms, 0);
    assert_eq!(summary.output_dir, "out");
}

#[test]
fn the_failure_that_comes_first_among_the_inputs_fails_the_batch() {
    let outcomes = vec![
        Ok(()),
        Err(ConverterError::IoError("second".to_string())),
        Ok(()),
        Err(ConverterError::WavError("fourth".to_string())),
    ];
    match Converter::default().process_files(outcomes, "out", 0, 5_000_000) {
        Err(ConverterError::IoError(text)) => assert_eq!(text, "second"),
        other => panic!("unexpected {:?}", other),
    }
}

#[test]
fn a_single_failure_at_the_end_fails_the_batch() {
    let outcomes =
        vec![Ok(()), Ok(()), Err(ConverterError::InvalidData("Invalid input filename".to_string()))];
    match Converter::default().process_files(outcomes, "out", 0, 5_000_000) {
        Err(ConverterError::InvalidData(text)) => assert_eq!(text, "Invalid input filename"),
        other => panic!("unexpected {:?}", other),
    }
}

#[test]
fn nine_bytes_give_four_signed_samples_and_drop_the_last_byte() {
    let data = [0x01, 0x00, 0xFF, 0xFF, 0x00, 0x80, 0xFF, 0x7F, 0x34];
    let file = Converter::default().convert_file("/in/a.vr8", "/out", &data).unwrap();
    assert_eq!(file.path, "/out/a.wav");
    assert_eq!(&file.bytes[40..44], &[8, 0, 0, 0]);
    assert_eq!(&file.bytes[44..], &data[..8]);
    assert_eq!(read_back(&file.bytes).1, vec![1, -1, -32768, 32767]);
}

#[test]
fn every_short_input_converts() {
    let converter = Converter::default();
    for len in 0..=64usize {
        let data: Vec<u8> = (0..len).map(|i| (i * 31 + 5) as u8).collect();
        let file = converter.convert_file("/in/a.vr8", "/out", &data).unwrap();
        assert_eq!(file.bytes.len(), 44 + 2 * (len / 2));
        assert_eq!(read_back(&file.bytes).1.len(), len / 2);
    }
}

#[test]
fn an_odd_input_gives_the_file_of_the_input_without_its_last_byte() {
    let converter = Converter::default();
    let data: Vec<u8> = (0..1001u32).map(|i| (i % 241) as u8).collect();
    let odd = converter.convert_file("/in/a.vr8", "/out", &data).unwrap();
    let even = converter.convert_file("/in/a.vr8", "/out", &data[..1000]).unwrap();
    assert_eq!(odd.bytes, even.bytes);
    assert_eq!(read_back(&odd.bytes).1.len(), 500);
}

#[test]
fn the_summary_carries_the_time_between_the_clock_readings() {
    let outcomes = vec![Ok(()), Ok(())];
    let summary =
        Converter::default().process_files(outcomes, "out", 2_000_000, 9_999_999).unwrap();
    assert_eq!(summary.files_converted, 2);
    assert_eq!(summary.duration_ms, 7);
}
