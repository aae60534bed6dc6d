use vr8_core::ConverterError;

#[test]
fn io_error_message_names_its_kind() {
    let error = ConverterError::IoError("disk full".to_string());
    assert_eq!(error.message(), "IO error: disk full");
}

#[test]
fn wav_error_message_names_its_kind() {
    let error = ConverterError::WavError("bad header".to_string());
    assert_eq!(error.message(), "WAV error: bad header");
}

#[test]
fn invalid_data_message_names_its_kind() {
    let error = ConverterError::InvalidData("Invalid input filename".to_string());
    assert_eq!(error.message(), "Invalid data: Invalid input filename");
}

#[test]
fn detail_is_the_text_without_the_kind() {
    assert_eq!(ConverterError::IoError("a".to_string()).into_detail(), "a");
    assert_eq!(ConverterError::WavError("b".to_string()).into_detail(), "b");
    assert_eq!(ConverterError::InvalidData("c".to_string()).into_detail(), "c");
}

#[test]
fn encoder_errors_carry_their_own_text() {
    let error = ConverterError::from_wav(hound::Error::TooWide);
    assert_eq!(
        error.message(),
        "WAV error: The sample has more bits than the destination type."
    );
    let error = ConverterError::from_wav(hound::Error::FormatError("no data chunk"));
    assert_eq!(error.message(), "WAV error: Ill-formed WAVE file: no data chunk");
}

#[test]
fn an_encoder_text_becomes_the_detail_of_a_wav_error() {
    match ConverterError::from_wav_text("short write".to_string()) {
        ConverterError::WavError(text) => assert_eq!(text, "short write"),
        other => panic!("unexpected {:?}", other),
    }
    let error = ConverterError::from_wav_text("The wave format of the file is not supported.".to_string());
    assert_eq!(error.message(), "WAV error: The wave format of the file is not supported.");
}

#[test]
fn every_kind_of_encoder_error_keeps_its_text() {
    let causes = vec![
        hound::Error::TooWide,
        hound::Error::UnfinishedSample,
        hound::Error::Unsupported,
        hound::Error::InvalidSampleFormat,
        hound::Error::FormatError("no RIFF tag found"),
    ];
    for cause in causes {
        let expected = format!("WAV error: {}", cause);
        assert_eq!(ConverterError::from_wav(cause).message(), expected);
    }
}
