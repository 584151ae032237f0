use sound_bored::text::decimal_text;
use sound_bored::{Error, SBResult};

#[test]
fn numbers_are_written_in_decimal() {
    assert_eq!(decimal_text(0), "0");
    assert_eq!(decimal_text(7), "7");
    assert_eq!(decimal_text(9), "9");
    assert_eq!(decimal_text(10), "10");
    assert_eq!(decimal_text(99), "99");
    assert_eq!(decimal_text(100), "100");
    assert_eq!(decimal_text(44100), "44100");
    assert_eq!(decimal_text(1234567890), "1234567890");
    assert_eq!(decimal_text(u32::MAX), "4294967295");
    for number in (0..100_000).step_by(37) {
        assert_eq!(decimal_text(number), number.to_string());
    }
}

#[test]
fn no_samples_are_told_in_fixed_words() {
    assert_eq!(Error::NoSamples.message("/home"), "No samples were input");
    assert_eq!(Error::NoSamples.message(""), "No samples were input");
}

#[test]
fn a_missing_directory_is_told_with_the_current_directory() {
    let error = Error::DirectoryNotFound("does/not/exist".to_string());
    assert_eq!(
        error.message("/home/user"),
        "Directory not found: does/not/exist\nCurrent Directory: /home/user"
    );
}

#[test]
fn a_missing_file_is_told_with_its_name_and_directory() {
    let error = Error::FileNotFound("samples".to_string(), "the".to_string());
    assert_eq!(
        error.message("/home/user"),
        "Could not find mp3 or wav file named the in directory samples"
    );
}

#[test]
fn a_channel_mismatch_is_told_with_both_counts() {
    assert_eq!(
        Error::ChannelCoversionError(2, 1).message("."),
        "Failed converting channel data from 2 channels to 1 channels"
    );
    assert_eq!(
        Error::ChannelCoversionError(4294967295, 10).message("."),
        "Failed converting channel data from 4294967295 channels to 10 channels"
    );
}

#[test]
fn a_decoder_s_error_is_told_in_its_own_words() {
    let error = Error::CreakErr(creak::DecoderError::NoExtension);
    assert_eq!(error.message("."), "Decoding Error: file has no extension");

    let error = Error::from(creak::DecoderError::UnsupportedExtension("xyz".to_string()));
    assert_eq!(
        error.message("."),
        "Decoding Error: extension 'xyz' is not supported"
    );
}

#[test]
fn an_encoder_s_error_is_told_in_its_own_words() {
    let error = Error::HoundErr(hound::Error::Unsupported);
    assert_eq!(
        error.message("."),
        "Encoding Error: The wave format of the file is not supported."
    );

    let error = Error::from(hound::Error::TooWide);
    assert_eq!(
        error.message("."),
        "Encoding Error: The sample has more bits than the destination type."
    );
}

#[test]
fn codec_errors_become_errors_of_their_own_kind() {
    match Error::from(hound::Error::UnfinishedSample) {
        Error::HoundErr(hound::Error::UnfinishedSample) => (),
        _ => panic!("Expected the encoder's error"),
    }
    match Error::from(creak::DecoderError::IncompleteData) {
        Error::CreakErr(creak::DecoderError::IncompleteData) => (),
        _ => panic!("Expected the decoder's error"),
    }
}

#[test]
fn a_result_without_a_value_is_the_default() {
    let done: SBResult = Ok(());
    assert!(done.is_ok());
    let failed: SBResult<u32> = Err(Error::NoSamples);
    assert!(failed.is_err());
}
