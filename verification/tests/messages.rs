use dub_oxide::error::{decimal_string, Error};

#[test]
fn numbers_are_written_in_decimal() {
    assert_eq!(decimal_string(0), "0");
    assert_eq!(decimal_string(7), "7");
    assert_eq!(decimal_string(10), "10");
    assert_eq!(decimal_string(1234567890), "1234567890");
    assert_eq!(decimal_string(usize::MAX), usize::MAX.to_string());
}

#[test]
fn errors_say_what_went_wrong() {
    assert_eq!(
        Error::inconsistent_byte_length(3, 40).message(),
        "Inconsistent byte length - samples total byte length: 3 - original input byte length: 40"
    );
    assert_eq!(
        Error::incompatible_options("duration_chunk_criteria", "memsize_chunk_criteria").message(),
        "Incompatible options encountered: duration_chunk_criteria, memsize_chunk_criteria."
    );
    assert_eq!(Error::missing_builder_field("codec").message(), "Missing builder field: codec");
    assert_eq!(Error::Hound(String::from("no RIFF tag found")).message(), "no RIFF tag found");
}
