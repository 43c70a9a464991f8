use iceberg_manager::location::{
    data_dir, decimal_string, file_location, file_name, padded_string, FileFormat,
};

#[test]
fn decimal_string_writes_the_number() {
    assert_eq!(decimal_string(0), "0");
    assert_eq!(decimal_string(7), "7");
    assert_eq!(decimal_string(10), "10");
    assert_eq!(decimal_string(1234567890), "1234567890");
    assert_eq!(decimal_string(u64::MAX), "18446744073709551615");
}

#[test]
fn counts_are_padded_to_five_digits() {
    assert_eq!(padded_string(0), "00000");
    assert_eq!(padded_string(42), "00042");
    assert_eq!(padded_string(99999), "99999");
    assert_eq!(padded_string(100000), "100000");
}

#[test]
fn file_name_has_prefix_count_suffix_and_format() {
    assert_eq!(file_name("", 0, None, FileFormat::Parquet), "-00000.parquet");
    assert_eq!(file_name("part", 12, None, FileFormat::Parquet), "part-00012.parquet");
    assert_eq!(file_name("part", 1, Some("x"), FileFormat::Avro), "part-00001-x.avro");
    assert_eq!(file_name("w", 123456, Some(""), FileFormat::Orc), "w-123456-.orc");
}

#[test]
fn format_tags_are_lower_case_names() {
    assert_eq!(FileFormat::Avro.tag(), "avro");
    assert_eq!(FileFormat::Orc.tag(), "orc");
    assert_eq!(FileFormat::Parquet.tag(), "parquet");
}

#[test]
fn data_files_live_in_the_data_directory() {
    assert_eq!(data_dir("s3://warehouse/ns1/t"), "s3://warehouse/ns1/t/data");
    assert_eq!(file_location("/table/data", "part-00000.parquet"), "/table/data/part-00000.parquet");
    assert_eq!(
        file_location(
            &data_dir("s3://warehouse/ns1/t"),
            &file_name("w1", 3, None, FileFormat::Parquet)
        ),
        "s3://warehouse/ns1/t/data/w1-00003.parquet"
    );
}

#[test]
fn different_counts_give_different_names() {
    let mut names: Vec<String> = Vec::new();
    for count in [0u64, 1, 9, 10, 11, 99, 100, 99999, 100000, 100001] {
        let name = file_name("w", count, None, FileFormat::Parquet);
        assert!(!names.contains(&name));
        names.push(name);
    }
}
