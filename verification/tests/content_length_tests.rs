use rench::content_length::ContentLength;

#[test]
fn formats_plain_bytes() {
    assert_eq!(ContentLength::new(500).human_readable(), "500 B");
}

#[test]
fn formats_kilobytes_with_two_decimals() {
    assert_eq!(ContentLength::new(500000).human_readable(), "488.28 KB");
}

#[test]
fn formats_megabytes_with_two_decimals() {
    assert_eq!(ContentLength::new(500000000).human_readable(), "476.84 MB");
}

#[test]
fn formats_gigabytes_with_two_decimals() {
    assert_eq!(
        ContentLength::new(500000000000).human_readable(),
        "465.66 GB"
    );
}

#[test]
fn keeps_the_kilobyte_threshold_strict() {
    assert_eq!(ContentLength::new(1024).human_readable(), "1024 B");
    assert_eq!(ContentLength::new(1025).human_readable(), "1.00 KB");
}

#[test]
fn adds_byte_counts() {
    let total = ContentLength::new(2).add(&ContentLength::new(3));
    assert_eq!(total.bytes(), 5);
    assert_eq!(total.add(&ContentLength::zero()).bytes(), 5);
    let swapped = ContentLength::new(3).add(&ContentLength::new(2));
    assert_eq!(total.bytes(), swapped.bytes());
}
