use docker_manager::progress::{extract_pull_progress, parse_size_to_bytes, size_ratio_percent};

fn chars(s: &str) -> Vec<char> {
    s.chars().collect()
}

fn progress(line: &str) -> Option<String> {
    extract_pull_progress(line)
}

#[test]
fn ratio_of_sizes_gives_downloading_percent() {
    assert_eq!(progress("12.5MB/25MB"), Some("Downloading 50%".to_string()));
}

#[test]
fn ratio_after_label_and_keyword() {
    assert_eq!(
        progress("a1b2c3: Downloading [=====>   ]  12.5MB/25MB"),
        Some("Downloading 50%".to_string())
    );
    assert_eq!(
        progress("a1b2c3: Extracting [==>  ]  1KiB/4KiB"),
        Some("Extracting 25%".to_string())
    );
}

#[test]
fn pull_complete_is_a_phase_label() {
    assert_eq!(progress("Pull complete"), Some("Pull complete".to_string()));
    assert_eq!(progress("f00d: Pull complete"), Some("Pull complete".to_string()));
}

#[test]
fn percent_token_is_taken_verbatim() {
    assert_eq!(progress("layer: Downloading 45%"), Some("45%".to_string()));
}

#[test]
fn keywords_are_tried_in_order() {
    assert_eq!(progress("x: Waiting"), Some("Waiting".to_string()));
    assert_eq!(progress("x: Pulling fs layer"), Some("Pulling fs layer".to_string()));
    assert_eq!(progress("x: Download complete"), Some("Download complete".to_string()));
    assert_eq!(progress("x: Already exists"), Some("Already exists".to_string()));
}

#[test]
fn blank_and_unknown_lines_give_nothing() {
    assert_eq!(progress(""), None);
    assert_eq!(progress("   \t "), None);
    assert_eq!(progress("nothing to see"), None);
}

#[test]
fn zero_total_falls_back_to_keywords() {
    assert_eq!(progress("x: Downloading 0B/0B"), Some("Downloading".to_string()));
}

#[test]
fn rounding_and_clamping() {
    assert_eq!(progress("1/3"), Some("Downloading 33%".to_string()));
    assert_eq!(progress("2/3"), Some("Downloading 67%".to_string()));
    assert_eq!(progress("1/2"), Some("Downloading 50%".to_string()));
    assert_eq!(progress("1/200"), Some("Downloading 1%".to_string()));
    assert_eq!(progress("30MB/20MB"), Some("Downloading 100%".to_string()));
}

#[test]
fn size_units_decimal_and_binary() {
    let kib = parse_size_to_bytes(&chars("1KiB")).unwrap();
    assert_eq!((kib.digits.clone(), kib.scale, kib.unit), (vec![1], 0, 1024));
    let mb = parse_size_to_bytes(&chars("1MB")).unwrap();
    assert_eq!((mb.digits.clone(), mb.scale, mb.unit), (vec![1], 0, 1_000_000));
    let half = parse_size_to_bytes(&chars("12.5mb")).unwrap();
    assert_eq!((half.digits.clone(), half.scale, half.unit), (vec![5, 2, 1], 1, 1_000_000));
    let tib = parse_size_to_bytes(&chars("2TiB")).unwrap();
    assert_eq!((tib.digits.clone(), tib.scale, tib.unit), (vec![2], 0, 1_099_511_627_776));
    let plain = parse_size_to_bytes(&chars("[42b]")).unwrap();
    assert_eq!((plain.digits.clone(), plain.scale, plain.unit), (vec![2, 4], 0, 1));
}

#[test]
fn long_sizes_are_read() {
    let big = parse_size_to_bytes(&chars("1234567890123B")).unwrap();
    assert_eq!(big.digits, vec![3, 2, 1, 0, 9, 8, 7, 6, 5, 4, 3, 2, 1]);
    assert_eq!(big.unit, 1);
    let frac = parse_size_to_bytes(&chars("0.000000000000000001kb")).unwrap();
    assert_eq!(frac.scale, 18);
    assert_eq!(
        progress("x: Downloading 123456789012345678901234567890B/246913578024691357802469135780B"),
        Some("Downloading 50%".to_string())
    );
    assert_eq!(
        progress("99999999999999999999999999KB/100000000000000000000000000KB"),
        Some("Downloading 100%".to_string())
    );
}

#[test]
fn bad_sizes_are_rejected() {
    assert!(parse_size_to_bytes(&chars("")).is_none());
    assert!(parse_size_to_bytes(&chars("MB")).is_none());
    assert!(parse_size_to_bytes(&chars("1.2.3MB")).is_none());
    assert!(parse_size_to_bytes(&chars("5XB")).is_none());
    assert!(parse_size_to_bytes(&chars(".MB")).is_none());
}

#[test]
fn percent_of_sizes() {
    let done = parse_size_to_bytes(&chars("512KiB")).unwrap();
    let total = parse_size_to_bytes(&chars("1MiB")).unwrap();
    assert_eq!(size_ratio_percent(&done, &total), Some(50));
    let zero = parse_size_to_bytes(&chars("0MB")).unwrap();
    assert_eq!(size_ratio_percent(&done, &zero), None);
}
