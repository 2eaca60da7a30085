use picsort::batch::{admits_entry, walk_depth, BatchSummary};
use picsort::metadata::{date_from_fields, metadata_date};
use picsort::placement::{candidate_name, decimal_text, destination_dir, free_name, holds_name, join_path, resolve_collision};
use picsort::stamp::{earliest, resolve_date, Stamp};
use picsort::SortError;

fn stamp(year: i32, month: u32, day: u32, hour: u32, minute: u32, second: u32) -> Stamp {
    Stamp { year, month, day, hour, minute, second }
}

fn names(list: &[&str]) -> Vec<String> {
    list.iter().map(|s| s.to_string()).collect()
}

fn texts(list: &[&str]) -> Vec<Vec<u8>> {
    list.iter().map(|s| s.as_bytes().to_vec()).collect()
}

/// A little-endian TIFF whose first directory holds one `DateTime` field.
fn tiff_with_field(value: &str, field_type: u8) -> Vec<u8> {
    let mut v: Vec<u8> = vec![0x49, 0x49, 0x2a, 0x00, 0x08, 0x00, 0x00, 0x00];
    v.extend_from_slice(&[0x01, 0x00]);
    v.extend_from_slice(&[0x32, 0x01, field_type, 0x00]);
    v.extend_from_slice(&((value.len() + 1) as u32).to_le_bytes());
    v.extend_from_slice(&26u32.to_le_bytes());
    v.extend_from_slice(&[0x00, 0x00, 0x00, 0x00]);
    v.extend_from_slice(value.as_bytes());
    v.push(0);
    v
}

fn tiff_with_datetime(value: &str) -> Vec<u8> {
    tiff_with_field(value, 0x02)
}

#[test]
fn earliest_metadata_date_wins() {
    let fields = texts(&["2021:06:01 09:00:00", "2021:06:01 10:00:00"]);
    assert_eq!(date_from_fields(&fields), Some(stamp(2021, 6, 1, 9, 0, 0)));
}

#[test]
fn earliest_of_three_fields() {
    let fields = texts(&["2020:01:02 03:04:05", "2019:12:31 23:59:59", "2020:01:01 00:00:00"]);
    assert_eq!(date_from_fields(&fields), Some(stamp(2019, 12, 31, 23, 59, 59)));
}

#[test]
fn malformed_and_impossible_fields_are_skipped() {
    let fields = texts(&["2021:13:01 00:00:00", "2021-06-01 08:00:00", "2021:02:29 00:00:00", "2021:06:02 07:00:00"]);
    assert_eq!(date_from_fields(&fields), Some(stamp(2021, 6, 2, 7, 0, 0)));
    let blank = texts(&["    :  :     :  :  ", "                   ", "2021:06:01"]);
    assert_eq!(date_from_fields(&blank), None);
    assert_eq!(date_from_fields(&Vec::new()), None);
}

#[test]
fn trailing_bytes_after_timestamp_are_ignored() {
    let fields = texts(&["2000:02:29 12:30:45 extra"]);
    assert_eq!(date_from_fields(&fields), Some(stamp(2000, 2, 29, 12, 30, 45)));
}

#[test]
fn metadata_date_reads_tiff_block() {
    let data = tiff_with_datetime("2021:06:01 09:00:00");
    assert_eq!(metadata_date(data), Some(stamp(2021, 6, 1, 9, 0, 0)));
}

#[test]
fn metadata_date_without_block_is_none() {
    assert_eq!(metadata_date(Vec::new()), None);
    assert_eq!(metadata_date(b"not an image at all".to_vec()), None);
}

#[test]
fn first_scenario_lands_in_date_folder() {
    let fields = texts(&["2021:06:01 09:00:00", "2021:06:01 10:00:00"]);
    let date = resolve_date(date_from_fields(&fields), Some(stamp(2022, 1, 1, 0, 0, 0)), None).unwrap();
    assert_eq!(date, stamp(2021, 6, 1, 9, 0, 0));
    let dir = destination_dir("/out", &date, "%Y-%m-%d").unwrap();
    assert_eq!(dir, "/out/2021-06-01");
    let name = free_name("IMG_0001.jpg", &Vec::new()).unwrap();
    assert_eq!(join_path(&dir, &name), "/out/2021-06-01/IMG_0001.jpg");
}

#[test]
fn second_scenario_falls_back_to_creation_time() {
    let date = resolve_date(metadata_date(Vec::new()), Some(stamp(2021, 7, 4, 15, 0, 0)), Some(stamp(2021, 8, 1, 0, 0, 0))).unwrap();
    assert_eq!(date, stamp(2021, 7, 4, 15, 0, 0));
    let dir = destination_dir("/out", &date, "%Y-%m-%d").unwrap();
    assert_eq!(join_path(&dir, "beach.png"), "/out/2021-07-04/beach.png");
}

#[test]
fn third_scenario_is_renamed() {
    let taken = names(&["IMG_0001.jpg"]);
    let name = free_name("IMG_0001.jpg", &taken).unwrap();
    assert_eq!(name, "IMG_0001 (1).jpg");
    assert_eq!(join_path("/out/2021-06-01", &name), "/out/2021-06-01/IMG_0001 (1).jpg");
}

#[test]
fn fallback_order() {
    let c = stamp(2021, 7, 4, 0, 0, 0);
    let m = stamp(2021, 7, 5, 0, 0, 0);
    let e = stamp(2021, 7, 3, 0, 0, 0);
    assert_eq!(resolve_date(Some(e), Some(c), Some(m)), Ok(e));
    assert_eq!(resolve_date(None, Some(c), Some(m)), Ok(c));
    assert_eq!(resolve_date(None, None, Some(m)), Ok(m));
    assert_eq!(resolve_date(None, None, None), Err(SortError::NoTimestamp));
}

#[test]
fn dense_collisions_take_next_counter() {
    let taken = names(&["a.jpg", "a (1).jpg", "a (2).jpg", "other.jpg"]);
    assert_eq!(resolve_collision("a.jpg", &taken), Ok("a (3).jpg".to_string()));
}

#[test]
fn collision_takes_smallest_free_counter() {
    let taken = names(&["a.jpg", "a (2).jpg"]);
    assert_eq!(resolve_collision("a.jpg", &taken), Ok("a (1).jpg".to_string()));
}

#[test]
fn collision_name_forms() {
    assert_eq!(candidate_name("notes", 2), "notes (2)");
    assert_eq!(candidate_name(".bashrc", 1), ".bashrc (1)");
    assert_eq!(candidate_name("a.b.jpg", 12), "a.b (12).jpg");
    assert_eq!(candidate_name("trail.", 1), "trail (1)");
    assert_eq!(candidate_name("..", 1), ".. (1)");
}

#[test]
fn empty_name_cannot_be_disambiguated() {
    let taken = names(&[""]);
    assert_eq!(resolve_collision("", &taken), Err(SortError::Unresolvable));
    assert_eq!(free_name("", &taken), Err(SortError::Unresolvable));
    assert_eq!(free_name("", &Vec::new()), Ok(String::new()));
}

#[test]
fn rerun_adds_one_more_copy() {
    let mut taken = names(&["IMG_0001.jpg"]);
    let first = free_name("IMG_0001.jpg", &taken).unwrap();
    taken.push(first.clone());
    let second = free_name("IMG_0001.jpg", &taken).unwrap();
    assert_eq!(first, "IMG_0001 (1).jpg");
    assert_eq!(second, "IMG_0001 (2).jpg");
    assert!(!holds_name(&taken, &second));
}

#[test]
fn free_name_keeps_free_name() {
    let taken = names(&["b.jpg"]);
    assert_eq!(free_name("a.jpg", &taken), Ok("a.jpg".to_string()));
}

#[test]
fn path_joining() {
    assert_eq!(join_path("out", "2021"), "out/2021");
    assert_eq!(join_path("out/", "2021"), "out/2021");
    assert_eq!(join_path("", "2021"), "2021");
    assert_eq!(join_path("out", "/abs"), "/abs");
}

#[test]
fn nested_pattern_and_bad_pattern() {
    let date = stamp(2021, 6, 1, 9, 5, 7);
    assert_eq!(destination_dir("out", &date, "%Y/%m"), Ok("out/2021/06".to_string()));
    assert_eq!(destination_dir("out", &date, "%H-%M-%S"), Ok("out/09-05-07".to_string()));
    assert_eq!(destination_dir("out", &date, "%Q"), Err(SortError::BadPattern));
}

#[test]
fn calendar_validity() {
    assert!(stamp(2020, 2, 29, 0, 0, 0).is_valid());
    assert!(stamp(2000, 2, 29, 23, 59, 59).is_valid());
    assert!(!stamp(1900, 2, 29, 0, 0, 0).is_valid());
    assert!(!stamp(2021, 4, 31, 0, 0, 0).is_valid());
    assert!(!stamp(2021, 1, 1, 24, 0, 0).is_valid());
    assert!(!stamp(2021, 1, 1, 0, 0, 60).is_valid());
    assert!(!stamp(2021, 0, 1, 0, 0, 0).is_valid());
}

#[test]
fn stamp_order() {
    let a = stamp(2021, 6, 1, 9, 0, 0);
    let b = stamp(2021, 6, 1, 9, 0, 1);
    assert!(a.is_before(&b));
    assert!(!b.is_before(&a));
    assert!(!a.is_before(&a));
    assert_eq!(earliest(&vec![b, a, b]), Some(a));
    assert_eq!(earliest(&Vec::new()), None);
}

#[test]
fn entry_admission() {
    assert!(admits_entry(false, 1, true));
    assert!(!admits_entry(false, 2, true));
    assert!(admits_entry(true, 5, true));
    assert!(!admits_entry(true, 1, false));
    assert!(!admits_entry(false, 0, false));
    assert_eq!(walk_depth(false), 1);
    assert_eq!(walk_depth(true), usize::MAX);
}

#[test]
fn decimal_digits() {
    assert_eq!(decimal_text(0), "0");
    assert_eq!(decimal_text(1234), "1234");
    assert_eq!(decimal_text(u64::MAX), "18446744073709551615");
}

#[test]
fn summary_lines() {
    let mut s = BatchSummary::new();
    s.record(true);
    s.record(true);
    s.record(false);
    assert_eq!(s.succeeded, 2);
    assert_eq!(s.failed, 1);
    assert_eq!(s.headline(true), "Successfully moved 2 files");
    assert_eq!(s.headline(false), "Successfully copied 2 files");
    assert_eq!(s.tally(), "2 succeeded, 1 failed");
    let mut full = BatchSummary { succeeded: u64::MAX, failed: 0 };
    full.record(true);
    assert_eq!(full.succeeded, u64::MAX);
}

#[test]
fn non_ascii_date_field_is_ignored() {
    let data = tiff_with_field("2021:06:01 09:00:00", 0x01);
    assert_eq!(metadata_date(data), None);
}

#[test]
fn invalid_embedded_date_gives_none() {
    assert_eq!(metadata_date(tiff_with_datetime("2021:02:30 09:00:00")), None);
    assert_eq!(metadata_date(tiff_with_datetime("")), None);
}

#[test]
fn added_valid_field_never_moves_date_later() {
    let one = texts(&["2021:06:01 10:00:00"]);
    let two = texts(&["2021:06:01 10:00:00", "2021:05:31 23:00:00"]);
    let three = texts(&["2021:06:01 10:00:00", "2021:05:31 23:00:00", "2022:01:01 00:00:00"]);
    assert_eq!(date_from_fields(&one), Some(stamp(2021, 6, 1, 10, 0, 0)));
    assert_eq!(date_from_fields(&two), Some(stamp(2021, 5, 31, 23, 0, 0)));
    assert_eq!(date_from_fields(&three), Some(stamp(2021, 5, 31, 23, 0, 0)));
}
