use candy_machine::bitmask::set_slot_bit;
use candy_machine::layout::{
    compute_required_size, COUNT_START, HEADER_SIZE, LINES_START, LINE_WIDTH, NAME_WIDTH, URI_WIDTH,
};
use candy_machine::slots::{get_config_count, write_slots};
use candy_machine::state::{CandyError, ConfigLine};

fn line(name: &str, uri: &str) -> ConfigLine {
    ConfigLine { name: name.as_bytes().to_vec(), uri: uri.as_bytes().to_vec() }
}

fn table(n: u32) -> Vec<u8> {
    vec![0u8; compute_required_size(n, true).unwrap()]
}

fn bitmask_start(n: u32) -> usize {
    LINES_START + n as usize * LINE_WIDTH
}

fn stored_line(buf: &[u8], slot: usize) -> (&[u8], &[u8]) {
    let off = LINES_START + slot * LINE_WIDTH;
    (&buf[off..off + NAME_WIDTH], &buf[off + NAME_WIDTH..off + LINE_WIDTH])
}

fn trim_zeros(s: &[u8]) -> &[u8] {
    let mut end = s.len();
    while end > 0 && s[end - 1] == 0 {
        end -= 1;
    }
    &s[..end]
}

fn bits_set(buf: &[u8], n: u32) -> u32 {
    buf[bitmask_start(n)..].iter().map(|b| b.count_ones()).sum()
}

#[test]
fn required_size_exact_values() {
    assert_eq!(HEADER_SIZE, 955);
    assert_eq!(COUNT_START, 955);
    assert_eq!(LINES_START, 959);
    assert_eq!(compute_required_size(0, true), Ok(969));
    assert_eq!(compute_required_size(1, true), Ok(1201));
    assert_eq!(compute_required_size(8, true), Ok(2827));
    assert_eq!(compute_required_size(9, true), Ok(3059));
    assert_eq!(compute_required_size(1000, true), Ok(233219));
    assert_eq!(compute_required_size(1000, false), Ok(HEADER_SIZE));
    assert_eq!(compute_required_size(0, false), Ok(955));
}

#[test]
fn required_size_holds_every_slot() {
    for n in [0u32, 1, 8, 9, 1000] {
        let mut buf = table(n);
        let records: Vec<ConfigLine> =
            (0..n).map(|i| line(&format!("n{}", i), &format!("u{}", i))).collect();
        assert_eq!(write_slots(&mut buf, n, 0, &records), Ok(()));
        assert_eq!(get_config_count(&buf), n);
        assert_eq!(bits_set(&buf, n), n);
        assert_eq!(buf.len(), compute_required_size(n, true).unwrap());
        if n > 0 {
            let (name, uri) = stored_line(&buf, n as usize - 1);
            assert_eq!(trim_zeros(name), format!("n{}", n - 1).as_bytes());
            assert_eq!(trim_zeros(uri), format!("u{}", n - 1).as_bytes());
        }
    }
}

#[test]
fn writing_twice_is_idempotent() {
    let n = 20;
    let mut buf = table(n);
    let records = vec![line("a", "ipfs://a"), line("b", "ipfs://b"), line("c", "ipfs://c")];
    assert_eq!(write_slots(&mut buf, n, 5, &records), Ok(()));
    let first = buf.clone();
    assert_eq!(get_config_count(&buf), 3);
    assert_eq!(write_slots(&mut buf, n, 5, &records), Ok(()));
    assert_eq!(buf, first);
    assert_eq!(get_config_count(&buf), 3);
}

#[test]
fn count_follows_bitmask_over_calls() {
    let n = 17;
    let mut buf = table(n);
    assert_eq!(write_slots(&mut buf, n, 0, &vec![line("x", "y"); 4]), Ok(()));
    assert_eq!(get_config_count(&buf), 4);
    assert_eq!(write_slots(&mut buf, n, 2, &vec![line("p", "q"); 6]), Ok(()));
    assert_eq!(get_config_count(&buf), 8);
    assert_eq!(write_slots(&mut buf, n, 16, &vec![line("z", "w")]), Ok(()));
    assert_eq!(get_config_count(&buf), 9);
    assert_eq!(bits_set(&buf, n), 9);
    // an overwritten slot holds its latest line
    let (name, _) = stored_line(&buf, 3);
    assert_eq!(trim_zeros(name), b"p");
}

#[test]
fn padded_fields_round_trip() {
    let n = 2;
    let mut buf = table(n);
    let name = "Padded Name";
    let uri = "https://example.com/a.json";
    assert_eq!(write_slots(&mut buf, n, 1, &vec![line(name, uri)]), Ok(()));
    let (stored_name, stored_uri) = stored_line(&buf, 1);
    assert_eq!(stored_name.len(), NAME_WIDTH);
    assert_eq!(stored_uri.len(), URI_WIDTH);
    assert_eq!(&stored_name[..name.len()], name.as_bytes());
    assert!(stored_name[name.len()..].iter().all(|b| *b == 0));
    assert!(stored_uri[uri.len()..].iter().all(|b| *b == 0));
    assert_eq!(trim_zeros(stored_name), name.as_bytes());
    assert_eq!(trim_zeros(stored_uri), uri.as_bytes());
    let (empty_name, _) = stored_line(&buf, 0);
    assert!(empty_name.iter().all(|b| *b == 0));
}

#[test]
fn full_width_fields_fit() {
    let n = 1;
    let mut buf = table(n);
    let name = "n".repeat(NAME_WIDTH);
    let uri = "u".repeat(URI_WIDTH);
    assert_eq!(write_slots(&mut buf, n, 0, &vec![line(&name, &uri)]), Ok(()));
    let (stored_name, stored_uri) = stored_line(&buf, 0);
    assert_eq!(stored_name, name.as_bytes());
    assert_eq!(stored_uri, uri.as_bytes());
}

#[test]
fn slot_bits_are_most_significant_first() {
    let n = 16;
    let bm = bitmask_start(n);
    let mut buf = table(n);
    assert_eq!(write_slots(&mut buf, n, 0, &vec![line("a", "b")]), Ok(()));
    assert_eq!(buf[bm], 0b1000_0000);
    let mut buf = table(n);
    assert_eq!(write_slots(&mut buf, n, 8, &vec![line("a", "b")]), Ok(()));
    assert_eq!(buf[bm], 0);
    assert_eq!(buf[bm + 1], 0b1000_0000);
    let mut buf = table(n);
    assert_eq!(write_slots(&mut buf, n, 7, &vec![line("a", "b")]), Ok(()));
    assert_eq!(buf[bm], 0b0000_0001);
}

#[test]
fn set_slot_bit_reports_change() {
    let n = 9;
    let mut buf = table(n);
    assert!(set_slot_bit(&mut buf, n, 8));
    assert!(!set_slot_bit(&mut buf, n, 8));
    assert_eq!(buf[bitmask_start(n) + 1], 0b1000_0000);
}

#[test]
fn out_of_range_slots_are_rejected() {
    let n = 3;
    let mut buf = table(n);
    let before = buf.clone();
    assert_eq!(
        write_slots(&mut buf, n, 2, &vec![line("a", "b"), line("c", "d")]),
        Err(CandyError::SlotOutOfRange)
    );
    assert_eq!(write_slots(&mut buf, n, 4, &vec![]), Err(CandyError::SlotOutOfRange));
    assert_eq!(buf, before);
    assert_eq!(write_slots(&mut buf, n, 3, &vec![]), Ok(()));
    assert_eq!(get_config_count(&buf), 0);
}

#[test]
fn too_long_fields_are_rejected() {
    let n = 3;
    let mut buf = table(n);
    let before = buf.clone();
    let long_name = "n".repeat(NAME_WIDTH + 1);
    let long_uri = "u".repeat(URI_WIDTH + 1);
    assert_eq!(
        write_slots(&mut buf, n, 0, &vec![line("ok", "ok"), line(&long_name, "u")]),
        Err(CandyError::FieldTooLong)
    );
    assert_eq!(write_slots(&mut buf, n, 0, &vec![line("n", &long_uri)]), Err(CandyError::FieldTooLong));
    assert_eq!(buf, before);
    // a range error comes first
    assert_eq!(
        write_slots(&mut buf, n, 3, &vec![line(&long_name, "u")]),
        Err(CandyError::SlotOutOfRange)
    );
}
