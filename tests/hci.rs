use mitch_cli::hci::{connection_entries, lecup_args, same_mac, select_handle, split_lines, split_words};

fn s(x: &str) -> String {
    x.to_string()
}

const LISTING: &str = "Connections:\n\t< LE C4:7C:8D:6A:3E:01 handle 64 state 1 lm CENTRAL \n\t< LE aa:bb:cc:dd:ee:ff handle 65 state 1 lm CENTRAL\r\n\tshort line\n";

#[test]
fn lecup_arguments() {
    assert_eq!(lecup_args(&s("64")), vec![s("lecup"), s("64"), s("40"), s("56"), s("0"), s("200")]);
}

#[test]
fn words_and_lines() {
    assert_eq!(split_words("  a\tbc  d \r"), vec![s("a"), s("bc"), s("d")]);
    assert_eq!(split_words(""), Vec::<String>::new());
    assert_eq!(split_lines("x\ny\n"), vec![s("x"), s("y"), s("")]);
    assert_eq!(split_lines(""), vec![s("")]);
}

#[test]
fn listing_entries() {
    assert_eq!(
        connection_entries(LISTING),
        vec![(s("C4:7C:8D:6A:3E:01"), s("64")), (s("aa:bb:cc:dd:ee:ff"), s("65"))]
    );
}

#[test]
fn heading_line_is_skipped() {
    assert!(connection_entries("< LE C4:7C:8D:6A:3E:01 handle 64 state").is_empty());
}

#[test]
fn handle_of_matching_address() {
    let entries = connection_entries(LISTING);
    let parsed = vec![Some([0xC4, 0x7C, 0x8D, 0x6A, 0x3E, 0x01]), Some([0xAA, 0xBB, 0xCC, 0xDD, 0xEE, 0xFF])];
    assert_eq!(select_handle(&entries, &parsed, &[0xAA, 0xBB, 0xCC, 0xDD, 0xEE, 0xFF]), Some(s("65")));
    assert_eq!(select_handle(&entries, &parsed, &[0, 0, 0, 0, 0, 0]), None);
    let unparsed = vec![None, Some([0xAA, 0xBB, 0xCC, 0xDD, 0xEE, 0xFF])];
    assert_eq!(select_handle(&entries, &unparsed, &[0xC4, 0x7C, 0x8D, 0x6A, 0x3E, 0x01]), None);
}

#[test]
fn mac_comparison() {
    assert!(same_mac(&[1, 2, 3, 4, 5, 6], &[1, 2, 3, 4, 5, 6]));
    assert!(!same_mac(&[1, 2, 3, 4, 5, 6], &[1, 2, 3, 4, 5, 7]));
}
