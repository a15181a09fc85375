use nederlandskie::algos::{Algos, AlgosBuilder};
use nederlandskie::config::{checked_did, generator_did};
use nederlandskie::feed::{feed_uri, feed_uris};
use nederlandskie::framing::{
    check_blocks, check_v2, find_header_end, read_cid_frame, read_le_u64, read_varint, CidFrame,
    Varint,
};
use nederlandskie::statements::{
    create_cursor_statement, delete_post_statement, ensure_profile_statement,
    fetch_cursor_statement, insert_post_statement, update_cursor_statement,
};
use nederlandskie::text::{decimal_of, first_segment_of, same_text};

fn registry() -> Algos<u32> {
    AlgosBuilder::new().add("nederlandskie", 1).add("tweede", 2).add("derde", 3).build()
}

#[test]
fn registry_keeps_the_order_of_registration() {
    let algos = registry();
    assert_eq!(algos.len(), 3);
    assert_eq!(algos.iter_names(), vec!["nederlandskie", "tweede", "derde"]);
    assert_eq!(algos.iter_all(), vec![&1, &2, &3]);
    assert_eq!(algos.get(0), Some(&1));
    assert_eq!(algos.get(2), Some(&3));
    assert_eq!(algos.get(3), None);
}

#[test]
fn registry_finds_algorithms_by_name() {
    let algos = registry();
    assert_eq!(algos.get_by_name("tweede"), Some(&2));
    assert_eq!(algos.get_by_name("derde"), Some(&3));
    assert_eq!(algos.get_by_name("vierde"), None);
    assert_eq!(algos.get_by_name(""), None);
}

#[test]
fn registering_a_name_again_replaces_the_algorithm_in_place() {
    let algos = AlgosBuilder::new().add("a", 1).add("b", 2).add("a", 9).build();
    assert_eq!(algos.len(), 2);
    assert_eq!(algos.iter_names(), vec!["a", "b"]);
    assert_eq!(algos.iter_all(), vec![&9, &2]);
    assert_eq!(algos.get_by_name("a"), Some(&9));
}

#[test]
fn empty_registry_holds_nothing() {
    let algos: Algos<u32> = AlgosBuilder::new().build();
    assert_eq!(algos.len(), 0);
    assert!(algos.iter_names().is_empty());
    assert!(algos.iter_all().is_empty());
    assert_eq!(algos.get_by_name("a"), None);
}

#[test]
fn feed_addresses_name_publisher_and_algorithm() {
    assert_eq!(
        feed_uri("did:plc:pub", "nederlandskie"),
        "at://did:plc:pub/app.bsky.feed.generator/nederlandskie"
    );
    let names = vec![String::from("a"), String::from("b")];
    assert_eq!(
        feed_uris("did:web:example.com", &names),
        vec![
            "at://did:web:example.com/app.bsky.feed.generator/a",
            "at://did:web:example.com/app.bsky.feed.generator/b",
        ]
    );
    assert!(feed_uris("did:plc:pub", &Vec::new()).is_empty());
}

#[test]
fn first_segment_ends_at_the_first_slash() {
    assert_eq!(first_segment_of("app.bsky.feed.post/3k2a"), "app.bsky.feed.post");
    assert_eq!(first_segment_of("a/b/c"), "a");
    assert_eq!(first_segment_of("abc"), "abc");
    assert_eq!(first_segment_of(""), "");
    assert_eq!(first_segment_of("/x"), "");
    assert_eq!(first_segment_of("пост/1"), "пост");
}

#[test]
fn texts_are_compared_by_their_characters() {
    assert!(same_text("create", "create"));
    assert!(!same_text("create", "Create"));
    assert!(!same_text("create", "creat"));
    assert!(same_text("", ""));
}

#[test]
fn numbers_are_written_in_decimal() {
    assert_eq!(decimal_of(0), "0");
    assert_eq!(decimal_of(7), "7");
    assert_eq!(decimal_of(10), "10");
    assert_eq!(decimal_of(40), "40");
    assert_eq!(decimal_of(-1), "-1");
    assert_eq!(decimal_of(9007199254740993), "9007199254740993");
    assert_eq!(decimal_of(i64::MAX), "9223372036854775807");
    assert_eq!(decimal_of(i64::MIN), "-9223372036854775808");
}

#[test]
fn length_prefixes_are_read_low_bits_first() {
    assert_eq!(read_varint(&[0x00], 0), Varint::Value { value: 0, len: 1 });
    assert_eq!(read_varint(&[0x7f], 0), Varint::Value { value: 127, len: 1 });
    assert_eq!(read_varint(&[0x80, 0x01], 0), Varint::Value { value: 128, len: 2 });
    assert_eq!(read_varint(&[0xff, 0xac, 0x02], 1), Varint::Value { value: 300, len: 2 });
    assert_eq!(read_varint(&[0x80], 0), Varint::Truncated);
    assert_eq!(read_varint(&[], 0), Varint::Truncated);
    assert_eq!(read_varint(&[0x80; 10], 0), Varint::Overlong);
    let mut top = vec![0xff; 9];
    top.push(0x01);
    assert_eq!(read_varint(&top, 0), Varint::Value { value: u64::MAX, len: 10 });
    top[9] = 0x7f;
    assert_eq!(read_varint(&top, 0), Varint::Value { value: u64::MAX, len: 10 });
}

#[test]
fn identifiers_are_framed_by_version_and_digest() {
    let mut v1 = vec![0x01, 0x71, 0x12, 0x20];
    v1.extend_from_slice(&[7u8; 32]);
    assert_eq!(read_cid_frame(&v1, 0), CidFrame::Length(36));
    let mut v0 = vec![0x12, 0x20];
    v0.extend_from_slice(&[7u8; 32]);
    assert_eq!(read_cid_frame(&v0, 0), CidFrame::Length(34));
    assert_eq!(read_cid_frame(&v0[..20], 0), CidFrame::Refused);
    assert_eq!(read_cid_frame(&[0x00, 0x70, 0x12, 0x00], 0), CidFrame::Refused);
    assert_eq!(read_cid_frame(&[0x02, 0x71, 0x12, 0x00], 0), CidFrame::Fatal);
    assert_eq!(read_cid_frame(&[0x01, 0x71, 0x12, 0x41], 0), CidFrame::Fatal);
    assert_eq!(read_cid_frame(&[0x01, 0x71, 0x12, 0x40], 0), CidFrame::Refused);
    assert_eq!(read_cid_frame(&[0x01], 0), CidFrame::Refused);
    assert_eq!(read_cid_frame(&[0x01], 5), CidFrame::Refused);
    assert_eq!(read_varint(&[0x01], 5), Varint::Truncated);
    assert_eq!(find_header_end(&[0x00], 5), None);
    assert!(check_blocks(&[0x01], 5, None));
    assert!(check_v2(&[0x01], 5));
}

#[test]
fn statements_are_written_for_postgres() {
    assert_eq!(
        insert_post_statement(),
        "INSERT INTO Post (author_did, cid, uri) VALUES ($1, $2, $3) ON CONFLICT DO NOTHING"
    );
    assert_eq!(
        ensure_profile_statement(),
        "INSERT INTO Profile (did) VALUES ($1) ON CONFLICT DO NOTHING"
    );
    assert_eq!(delete_post_statement(), "DELETE FROM Post WHERE uri = $1");
    assert_eq!(
        fetch_cursor_statement(),
        "SELECT cursor FROM SubscriptionState WHERE service = $1 AND host = $2"
    );
    assert_eq!(
        create_cursor_statement(),
        "INSERT INTO SubscriptionState (service, cursor, host) VALUES ($1, $2, $3)"
    );
    assert_eq!(
        update_cursor_statement(),
        "UPDATE SubscriptionState SET cursor = $1 WHERE service = $2 AND host = $3"
    );
}

#[test]
fn identifiers_of_the_configuration_are_checked() {
    assert_eq!(generator_did("feed.example.com"), Some(String::from("did:web:feed.example.com")));
    assert_eq!(generator_did("not a hostname"), None);
    assert_eq!(generator_did(""), None);
    assert_eq!(checked_did("did:plc:abc"), Some(String::from("did:plc:abc")));
    assert_eq!(checked_did("plc:abc"), None);
    assert_eq!(checked_did(""), None);
}

#[test]
fn eight_bytes_are_read_low_byte_first() {
    let bytes = [0xaa, 0x33, 0, 0, 0, 0, 0, 0, 0, 0xff];
    assert_eq!(read_le_u64(&bytes, 1), Some(51));
    assert_eq!(
        read_le_u64(&[0x08, 0x07, 0x06, 0x05, 0x04, 0x03, 0x02, 0x01], 0),
        Some(0x0102030405060708)
    );
    assert_eq!(read_le_u64(&[0xff; 8], 0), Some(u64::MAX));
    assert_eq!(read_le_u64(&bytes, 3), None);
    assert_eq!(read_le_u64(&bytes, 11), None);
}

#[test]
fn header_sections_end_after_their_length() {
    assert_eq!(find_header_end(&[0x02, 0xa0, 0xa0, 0x00], 0), Some(3));
    assert_eq!(find_header_end(&[0x00], 0), Some(1));
    assert_eq!(find_header_end(&[0x07, 0x02, 0xa0, 0xa0], 1), Some(4));
    assert_eq!(find_header_end(&[0x03, 0xa0, 0xa0], 0), None);
    assert_eq!(find_header_end(&[], 0), None);
    assert_eq!(find_header_end(&[0x80], 0), None);
    assert_eq!(find_header_end(&[0x81, 0x80, 0x40], 0), None);
}

fn block(section: u8, cid: &[u8], data: &[u8]) -> Vec<u8> {
    let mut out = vec![section];
    out.extend_from_slice(cid);
    out.extend_from_slice(data);
    out
}

fn cid_v1() -> Vec<u8> {
    let mut cid = vec![0x01, 0x71, 0x12, 0x20];
    cid.extend_from_slice(&[7u8; 32]);
    cid
}

#[test]
fn blocks_are_walked_until_the_input_ends() {
    let mut two = block(38, &cid_v1(), &[1, 2]);
    two.extend_from_slice(&block(36, &cid_v1(), &[]));
    assert!(check_blocks(&two, 0, None));
    assert!(check_blocks(&[], 0, None));
    assert!(check_blocks(&[0x00], 0, None));
    assert!(check_blocks(&[0x80], 0, None));
    let mut short = block(35, &cid_v1(), &[]);
    assert!(!check_blocks(&short, 0, None));
    short[0] = 40;
    assert!(!check_blocks(&short, 0, None));
    let mut fatal = two.clone();
    fatal[39] = 0x03;
    assert!(!check_blocks(&fatal, 0, None));
    assert!(check_blocks(&fatal, 0, Some(39)));
    assert!(check_blocks(&fatal, 0, Some(0)));
    assert!(!check_blocks(&fatal, 0, Some(40)));
    assert!(check_blocks(&fatal, 76, None));
}

#[test]
fn version_two_headers_are_held_to_their_offsets() {
    let header = |offset: u64, size: u64| {
        let mut out = vec![0u8; 16];
        out.extend_from_slice(&offset.to_le_bytes());
        out.extend_from_slice(&size.to_le_bytes());
        out.extend_from_slice(&[0u8; 8]);
        out
    };
    let mut payload = vec![0x01, 0xa0];
    payload.extend_from_slice(&block(36, &cid_v1(), &[]));
    let with = |offset: u64, size: u64, padding: usize| {
        let mut out = header(offset, size);
        out.extend_from_slice(&vec![0u8; padding]);
        out.extend_from_slice(&payload);
        out
    };
    assert!(check_v2(&with(51, 39, 0), 0));
    assert!(check_v2(&with(55, 39, 4), 0));
    assert!(check_v2(&with(51, 2, 0), 0));
    assert!(!check_v2(&with(50, 39, 0), 0));
    assert!(!check_v2(&with(51, 1, 0), 0));
    assert!(!check_v2(&with(51, 1 << 32, 0), 0));
    assert!(!check_v2(&with(1 << 32, 39, 0), 0));
    assert!(!check_v2(&with(5000, 39, 0), 0));
    assert!(check_v2(&header(51, 39)[..39], 0));
    assert!(check_v2(&[], 0));
}
