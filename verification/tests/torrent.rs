use seedmedic::torrent::adapters::bencode::{BencodeInspector, MAX_TORRENT_BYTES};
use seedmedic::torrent::adapters::fake::{FakeInspector, ServedFile, ServedTorrent};
use seedmedic::torrent::path::MAX_COMPONENT_BYTES;
use seedmedic::torrent::{
    InfoHash, InfoHashError, InspectError, PathRejection, SafeRelativePath, TorrentFile,
    TorrentMetadata,
};
use sha1::{Digest, Sha1};

fn components(parts: &[&str]) -> Result<SafeRelativePath, PathRejection> {
    let owned: Vec<String> = parts.iter().map(|part| part.to_string()).collect();
    SafeRelativePath::from_components(&owned)
}

// --- Paths ---

#[test]
fn accepts_ordinary_nested_path() {
    let path = components(&["Season 01", "ep01.mkv"]).expect("ordinary path is accepted");
    assert_eq!(path.as_str(), "Season 01/ep01.mkv");
    assert_eq!(
        path.join_onto("/staging/job-1"),
        "/staging/job-1/Season 01/ep01.mkv"
    );
}

#[test]
fn rejects_parent_traversal() {
    assert_eq!(
        components(&["..", "etc", "passwd"]),
        Err(PathRejection::ParentTraversal)
    );
    assert_eq!(
        SafeRelativePath::parse("media/../../etc/passwd"),
        Err(PathRejection::ParentTraversal)
    );
}

#[test]
fn rejects_absolute_paths() {
    assert_eq!(
        SafeRelativePath::parse("/etc/passwd"),
        Err(PathRejection::Absolute)
    );
    assert_eq!(components(&["/etc"]), Err(PathRejection::Absolute));
}

#[test]
fn rejects_current_directory_component() {
    assert_eq!(
        SafeRelativePath::parse("./ep01.mkv"),
        Err(PathRejection::CurrentDirectory)
    );
}

#[test]
fn rejects_empty_and_empty_components() {
    assert_eq!(
        SafeRelativePath::parse(""),
        Err(PathRejection::EmptyComponent)
    );
    assert_eq!(
        SafeRelativePath::parse("season//ep.mkv"),
        Err(PathRejection::EmptyComponent)
    );
    assert_eq!(components(&[]), Err(PathRejection::Empty));
}

#[test]
fn rejects_nul_and_control_bytes() {
    assert!(matches!(
        components(&["ep\0.mkv"]),
        Err(PathRejection::ControlCharacter { .. })
    ));
    assert!(matches!(
        components(&["ep\n.mkv"]),
        Err(PathRejection::ControlCharacter { .. })
    ));
}

#[test]
fn rejects_separators_hidden_in_a_component() {
    assert!(matches!(
        components(&["season/../.."]),
        Err(PathRejection::SeparatorInComponent { .. })
    ));
    assert!(matches!(
        components(&["season\\ep.mkv"]),
        Err(PathRejection::SeparatorInComponent { .. })
    ));
}

#[test]
fn rejects_overlong_components() {
    let long = "a".repeat(MAX_COMPONENT_BYTES + 1);
    assert_eq!(
        components(&[&long]),
        Err(PathRejection::ComponentTooLong {
            len: MAX_COMPONENT_BYTES + 1
        })
    );
}

#[test]
fn prefixing_validates_the_new_component() {
    let path = SafeRelativePath::parse("ep01.mkv").expect("valid");
    assert_eq!(
        path.prefixed_with("Show S01")
            .expect("valid prefix")
            .as_str(),
        "Show S01/ep01.mkv"
    );
    assert_eq!(
        path.prefixed_with(".."),
        Err(PathRejection::ParentTraversal)
    );
}

#[test]
fn parent_components_are_outermost_first() {
    let path = SafeRelativePath::parse("a/b/c.mkv").expect("valid");
    assert_eq!(path.parent_components(), vec!["a", "b"]);
}

#[test]
fn a_component_is_measured_in_bytes() {
    // 128 characters of two bytes each: one byte over the limit of 255.
    let long = "\u{e9}".repeat(128);
    assert_eq!(
        components(&[&long]),
        Err(PathRejection::ComponentTooLong { len: 256 })
    );
    assert!(components(&[&"\u{e9}".repeat(127)]).is_ok());
}

#[test]
fn rejections_are_explained() {
    assert_eq!(
        PathRejection::ParentTraversal.message(),
        "`..` components are not allowed"
    );
    assert_eq!(
        PathRejection::SeparatorInComponent {
            component: "a/b".to_owned()
        }
        .message(),
        "component contains a path separator: \"a/b\""
    );
}

// --- Info-hashes ---

#[test]
fn info_hash_round_trips_through_hex() {
    let hex = "0123456789abcdef0123456789abcdef01234567";
    let hash = InfoHash::parse_hex(hex).expect("valid info-hash");
    assert_eq!(hash.to_hex(), hex);
}

#[test]
fn info_hash_rejects_bad_input() {
    assert_eq!(InfoHash::parse_hex("abc"), Err(InfoHashError::Length(3)));
    assert_eq!(
        InfoHash::parse_hex("zz23456789abcdef0123456789abcdef01234567"),
        Err(InfoHashError::NotHex)
    );
}

#[test]
fn total_length_sums_files() {
    let metadata = TorrentMetadata {
        info_hash: InfoHash::from_bytes([0; 20]),
        name: SafeRelativePath::parse("Show S01").expect("valid"),
        piece_length: 1 << 20,
        files: vec![
            TorrentFile {
                path: SafeRelativePath::parse("Show S01/e01.mkv").expect("valid"),
                length: 10,
            },
            TorrentFile {
                path: SafeRelativePath::parse("Show S01/e02.mkv").expect("valid"),
                length: 32,
            },
        ],
        pieces: Vec::new(),
    };
    assert_eq!(metadata.total_length(), 42);
    assert_eq!(metadata.file_count(), 2);
}

// --- Torrent files ---

fn bstr(bytes: &[u8]) -> Vec<u8> {
    let mut v = format!("{}:", bytes.len()).into_bytes();
    v.extend_from_slice(bytes);
    v
}

fn number(n: i64) -> Vec<u8> {
    format!("i{n}e").into_bytes()
}

fn dict(entries: &[(&[u8], Vec<u8>)]) -> Vec<u8> {
    let mut v = b"d".to_vec();
    for (key, value) in entries {
        v.extend(bstr(key));
        v.extend_from_slice(value);
    }
    v.push(b'e');
    v
}

fn list(items: &[Vec<u8>]) -> Vec<u8> {
    let mut v = b"l".to_vec();
    for item in items {
        v.extend_from_slice(item);
    }
    v.push(b'e');
    v
}

fn torrent_with_info(info: Vec<u8>) -> Vec<u8> {
    dict(&[
        (b"announce", bstr(b"http://tracker.example/announce")),
        (b"info", info),
    ])
}

fn file_entry(length: i64, path_components: &[&[u8]]) -> Vec<u8> {
    dict(&[
        (b"length", number(length)),
        (
            b"path",
            list(&path_components.iter().map(|c| bstr(c)).collect::<Vec<_>>()),
        ),
    ])
}

fn hash_of(info: &[u8]) -> InfoHash {
    let digest: [u8; 20] = Sha1::digest(info).into();
    InfoHash::from_bytes(digest)
}

/// The `private` key is not modelled, so hashing a re-encoding of what was read
/// would give another hash than that of the bytes themselves.
fn single_file_info() -> Vec<u8> {
    dict(&[
        (b"length", number(1_048_576)),
        (b"name", bstr(b"movie.mkv")),
        (b"piece length", number(524_288)),
        (b"pieces", bstr(&[7; 40])),
        (b"private", number(1)),
    ])
}

#[test]
fn a_single_file_torrent_is_read() {
    let info = single_file_info();
    let expected = hash_of(&info);
    let metadata = BencodeInspector
        .inspect(&torrent_with_info(info))
        .expect("valid torrent");
    assert_eq!(metadata.info_hash, expected);
    assert_eq!(metadata.name.as_str(), "movie.mkv");
    assert_eq!(metadata.piece_length, 524_288);
    assert_eq!(metadata.file_count(), 1);
    assert_eq!(metadata.total_length(), 1_048_576);
    assert_eq!(metadata.files[0].path.as_str(), "movie.mkv");
    assert_eq!(metadata.files[0].length, 1_048_576);
    // The piece hashes stay in the torrent itself.
    assert!(metadata.pieces.is_empty());
}

#[test]
fn the_info_hash_is_the_digest_of_the_bytes_themselves() {
    // SHA-1 of "d6:lengthi1e4:name1:a12:piece lengthi1ee".
    let info = dict(&[
        (b"length", number(1)),
        (b"name", bstr(b"a")),
        (b"piece length", number(1)),
    ]);
    let metadata = BencodeInspector
        .inspect(&torrent_with_info(info.clone()))
        .expect("valid torrent");
    assert_eq!(metadata.info_hash, hash_of(&info));
    assert_ne!(metadata.info_hash, hash_of(&single_file_info()));
}

#[test]
fn a_multi_file_torrent_is_read_with_prefixed_paths() {
    let info = dict(&[
        (
            b"files",
            list(&[
                file_entry(100, &[b"e01.mkv"]),
                file_entry(200, &[b"extras", b"e02.mkv"]),
            ]),
        ),
        (b"name", bstr(b"Show S01")),
        (b"piece length", number(16_384)),
        (b"private", number(1)),
    ]);
    let expected = hash_of(&info);
    let metadata = BencodeInspector
        .inspect(&torrent_with_info(info))
        .expect("valid torrent");
    assert_eq!(metadata.info_hash, expected);
    assert_eq!(metadata.name.as_str(), "Show S01");
    assert_eq!(metadata.piece_length, 16_384);
    assert_eq!(metadata.file_count(), 2);
    assert_eq!(metadata.total_length(), 300);
    assert_eq!(metadata.files[0].path.as_str(), "Show S01/e01.mkv");
    assert_eq!(metadata.files[1].path.as_str(), "Show S01/extras/e02.mkv");
    assert!(metadata.pieces.is_empty());
}

#[test]
fn rejects_parent_traversal_path() {
    let info = dict(&[
        (b"files", list(&[file_entry(1, &[b".."])])),
        (b"name", bstr(b"Show")),
        (b"piece length", number(16_384)),
    ]);
    assert!(matches!(
        BencodeInspector.inspect(&torrent_with_info(info)),
        Err(InspectError::UnsafePath(_))
    ));
}

#[test]
fn rejects_absolute_path_component() {
    let info = dict(&[
        (b"files", list(&[file_entry(1, &[b"/etc/passwd"])])),
        (b"name", bstr(b"Show")),
        (b"piece length", number(16_384)),
    ]);
    assert!(matches!(
        BencodeInspector.inspect(&torrent_with_info(info)),
        Err(InspectError::UnsafePath(_))
    ));
}

#[test]
fn rejects_nul_byte_in_path_component() {
    let info = dict(&[
        (b"files", list(&[file_entry(1, &[b"ep\0.mkv"])])),
        (b"name", bstr(b"Show")),
        (b"piece length", number(16_384)),
    ]);
    assert!(matches!(
        BencodeInspector.inspect(&torrent_with_info(info)),
        Err(InspectError::UnsafePath(_))
    ));
}

#[test]
fn rejects_non_utf8_path_component() {
    let info = dict(&[
        (b"files", list(&[file_entry(1, &[&[0xff, 0xfe]])])),
        (b"name", bstr(b"Show")),
        (b"piece length", number(16_384)),
    ]);
    assert!(matches!(
        BencodeInspector.inspect(&torrent_with_info(info)),
        Err(InspectError::Malformed(_))
    ));
}

#[test]
fn rejects_non_utf8_name() {
    let info = dict(&[
        (b"length", number(1)),
        (b"name", bstr(&[0xff, 0xfe])),
        (b"piece length", number(16_384)),
    ]);
    assert!(matches!(
        BencodeInspector.inspect(&torrent_with_info(info)),
        Err(InspectError::Malformed(_))
    ));
}

#[test]
fn rejects_missing_name() {
    let info = dict(&[(b"length", number(1)), (b"piece length", number(16_384))]);
    assert_eq!(
        BencodeInspector.inspect(&torrent_with_info(info)),
        Err(InspectError::MissingField("info.name"))
    );
}

#[test]
fn rejects_v2_only_torrent() {
    let info = dict(&[
        (b"file tree", dict(&[])),
        (b"meta version", number(2)),
        (b"name", bstr(b"Show")),
        (b"piece length", number(16_384)),
    ]);
    assert_eq!(
        BencodeInspector.inspect(&torrent_with_info(info)),
        Err(InspectError::MissingField("info.length or info.files"))
    );
}

#[test]
fn rejects_ambiguous_length_and_files() {
    let info = dict(&[
        (b"files", list(&[])),
        (b"length", number(1)),
        (b"name", bstr(b"Show")),
        (b"piece length", number(16_384)),
    ]);
    assert!(matches!(
        BencodeInspector.inspect(&torrent_with_info(info)),
        Err(InspectError::Malformed(_))
    ));
}

#[test]
fn a_torrent_that_ends_early_is_rejected() {
    let torrent = torrent_with_info(single_file_info());
    assert!(BencodeInspector
        .inspect(&torrent[..torrent.len() - 10])
        .is_err());
    assert!(BencodeInspector.inspect(&torrent[..1]).is_err());
}

#[test]
fn rejects_empty_input() {
    assert!(BencodeInspector.inspect(&[]).is_err());
}

#[test]
fn rejects_a_megabyte_of_dict_starts_without_panicking() {
    let bytes = vec![b'd'; 1024 * 1024];
    assert!(BencodeInspector.inspect(&bytes).is_err());
}

#[test]
fn rejects_input_over_the_size_cap() {
    let bytes = vec![b'0'; MAX_TORRENT_BYTES + 1];
    assert!(matches!(
        BencodeInspector.inspect(&bytes),
        Err(InspectError::Malformed(_))
    ));
}

#[test]
fn does_not_panic_on_random_bytes() {
    let mut state = 0x2545_f491_4f6c_dd1d_u64;
    let mut next = || {
        state ^= state << 13;
        state ^= state >> 7;
        state ^= state << 17;
        state
    };
    for _ in 0..2000 {
        let len = (next() % 64) as usize;
        let bytes: Vec<u8> = (0..len).map(|_| (next() % 256) as u8).collect();
        let _ = BencodeInspector.inspect(&bytes);
    }
}

fn said_of(bytes: &[u8]) -> String {
    match BencodeInspector.inspect(bytes) {
        Err(InspectError::Malformed(why)) => why,
        other => panic!("unexpected {other:?}"),
    }
}

#[test]
fn what_is_no_bencode_is_explained() {
    assert_eq!(said_of(b""), "unexpected end of input");
    assert_eq!(said_of(b"\nx"), "unexpected byte 0x0a at offset 0");
    assert_eq!(said_of(b"d3:abc"), "unexpected end of input");
    assert_eq!(said_of(b"l4:spam"), "unexpected end of input");
    assert_eq!(said_of(b"li1eX"), "unexpected byte 0x58 at offset 4");
    assert_eq!(said_of(b"dX"), "unexpected byte 0x58 in a number");
    assert_eq!(said_of(b"ie"), "malformed integer \"\"");
    assert_eq!(said_of(b"i-e"), "malformed integer \"-\"");
    assert_eq!(said_of(b"i-0e"), "malformed integer \"-0\"");
    assert_eq!(said_of(b"i07e"), "malformed integer \"07\"");
    assert_eq!(
        said_of(b"i1-2e"),
        "malformed integer \"1-2\": invalid digit found in string"
    );
    assert_eq!(
        said_of(b"i9223372036854775808e"),
        "malformed integer \"9223372036854775808\": number too large to fit in target type"
    );
    assert_eq!(
        said_of(b"i-9223372036854775809e"),
        "malformed integer \"-9223372036854775809\": number too small to fit in target type"
    );
    assert_eq!(said_of(b"i1x"), "unexpected byte 0x78 in a number");
    assert_eq!(
        said_of(b"03:abc"),
        "byte string length has a leading zero: \"03\""
    );
    assert_eq!(
        said_of(b"d:"),
        "malformed byte string length \"\": cannot parse integer from empty string"
    );
    assert_eq!(
        said_of(b"3-:abc"),
        "malformed byte string length \"3-\": invalid digit found in string"
    );
    assert_eq!(said_of(b"9:abc"), "byte string runs past end of input");
    assert_eq!(
        said_of(b"18446744073709551615:abc"),
        "byte string length overflows"
    );
    assert_eq!(said_of(&[b'l'; 40]), "nesting exceeds limit of 32");
}

#[test]
fn the_first_trouble_in_a_number_is_the_one_told() {
    for text in ["99999999999999999999-", "99999999999999999999"] {
        let why = text.parse::<i64>().expect_err("no number").to_string();
        assert_eq!(
            said_of(format!("i{text}e").as_bytes()),
            format!("malformed integer \"{text}\": {why}")
        );
    }
    for text in ["-99999999999999999999-", "--5", "-5-99999999999999999999"] {
        let why = text.parse::<i64>().expect_err("no number").to_string();
        assert_eq!(
            said_of(format!("i{text}e").as_bytes()),
            format!("malformed integer \"{text}\": {why}")
        );
    }
    for text in ["99999999999999999999-", "5-99999999999999999999", "-5"] {
        let why = text.parse::<usize>().expect_err("no number").to_string();
        assert_eq!(
            said_of(format!("d{text}:").as_bytes()),
            format!("malformed byte string length \"{text}\": {why}")
        );
    }
}

// --- The fake tracker's torrents ---

#[test]
fn round_trips_and_revalidates_paths() {
    let metadata = TorrentMetadata {
        info_hash: InfoHash::from_bytes([7; 20]),
        name: SafeRelativePath::parse("Show S01").expect("valid"),
        piece_length: 1 << 18,
        files: vec![TorrentFile {
            path: SafeRelativePath::parse("Show S01/e01.mkv").expect("valid"),
            length: 100,
        }],
        pieces: Vec::new(),
    };

    let served = FakeInspector::encode(&metadata);
    assert_eq!(served.info_hash, "07".repeat(20));
    assert_eq!(FakeInspector.inspect(Ok(served)).expect("round trip"), metadata);
}

fn served(info_hash: &str, path: &str) -> ServedTorrent {
    ServedTorrent {
        info_hash: info_hash.to_owned(),
        name: "Show".to_owned(),
        piece_length: 16384,
        files: vec![ServedFile {
            path: path.to_owned(),
            length: 1,
        }],
        pieces: Vec::new(),
    }
}

#[test]
fn rejects_a_traversal_path_smuggled_through_json() {
    let torrent = served(
        "0000000000000000000000000000000000000000",
        "../../etc/passwd",
    );
    assert!(matches!(
        FakeInspector.inspect(Ok(torrent)),
        Err(InspectError::Malformed(_))
    ));
}

#[test]
fn a_fake_torrent_that_is_not_sound_says_why() {
    assert_eq!(
        FakeInspector.inspect(Ok(served("abc", "e01.mkv"))),
        Err(InspectError::Malformed(
            "info-hash must be 40 hex characters, got 3".to_owned()
        ))
    );
    assert_eq!(
        FakeInspector.inspect(Err("expected value at line 1 column 1".to_owned())),
        Err(InspectError::Malformed(
            "expected value at line 1 column 1".to_owned()
        ))
    );
}
