use seaweed_volume::rdma::{parse_fid, ParseFidError};
use seaweed_volume::storage::file_id::{Cookie, FileId, FileIdFault, NeedleId, VolumeId};

#[test]
fn parse_fid_extracts_volume_key_and_cookie() {
    assert_eq!(parse_fid("3,0189b26a98").unwrap(), (3, 0x01, 0x89b26a98));
    assert_eq!(parse_fid("3,0a12345678").unwrap(), (3, 0x0a, 0x12345678));
    assert_eq!(
        parse_fid("3,deadbeef89abcdef").unwrap(),
        (3, 0xdeadbeef, 0x89abcdef)
    );
    assert_eq!(parse_fid("12345,0abc01234567").unwrap().0, 12345);
    assert_eq!(parse_fid("3,000189b26a98").unwrap().1, 0x0001);
}

#[test]
fn parse_fid_applies_delta_suffix() {
    assert_eq!(parse_fid("3,0189b26a98_5").unwrap(), (3, 0x06, 0x89b26a98));
}

#[test]
fn parse_fid_invalid_returns_error() {
    assert!(matches!(parse_fid(""), Err(ParseFidError::Empty)));
    assert!(matches!(
        parse_fid("abc"),
        Err(ParseFidError::MissingSeparator)
    ));
    assert!(matches!(parse_fid("3,"), Err(ParseFidError::EmptyKey)));
    assert!(matches!(parse_fid(",abc"), Err(ParseFidError::EmptyVolume)));
    assert!(matches!(
        parse_fid("abc,123456789"),
        Err(ParseFidError::InvalidFileId(_))
    ));
    assert!(matches!(
        parse_fid("3,12345678"),
        Err(ParseFidError::InvalidFileId(_))
    ));
    assert!(matches!(
        parse_fid("3,1"),
        Err(ParseFidError::InvalidFileId(_))
    ));
    assert!(matches!(
        parse_fid("3,zxcvbnm12345678"),
        Err(ParseFidError::InvalidFileId(_))
    ));
    assert!(matches!(
        parse_fid("3,deadbeefzzzzzzzz"),
        Err(ParseFidError::InvalidFileId(_))
    ));
    assert!(matches!(
        parse_fid("3,0189b26a98_xyz"),
        Err(ParseFidError::InvalidFileId(_))
    ));
}

#[test]
fn parse_fid_accepts_slash_separator_like_volume_api() {
    assert_eq!(parse_fid("3/0189b26a98").unwrap(), (3, 0x01, 0x89b26a98));
}

#[test]
fn parse_fid_rejects_overlong_key_hash_like_volume_api() {
    assert!(matches!(
        parse_fid("3,123456789abcdef0123456789"),
        Err(ParseFidError::InvalidFileId(_))
    ));
}

fn fault(s: &str) -> String {
    match parse_fid(s) {
        Err(ParseFidError::InvalidFileId(message)) => message,
        other => panic!("{:?}", other),
    }
}

#[test]
fn each_fault_of_a_file_id_has_its_words() {
    assert_eq!(fault("abc,123456789"), FileIdFault::Volume.message());
    assert_eq!(fault("4294967296,0189b26a98"), FileIdFault::Volume.message());
    assert_eq!(fault("+3,0189b26a98"), FileIdFault::Volume.message());
    assert_eq!(fault("3,12345678"), FileIdFault::KeyTooShort.message());
    assert_eq!(
        fault("3,123456789abcdef0123456789"),
        FileIdFault::KeyTooLong.message()
    );
    assert_eq!(fault("3,zxcvbnm12345678"), FileIdFault::Key.message());
    assert_eq!(fault("3,deadbeefzzzzzzzz"), FileIdFault::Cookie.message());
    assert_eq!(fault("3,0189b26a98_xyz"), FileIdFault::Delta.message());
    assert_eq!(fault("3,0189b26a98_"), FileIdFault::Delta.message());
    assert_eq!(
        FileId::parse("30189b26a98").unwrap_err(),
        FileIdFault::Separator.message()
    );
    assert_eq!(FileIdFault::KeyTooShort.message(), "key hash is too short");
}

#[test]
fn a_comma_separates_before_a_slash_does() {
    assert!(matches!(
        parse_fid("3/4,0189b26a98"),
        Err(ParseFidError::InvalidFileId(_))
    ));
    assert!(matches!(parse_fid("/01"), Err(ParseFidError::EmptyVolume)));
    assert!(matches!(parse_fid("3/"), Err(ParseFidError::EmptyKey)));
}

#[test]
fn fid_numbers_reach_to_their_limits() {
    assert_eq!(
        parse_fid("4294967295,ffffffffffffffffffffffff").unwrap(),
        (u32::MAX, u64::MAX, u32::MAX)
    );
    assert_eq!(
        parse_fid("3,FFFFFFFFFFFFFFFF89B26A98_2").unwrap(),
        (3, 1, 0x89b26a98)
    );
    assert_eq!(
        parse_fid("0,000000000").unwrap(),
        (0, 0, 0)
    );
}

#[test]
fn text_beyond_ascii_is_no_fid() {
    assert!(matches!(
        parse_fid("3,é189b26a98"),
        Err(ParseFidError::InvalidFileId(_))
    ));
    assert!(matches!(parse_fid("é"), Err(ParseFidError::MissingSeparator)));
}

#[test]
fn file_id_keeps_its_parts() {
    assert_eq!(
        FileId::parse("7,0189b26a98_1").unwrap(),
        FileId {
            volume_id: VolumeId(7),
            key: NeedleId(2),
            cookie: Cookie(0x89b26a98)
        }
    );
}

#[test]
fn parse_fid_errors_have_words() {
    assert_eq!(ParseFidError::Empty.message(), "fid is empty");
    assert_eq!(
        ParseFidError::MissingSeparator.message(),
        "fid missing comma or slash separator"
    );
    assert_eq!(
        ParseFidError::EmptyVolume.message(),
        "fid has empty volume_id half"
    );
    assert_eq!(ParseFidError::EmptyKey.message(), "fid has empty key half");
    assert_eq!(
        ParseFidError::InvalidFileId("why".to_string()).message(),
        "invalid fid: why"
    );
}

#[test]
fn fids_are_file_ids() {
    for s in [
        "3,0189b26a98",
        "3/0189b26a98_7",
        "",
        "3",
        ",0189b26a98",
        "3,",
        "3/",
        "3,0189b26a98_",
        "3,0189b26a98_1_2",
        "x,0189b26a98",
    ] {
        match (parse_fid(s), FileId::parse(s)) {
            (Ok(fid), Ok(id)) => assert_eq!(fid, (id.volume_id.0, id.key.0, id.cookie.0)),
            (Err(_), Err(_)) => {}
            other => panic!("{:?}", other),
        }
    }
}
