use voxel_world::types::net::{
    admit_user, decode_user_data, encode_user_data, prepare_connection, AuthUserData,
    ConnectRefusal, USER_DATA_BYTES,
};

fn user(name: &str) -> AuthUserData {
    AuthUserData { username: name.to_string() }
}

#[test]
fn user_data_frame_is_exact() {
    let frame = encode_user_data(&user("bob")).unwrap();
    assert_eq!(frame.len(), USER_DATA_BYTES);
    assert_eq!(frame.len(), 256);
    assert_eq!(&frame[0..12], &[11, 3, 0, 0, 0, 0, 0, 0, 0, b'b', b'o', b'b']);
    assert!(frame[12..].iter().all(|b| *b == 0));
}

#[test]
fn user_data_agrees_with_bincode() {
    for name in ["default", "", "h\u{e9}llo w\u{f6}rld", "Debug1234"] {
        let frame = encode_user_data(&user(name)).unwrap();
        let expected = bincode::serialize(&name.to_string()).unwrap();
        assert_eq!(frame[0] as usize, expected.len());
        assert_eq!(&frame[1..1 + expected.len()], &expected[..]);
        let read: String = bincode::deserialize(&frame[1..1 + frame[0] as usize]).unwrap();
        assert_eq!(read, name);
    }
}

#[test]
fn user_data_round_trip() {
    for name in ["default", "", "h\u{e9}llo", &"x".repeat(247)] {
        let frame = encode_user_data(&user(name)).unwrap();
        assert_eq!(decode_user_data(&frame).unwrap().username, name);
    }
}

#[test]
fn long_name_has_no_room() {
    assert!(encode_user_data(&user(&"x".repeat(248))).is_none());
    assert!(encode_user_data(&user(&"\u{e9}".repeat(124))).is_none());
    assert!(encode_user_data(&user(&"\u{e9}".repeat(123))).is_some());
}

#[test]
fn broken_user_data_is_refused() {
    assert!(decode_user_data(&[]).is_none());
    assert!(decode_user_data(&[0u8; 256]).is_none());
    assert!(decode_user_data(&[7, 0, 0, 0, 0, 0, 0, 0]).is_none());
    assert!(decode_user_data(&[9, 1, 0, 0, 0, 0, 0, 0, 0]).is_none());
    assert_eq!(decode_user_data(&[9, 1, 0, 0, 0, 0, 0, 0, 0, b'a']).unwrap().username, "a");
    assert!(decode_user_data(&[9, 2, 0, 0, 0, 0, 0, 0, 0, b'a']).is_none());
    assert!(decode_user_data(&[9, 1, 0, 0, 0, 0, 0, 0, 0, 0xff]).is_none());
    assert!(decode_user_data(&[10, 2, 0, 0, 0, 0, 0, 0, 0, 0xc3, 0x28]).is_none());
    assert!(decode_user_data(&[9, 0xff, 0xff, 0xff, 0xff, 0xff, 0xff, 0xff, 0xff, b'a']).is_none());
    assert_eq!(decode_user_data(&[8, 0, 0, 0, 0, 0, 0, 0, 0]).unwrap().username, "");
    let mut full = vec![255u8];
    full.extend_from_slice(&247u64.to_le_bytes());
    full.extend_from_slice(&[b'z'; 247]);
    assert_eq!(decode_user_data(&full).unwrap().username, "z".repeat(247));
    assert!(decode_user_data(&full[..255]).is_none());
}

#[test]
fn only_checked_names_are_admitted() {
    let admitted = admit_user(&encode_user_data(&user("Player One")).unwrap());
    assert_eq!(admitted.unwrap().username, "Player One");
    assert!(admit_user(&encode_user_data(&user("ab")).unwrap()).is_none());
    assert!(admit_user(&encode_user_data(&user("[SERVER]")).unwrap()).is_none());
    assert!(admit_user(&encode_user_data(&user(" spaced")).unwrap()).is_none());
    assert!(admit_user(&encode_user_data(&user(&"x".repeat(25))).unwrap()).is_none());
    assert!(admit_user(&[0u8; 256]).is_none());
}

#[test]
fn connection_requests_are_answered() {
    assert_eq!(prepare_connection(None), Err(ConnectRefusal::MissingUsername));
    assert_eq!(prepare_connection(Some("ab")), Err(ConnectRefusal::InvalidUsername));
    assert_eq!(prepare_connection(Some("[admin]")), Err(ConnectRefusal::InvalidUsername));
    let frame = prepare_connection(Some("default")).unwrap();
    assert_eq!(frame, encode_user_data(&user("default")).unwrap());
    assert_eq!(admit_user(&frame).unwrap().username, "default");
    assert_eq!(ConnectRefusal::MissingUsername.code(), 422);
    assert_eq!(ConnectRefusal::InvalidUsername.code(), 422);
    assert_eq!(ConnectRefusal::UserDataTooLong.code(), 500);
    assert_eq!(ConnectRefusal::MissingUsername.reason(), "Validation error: Missing username");
    assert_eq!(ConnectRefusal::InvalidUsername.reason(), "Validation error: Invalid username");
    assert_eq!(
        ConnectRefusal::UserDataTooLong.reason(),
        "Internal server error : Userdata is too long"
    );
}
