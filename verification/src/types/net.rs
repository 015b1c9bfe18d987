use vstd::bytes::{
    lemma_auto_spec_u64_to_from_le_bytes, spec_u64_from_le_bytes, spec_u64_to_le_bytes,
    u64_from_le_bytes, u64_to_le_bytes,
};
use vstd::prelude::*;
use vstd::slice::{slice_subrange, slice_to_vec};
use vstd::string::StringSliceAdditionalSpecFns;
use vstd::utf8::{
    decode_utf8, decode_utf8_encode_utf8, encode_utf8, encode_utf8_decode_utf8,
    encode_utf8_valid_utf8, valid_utf8,
};
use crate::messages::push_all;
use crate::utils::{check_username, rule_hits, username_verdict};

verus! {

/// How many bytes a client can tell of its user when it connects.
pub const USER_DATA_BYTES: usize = 256;

/// What a client tells of its user when it connects.
#[derive(Debug)]
pub struct AuthUserData {
    pub username: String,
}

impl Clone for AuthUserData {
    fn clone(&self) -> (copy: Self)
        ensures
            copy == *self,
    {
        AuthUserData { username: self.username.clone() }
    }
}

/// Calls `String::from_utf8`. Trusted: it gives the text that the bytes spell in UTF-8,
/// and nothing where they spell none.
#[verifier::external_body]
fn utf8_string(bytes: Vec<u8>) -> (text: Option<String>)
    ensures
        match text {
            Some(s) => valid_utf8(bytes@) && s@ == decode_utf8(bytes@),
            None => !valid_utf8(bytes@),
        },
{
    String::from_utf8(bytes).ok()
}

/// A user's data as bytes: the length of the name as eight bytes, low byte first, and
/// the name in UTF-8.
pub open spec fn user_data_bytes(username: Seq<char>) -> Seq<u8> {
    spec_u64_to_le_bytes(encode_utf8(username).len() as u64) + encode_utf8(username)
}

/// The block of [`USER_DATA_BYTES`] bytes that carries a user's data: one byte with the
/// length of the data, the data, and zeros up to the end. A name of more than 247 bytes has
/// no room in it.
pub open spec fn user_data_frame(username: Seq<char>) -> Option<Seq<u8>> {
    if encode_utf8(username).len() > 247 {
        None
    } else {
        Some(
            seq![(8 + encode_utf8(username).len()) as u8] + user_data_bytes(username) + Seq::new(
                (247 - encode_utf8(username).len()) as nat,
                |i: int| 0u8,
            ),
        )
    }
}

/// The name that a block of user data carries, if it carries one: the first byte says how
/// many bytes of data follow, and the data hold the length of the name and the name.
pub open spec fn parse_user_data(frame: Seq<u8>) -> Option<Seq<char>> {
    if frame.len() == 0 || frame[0] < 8 || frame.len() < 1 + frame[0] {
        None
    } else {
        let length = spec_u64_from_le_bytes(frame.subrange(1, 9));
        if length > frame[0] - 8 {
            None
        } else if !valid_utf8(frame.subrange(9, 9 + length)) {
            None
        } else {
            Some(decode_utf8(frame.subrange(9, 9 + length)))
        }
    }
}

/// A name that is put into a block of user data is read back from it.
pub proof fn lemma_user_data_round_trip(username: Seq<char>)
    requires
        encode_utf8(username).len() <= 247,
    ensures
        user_data_frame(username) matches Some(frame) && frame.len() == USER_DATA_BYTES
            && parse_user_data(frame) == Some(username),
{
    lemma_auto_spec_u64_to_from_le_bytes();
    encode_utf8_valid_utf8(username);
    encode_utf8_decode_utf8(username);
    let name = encode_utf8(username);
    let frame = user_data_frame(username).unwrap();
    assert(frame.subrange(1, 9) =~= spec_u64_to_le_bytes(name.len() as u64));
    assert(frame.subrange(9, 9 + name.len() as int) =~= name);
}

/// Puts a user's data into a block of [`USER_DATA_BYTES`] bytes. Nothing is returned for
/// a name of more than 247 bytes: it has no room in the block.
pub fn encode_user_data(user: &AuthUserData) -> (frame: Option<Vec<u8>>)
    ensures
        match frame {
            Some(bytes) => user_data_frame(user.username@) == Some(bytes@),
            None => user_data_frame(user.username@) is None,
        },
{
    let name = user.username.as_str().as_bytes();
    if name.len() > 247 {
        return None;
    }
    let mut frame: Vec<u8> = Vec::with_capacity(USER_DATA_BYTES);
    frame.push((8 + name.len()) as u8);
    let length = u64_to_le_bytes(name.len() as u64);
    push_all(&mut frame, length.as_slice());
    push_all(&mut frame, name);
    let ghost data = frame@;
    let mut filled: usize = frame.len();
    while filled < USER_DATA_BYTES
        invariant
            9 + name@.len() <= filled <= USER_DATA_BYTES,
            data.len() == 9 + name@.len(),
            frame@ == data + Seq::new((filled - data.len()) as nat, |i: int| 0u8),
        decreases USER_DATA_BYTES - filled,
    {
        frame.push(0);
        filled = filled + 1;
    }
    Some(frame)
}

/// Reads a user's data from the block that a client sent. Nothing is returned where the
/// block does not carry a name.
pub fn decode_user_data(frame: &[u8]) -> (user: Option<AuthUserData>)
    ensures
        match user {
            Some(data) => parse_user_data(frame@) == Some(data.username@),
            None => parse_user_data(frame@) is None,
        },
{
    if frame.len() == 0 {
        return None;
    }
    let size = frame[0] as usize;
    if size < 8 || frame.len() - 1 < size {
        return None;
    }
    let length = u64_from_le_bytes(slice_subrange(frame, 1, 9));
    if length > (size - 8) as u64 {
        return None;
    }
    let end: usize = 9 + length as usize;
    let name = slice_to_vec(slice_subrange(frame, 9, end));
    match utf8_string(name) {
        None => None,
        Some(username) => Some(AuthUserData { username }),
    }
}

/// What is made of a client that connects with the block `frame` of user data: the name
/// that the block carries, where it carries one and the name passes the checks on user
/// names; otherwise nothing, and the client is to be turned away.
pub open spec fn admitted_user(frame: Seq<u8>) -> Option<Seq<char>> {
    match parse_user_data(frame) {
        None => None,
        Some(username) => if username_verdict(
            encode_utf8(username).len(),
            rule_hits(username),
        ) is None {
            Some(username)
        } else {
            None
        },
    }
}

/// Decides on a client that connects with the block `frame` of user data: it is admitted
/// under the name that the block carries, if the block carries one and the name passes
/// the checks on user names; otherwise it is to be turned away.
pub fn admit_user(frame: &[u8]) -> (user: Option<AuthUserData>)
    ensures
        match user {
            Some(data) => admitted_user(frame@) == Some(data.username@),
            None => admitted_user(frame@) is None,
        },
{
    match decode_user_data(frame) {
        None => None,
        Some(data) => {
            proof {
                let length = spec_u64_from_le_bytes(frame@.subrange(1, 9));
                decode_utf8_encode_utf8(frame@.subrange(9, 9 + length));
            }
            match check_username(data.username.as_str()) {
                Ok(()) => Some(data),
                Err(_) => None,
            }
        },
    }
}

/// Why the server gives no connect token.
#[derive(Debug, Clone, Copy, PartialEq, Eq, Structural)]
pub enum ConnectRefusal {
    /// The request names no user.
    MissingUsername,
    /// The user name does not pass the checks on user names.
    InvalidUsername,
    /// The user's data have no room in the token.
    UserDataTooLong,
}

impl ConnectRefusal {
    /// The status that the refusal is answered with: 422 for a request that is not valid,
    /// 500 for a failure of the server.
    pub fn code(&self) -> (code: u16)
        ensures
            code == (match self {
                ConnectRefusal::MissingUsername => 422u16,
                ConnectRefusal::InvalidUsername => 422u16,
                ConnectRefusal::UserDataTooLong => 500u16,
            }),
    {
        match self {
            ConnectRefusal::MissingUsername => 422,
            ConnectRefusal::InvalidUsername => 422,
            ConnectRefusal::UserDataTooLong => 500,
        }
    }

    /// The reason that the refusal is answered with.
    pub fn reason(&self) -> (reason: &'static str)
        ensures
            reason@ == (match self {
                ConnectRefusal::MissingUsername => "Validation error: Missing username"@,
                ConnectRefusal::InvalidUsername => "Validation error: Invalid username"@,
                ConnectRefusal::UserDataTooLong =>
                    "Internal server error : Userdata is too long"@,
            }),
    {
        match self {
            ConnectRefusal::MissingUsername => "Validation error: Missing username",
            ConnectRefusal::InvalidUsername => "Validation error: Invalid username",
            ConnectRefusal::UserDataTooLong => "Internal server error : Userdata is too long",
        }
    }
}

/// What a request for a connect token that names the user `username` is answered with:
/// the block of user data that goes into the token, or the reason why no token is given.
pub open spec fn connection_answer(username: Option<Seq<char>>, name_len: nat) -> Result<
    Seq<u8>,
    ConnectRefusal,
> {
    match username {
        None => Err(ConnectRefusal::MissingUsername),
        Some(name) => if username_verdict(name_len, rule_hits(name)) is Some {
            Err(ConnectRefusal::InvalidUsername)
        } else {
            match user_data_frame(name) {
                None => Err(ConnectRefusal::UserDataTooLong),
                Some(frame) => Ok(frame),
            }
        },
    }
}

/// Answers a request for a connect token: for a user name that passes the checks, the
/// block of user data that goes into the token; otherwise the reason why no token is
/// given.
pub fn prepare_connection(username: Option<&str>) -> (answer: Result<Vec<u8>, ConnectRefusal>)
    ensures
        match answer {
            Ok(frame) => username matches Some(name) && connection_answer(
                Some(name@),
                name.len() as nat,
            ) == Ok::<Seq<u8>, ConnectRefusal>(frame@),
            Err(refusal) => match username {
                None => refusal == ConnectRefusal::MissingUsername,
                Some(name) => connection_answer(Some(name@), name.len() as nat) == Err::<
                    Seq<u8>,
                    ConnectRefusal,
                >(refusal),
            },
        },
{
    match username {
        None => Err(ConnectRefusal::MissingUsername),
        Some(name) => match check_username(name) {
            Err(_) => Err(ConnectRefusal::InvalidUsername),
            Ok(()) => match encode_user_data(&AuthUserData { username: name.to_owned() }) {
                None => Err(ConnectRefusal::UserDataTooLong),
                Some(frame) => Ok(frame),
            },
        },
    }
}

} // verus!
