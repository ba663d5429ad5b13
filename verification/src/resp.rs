//! Frames of the RESP protocol, which Redis and Valkey speak, and the test
//! that tells a `GET` command from other frames.
use vstd::prelude::*;
use vstd::string::StringSliceAdditionalSpecFns;

verus! {

/// One decoded RESP frame.
#[derive(Debug, PartialEq, Eq)]
pub enum RespFrame {
    SimpleString(Vec<u8>),
    Error(String),
    Integer(i64),
    BulkString(Vec<u8>),
    Array(Vec<RespFrame>),
    Null,
}

/// The byte with an ASCII upper-case letter turned into its lower-case form;
/// any other byte as it is.
pub open spec fn ascii_lower(b: u8) -> u8 {
    if 0x41 <= b <= 0x5a {
        (b + 0x20) as u8
    } else {
        b
    }
}

/// The two byte strings are equal but for the case of their ASCII letters.
pub open spec fn same_ignoring_ascii_case(a: Seq<u8>, b: Seq<u8>) -> bool {
    a.len() == b.len() && forall|i: int| 0 <= i < a.len() ==> ascii_lower(#[trigger] a[i]) == ascii_lower(b[i])
}

/// The frame is a command whose name is `GET` in any case: an array whose
/// first element is a bulk string that reads `GET`.
pub open spec fn is_get_command(frame: RespFrame) -> bool {
    match frame {
        RespFrame::Array(items) => items@.len() > 0 && match items@[0] {
            RespFrame::BulkString(name) => same_ignoring_ascii_case(name@, "GET".spec_bytes()),
            _ => false,
        },
        _ => false,
    }
}

/// The frame is a bulk string that holds exactly `bytes`.
pub open spec fn is_bulk_string(frame: RespFrame, bytes: Seq<u8>) -> bool {
    frame matches RespFrame::BulkString(held) && held@ == bytes
}

/// The name of the command is the three bytes `G`, `E`, `T`.
pub proof fn lemma_get_bytes()
    ensures
        "GET".spec_bytes() == seq![0x47u8, 0x45u8, 0x54u8],
{
    reveal_strlit("GET");
    vstd::utf8::is_ascii_chars_encode_utf8("GET"@);
    assert("GET".spec_bytes() =~= seq![0x47u8, 0x45u8, 0x54u8]);
}

/// Case does not matter: a command whose name reads `get`, `GET` or any
/// mixture of the two is a `GET` command, whatever follows the name.
pub proof fn lemma_get_in_any_case(items: Vec<RespFrame>, name: Vec<u8>)
    requires
        items@.len() > 0,
        items@[0] == RespFrame::BulkString(name),
        name@.len() == 3,
        name@[0] == 0x47 || name@[0] == 0x67,
        name@[1] == 0x45 || name@[1] == 0x65,
        name@[2] == 0x54 || name@[2] == 0x74,
    ensures
        is_get_command(RespFrame::Array(items)),
{
    lemma_get_bytes();
}

/// Turns an ASCII upper-case letter into its lower-case form.
pub fn to_ascii_lower(b: u8) -> (out: u8)
    ensures
        out == ascii_lower(b),
{
    if 0x41 <= b && b <= 0x5a {
        b + 0x20
    } else {
        b
    }
}

/// Whether two byte strings are equal but for the case of their ASCII
/// letters.
pub fn equal_ignoring_ascii_case(a: &[u8], b: &[u8]) -> (out: bool)
    ensures
        out == same_ignoring_ascii_case(a@, b@),
{
    if a.len() != b.len() {
        return false;
    }
    let mut i: usize = 0;
    while i < a.len()
        invariant
            i <= a@.len(),
            a@.len() == b@.len(),
            forall|k: int| 0 <= k < i ==> ascii_lower(#[trigger] a@[k]) == ascii_lower(b@[k]),
        decreases a.len() - i,
    {
        if to_ascii_lower(a[i]) != to_ascii_lower(b[i]) {
            return false;
        }
        i += 1;
    }
    true
}

/// Whether the frame is a `GET` command, whatever the case of its name.
pub fn is_get_frame(frame: &RespFrame) -> (out: bool)
    ensures
        out == is_get_command(*frame),
{
    match frame {
        RespFrame::Array(items) => {
            if items.len() > 0 {
                match &items[0] {
                    RespFrame::BulkString(name) => equal_ignoring_ascii_case(
                        name.as_slice(),
                        "GET".as_bytes(),
                    ),
                    _ => false,
                }
            } else {
                false
            }
        },
        _ => false,
    }
}

/// A bulk string frame that holds the UTF-8 bytes of `text`.
pub fn bulk_string_of(text: &str) -> (out: RespFrame)
    ensures
        is_bulk_string(out, text.spec_bytes()),
{
    let mut bytes: Vec<u8> = Vec::new();
    bytes.extend_from_slice(text.as_bytes());
    assert(bytes@ =~= text.spec_bytes());
    RespFrame::BulkString(bytes)
}

} // verus!
