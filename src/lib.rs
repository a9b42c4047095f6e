//! A TCP port scanner: port-range and port-list parsing, scan preparation,
//! and a scanner that records which ports of one host accept connections.
pub mod cli;
pub mod ports;
pub mod port_scanner;
pub mod report;

use vstd::prelude::*;

verus! {

#[verifier::external_type_specification]
#[verifier::external_body]
pub struct ExUtf8Error(core::str::Utf8Error);

/// The text that a byte string holds when it is valid UTF-8.
pub uninterp spec fn utf8_text(b: Seq<u8>) -> Option<Seq<char>>;

/// Bytes below 128 are ASCII characters.
pub open spec fn is_ascii_bytes(b: Seq<u8>) -> bool {
    forall|i: int| 0 <= i < b.len() ==> #[trigger] b[i] < 128
}

/// The characters that ASCII bytes stand for.
pub open spec fn ascii_chars(b: Seq<u8>) -> Seq<char> {
    b.map_values(|x: u8| x as char)
}

/// Relies on `std::str::from_utf8`: the bytes decoded as UTF-8, or an error
/// when they are not valid UTF-8; ASCII bytes are valid and decode one
/// character per byte.
#[verifier::external_body]
fn decode_utf8(bytes: &[u8]) -> (r: Result<String, core::str::Utf8Error>)
    ensures
        match r {
            Ok(s) => utf8_text(bytes@) == Some(s@),
            Err(_) => utf8_text(bytes@) is None,
        },
        is_ascii_bytes(bytes@) ==> r is Ok && r->Ok_0@ == ascii_chars(bytes@),
{
    std::str::from_utf8(bytes).map(|s| s.to_string())
}

/// The text of the well-known ports list, a comma- or newline-delimited list
/// of port numbers, from the bytes of its file.
pub fn get_common_ports_string(bytes: &[u8]) -> (r: Result<String, core::str::Utf8Error>)
    ensures
        match r {
            Ok(s) => utf8_text(bytes@) == Some(s@),
            Err(_) => utf8_text(bytes@) is None,
        },
        is_ascii_bytes(bytes@) ==> r is Ok && r->Ok_0@ == ascii_chars(bytes@),
{
    decode_utf8(bytes)
}

} // verus!
