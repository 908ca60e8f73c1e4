//! The messages in which the proxy speaks to a client as a server does.
use vstd::prelude::*;

use crate::buffer::{
    be_at, be_bytes4, buffer_bytes, buffer_slice, law_be_round_trip, new_buffer, put_bytes, put_i32,
    put_u8,
};
use crate::text::utf8_bytes;
use crate::wire::{tagged_message, BackendTag, Frame};

verus! {

/// What a request for authentication holds: its code, and what belongs to the code.
pub open spec fn request_payload(code: int, rest: Seq<u8>) -> Seq<u8> {
    be_bytes4(code) + rest
}

/// A request for authentication.
pub open spec fn request_frame(code: int, rest: Seq<u8>) -> Frame {
    Frame { tag: BackendTag::Authentication.byte(), payload: request_payload(code, rest) }
}

fn authentication_request(code: i32, rest: &[u8]) -> (r: bytes::BytesMut)
    ensures
        buffer_bytes(r) == request_frame(code as int, rest@).encoded(),
{
    let mut payload = new_buffer();
    put_i32(&mut payload, code);
    put_bytes(&mut payload, rest);
    assert(buffer_bytes(payload) =~= request_payload(code as int, rest@));
    tagged_message(BackendTag::Authentication.as_byte(), buffer_slice(&payload))
}

/// Tells a client that it is let in.
pub fn authentication_ok() -> (r: bytes::BytesMut)
    ensures
        buffer_bytes(r) == request_frame(0, Seq::empty()).encoded(),
{
    let rest = new_buffer();
    authentication_request(0, buffer_slice(&rest))
}

/// Asks a client for the digest of its password, salted.
pub fn authentication_md5_password(salt: [u8; 4]) -> (r: bytes::BytesMut)
    ensures
        buffer_bytes(r) == request_frame(5, salt@).encoded(),
{
    authentication_request(5, &salt)
}

/// The mechanisms that a client may choose from, as a list that an empty name ends.
pub open spec fn scram_mechanisms() -> Seq<u8> {
    utf8_bytes("SCRAM-SHA-256"@) + seq![0u8, 0u8]
}

/// Asks a client to begin a SCRAM exchange.
pub fn authentication_sasl_scram_sha_256() -> (r: bytes::BytesMut)
    ensures
        buffer_bytes(r) == request_frame(10, scram_mechanisms()).encoded(),
{
    let mut rest = new_buffer();
    put_bytes(&mut rest, "SCRAM-SHA-256".as_bytes());
    put_u8(&mut rest, 0);
    put_u8(&mut rest, 0);
    assert(buffer_bytes(rest) =~= scram_mechanisms());
    authentication_request(10, buffer_slice(&rest))
}

/// Goes on with a SCRAM exchange.
pub fn authentication_sasl_continue(data: &[u8]) -> (r: bytes::BytesMut)
    ensures
        buffer_bytes(r) == request_frame(11, data@).encoded(),
{
    authentication_request(11, data)
}

/// Ends a SCRAM exchange.
pub fn authentication_sasl_final(data: &[u8]) -> (r: bytes::BytesMut)
    ensures
        buffer_bytes(r) == request_frame(12, data@).encoded(),
{
    authentication_request(12, data)
}

/// What a request for authentication was written with, code and rest, is read back out of it.
pub proof fn law_request_reads_back(code: i32, rest: Seq<u8>)
    ensures
        be_at(request_payload(code as int, rest), 0) == code,
        request_payload(code as int, rest).skip(4) == rest,
{
    law_be_round_trip(code);
    let payload = request_payload(code as int, rest);
    assert(payload.skip(4) =~= rest);
    assert(payload[0] == be_bytes4(code as int)[0]);
    assert(payload[1] == be_bytes4(code as int)[1]);
    assert(payload[2] == be_bytes4(code as int)[2]);
    assert(payload[3] == be_bytes4(code as int)[3]);
}

/// What an error's message says: its severity, its code and its text.
pub open spec fn error_payload(sqlstate: Seq<char>, message: Seq<char>) -> Seq<u8> {
    seq![83u8] + utf8_bytes("ERROR"@) + seq![0u8, 67u8] + utf8_bytes(sqlstate) + seq![0u8, 77u8]
        + utf8_bytes(message) + seq![0u8, 0u8]
}

/// The message of an error.
pub open spec fn error_frame(sqlstate: Seq<char>, message: Seq<char>) -> Frame {
    Frame { tag: BackendTag::ErrorResponse.byte(), payload: error_payload(sqlstate, message) }
}

/// Tells a client of an error.
pub fn build_error_response(sqlstate: &str, message: &str) -> (r: bytes::BytesMut)
    ensures
        buffer_bytes(r) == error_frame(sqlstate@, message@).encoded(),
{
    let mut payload = new_buffer();
    put_u8(&mut payload, 83);
    put_bytes(&mut payload, "ERROR".as_bytes());
    put_u8(&mut payload, 0);
    put_u8(&mut payload, 67);
    put_bytes(&mut payload, sqlstate.as_bytes());
    put_u8(&mut payload, 0);
    put_u8(&mut payload, 77);
    put_bytes(&mut payload, message.as_bytes());
    put_u8(&mut payload, 0);
    put_u8(&mut payload, 0);
    assert(buffer_bytes(payload) =~= error_payload(sqlstate@, message@));
    tagged_message(BackendTag::ErrorResponse.as_byte(), buffer_slice(&payload))
}

/// An error is told in three fields, each with a zero byte behind it: how bad it is (`S`), its code
/// (`C`) and its message (`M`); one more zero byte ends them. The message begins with `E`.
pub proof fn law_error_fields(sqlstate: Seq<char>, message: Seq<char>)
    ensures
        error_frame(sqlstate, message).tag == 69u8,
        error_frame(sqlstate, message).payload == seq![83u8] + utf8_bytes("ERROR"@) + seq![0u8]
            + seq![67u8] + utf8_bytes(sqlstate) + seq![0u8] + seq![77u8] + utf8_bytes(message)
            + seq![0u8] + seq![0u8],
        request_frame(0, Seq::empty()).tag == 82u8,
{
    assert(error_payload(sqlstate, message) =~= seq![83u8] + utf8_bytes("ERROR"@) + seq![0u8]
        + seq![67u8] + utf8_bytes(sqlstate) + seq![0u8] + seq![77u8] + utf8_bytes(message)
        + seq![0u8] + seq![0u8]);
}

} // verus!
