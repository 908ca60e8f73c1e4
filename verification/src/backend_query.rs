//! Looking a user's secret up at a server: the query, its answer, and how long it stays known.
use vstd::prelude::*;

use crate::auth::{BackendAuthSession, login_step};
use crate::buffer::{
    be16_at, be_at, be_bytes4, buffer_bytes, buffer_len, buffer_slice, frozen_slice, new_buffer,
    put_bytes, put_i32, put_u8, read_be16, read_be32, wrap_i32, zero_at,
};
use crate::clock::Duration;
use crate::config::AuthConfig;
use crate::secrets::{
    read_md5_secret, read_verifier, Md5Secret, ScramVerifier, SecretFacts, UserSecret,
};
use crate::text::{
    count_pairs, find_pair, has_prefix, join3, pair_count, pair_index, push_char, same_text,
    starts_with, string_of_range, text_from_utf8, utf8_bytes, utf8_text,
};
use crate::wire::{
    frame_of, invalid_length_text, lemma_wrapped_field, parse_backend_frame, read_parameters,
    ready_status_of, scan_frame, BackendFrame, BackendTag, Frame, FrameScan, FrontendTag,
    ReadyStatus,
};

verus! {

// ---------------------------------------------------------------------------
// The query
// ---------------------------------------------------------------------------

/// A text with every quote doubled.
pub open spec fn doubled_quotes(value: Seq<char>) -> Seq<char>
    decreases value.len(),
{
    if value.len() == 0 {
        Seq::empty()
    } else if value.last() == '\'' {
        doubled_quotes(value.drop_last()).push('\'').push('\'')
    } else {
        doubled_quotes(value.drop_last()).push(value.last())
    }
}

/// A text as a literal of SQL.
pub open spec fn quoted(value: Seq<char>) -> Seq<char> {
    seq!['\''] + doubled_quotes(value) + seq!['\'']
}

/// Writes a text as a literal of SQL: between quotes, with every quote in it doubled.
pub fn quote_literal(value: &str) -> (r: String)
    ensures
        r@ == quoted(value@),
{
    let chars = crate::text::chars_of(value);
    let mut out = String::new();
    push_char(&mut out, '\'');
    assert(out@ =~= seq!['\''] + doubled_quotes(value@.take(0)));
    let mut i: usize = 0;
    while i < chars.len()
        invariant
            i <= chars@.len(),
            chars@ == value@,
            out@ == seq!['\''] + doubled_quotes(value@.take(i as int)),
        decreases chars@.len() - i,
    {
        let c = chars[i];
        if c == '\'' {
            push_char(&mut out, '\'');
        }
        push_char(&mut out, c);
        proof {
            let now = value@.take(i + 1);
            assert(now.drop_last() =~= value@.take(i as int));
            assert(now.last() == c);
            assert(out@ =~= seq!['\''] + doubled_quotes(now));
        }
        i += 1;
    }
    assert(value@.take(i as int) =~= value@);
    push_char(&mut out, '\'');
    assert(out@ =~= quoted(value@));
    out
}

/// The text that the inside of a literal writes, where every quote in it is doubled.
pub open spec fn undoubled(inside: Seq<char>) -> Option<Seq<char>>
    decreases inside.len(),
{
    if inside.len() == 0 {
        Some(Seq::empty())
    } else if inside.last() != '\'' {
        match undoubled(inside.drop_last()) {
            Some(front) => Some(front.push(inside.last())),
            None => None,
        }
    } else if inside.len() >= 2 && inside[inside.len() - 2] == '\'' {
        match undoubled(inside.take(inside.len() - 2)) {
            Some(front) => Some(front.push('\'')),
            None => None,
        }
    } else {
        None
    }
}

/// The text that a literal of SQL writes.
pub open spec fn unquoted(literal: Seq<char>) -> Option<Seq<char>> {
    if literal.len() >= 2 && literal[0] == '\'' && literal.last() == '\'' {
        undoubled(literal.subrange(1, literal.len() - 1))
    } else {
        None
    }
}

/// A text that is quoted stays one literal and is read back as it was, whatever it holds.
pub proof fn law_quoted_reads_back(value: Seq<char>)
    ensures
        unquoted(quoted(value)) == Some(value),
{
    lemma_undoubled(value);
    assert(quoted(value).subrange(1, quoted(value).len() - 1) =~= doubled_quotes(value));
}

proof fn lemma_undoubled(value: Seq<char>)
    ensures
        undoubled(doubled_quotes(value)) == Some(value),
    decreases value.len(),
{
    if value.len() == 0 {
        assert(value =~= Seq::empty());
    } else {
        lemma_undoubled(value.drop_last());
        let front = doubled_quotes(value.drop_last());
        let inside = doubled_quotes(value);
        assert(value =~= value.drop_last().push(value.last()));
        if value.last() == '\'' {
            assert(inside.take(inside.len() - 2) =~= front);
        } else {
            assert(inside.drop_last() =~= front);
        }
    }
}

/// The query for a user's secret: the template with the literal in place of its placeholder.
pub open spec fn rendered_query(template: Seq<char>, username: Seq<char>) -> Option<Seq<char>> {
    if pair_count(template, '$', '1') == 1 {
        let at = pair_index(template, '$', '1');
        Some(template.take(at) + quoted(username) + template.skip(at + 2))
    } else {
        None
    }
}

proof fn lemma_pair_found(s: Seq<char>, a: char, b: char)
    requires
        pair_count(s, a, b) >= 1,
    ensures
        0 <= pair_index(s, a, b),
        pair_index(s, a, b) + 2 <= s.len(),
    decreases s.len(),
{
    if s.len() >= 2 && !(s[0] == a && s[1] == b) {
        lemma_pair_found(s.skip(1), a, b);
    }
}

/// Writes the query for a user's secret. The template has to hold its placeholder once.
pub fn render_auth_query(template: &str, username: &str) -> (r: Result<String, String>)
    ensures
        match r {
            Ok(sql) => rendered_query(template@, username@) == Some(sql@),
            Err(error) => rendered_query(template@, username@) is None && error@
                == "auth_query must contain exactly one $1 placeholder"@,
        },
{
    if count_pairs(template, '$', '1') != 1 {
        return Err("auth_query must contain exactly one $1 placeholder".to_owned());
    }
    proof {
        lemma_pair_found(template@, '$', '1');
    }
    let chars = crate::text::chars_of(template);
    let at = find_pair(chars.as_slice(), '$', '1');
    assert(chars@ == template@);
    let head = string_of_range(chars.as_slice(), 0, at);
    let tail = string_of_range(chars.as_slice(), at + 2, chars.len());
    let literal = quote_literal(username);
    assert(head@ =~= template@.take(at as int));
    assert(tail@ =~= template@.skip(at + 2));
    Ok(join3(head.as_str(), literal.as_str(), tail.as_str()))
}

/// The query message of a text.
pub fn encode_query_message(sql: &str) -> (r: bytes::BytesMut)
    ensures
        buffer_bytes(r) == (Frame {
            tag: FrontendTag::Query.byte(),
            payload: utf8_bytes(sql@).push(0u8),
        }).encoded(),
{
    let body = sql.as_bytes();
    let mut frame = new_buffer();
    put_u8(&mut frame, FrontendTag::Query.as_byte());
    put_i32(&mut frame, wrap_i32(body.len() as u128 + 5));
    put_bytes(&mut frame, body);
    put_u8(&mut frame, 0);
    proof {
        lemma_wrapped_field(body@.len() as int + 5);
        assert(buffer_bytes(frame) =~= (Frame {
            tag: FrontendTag::Query.byte(),
            payload: utf8_bytes(sql@).push(0u8),
        }).encoded());
    }
    frame
}

/// A startup packet around its parameters.
pub open spec fn startup_bytes(parameters: Seq<u8>) -> Seq<u8> {
    let body = be_bytes4(196608) + parameters + seq![0u8];
    be_bytes4(body.len() as int + 4) + body
}

/// A parameter of a startup packet.
pub open spec fn parameter_bytes(name: Seq<char>, value: Seq<char>) -> Seq<u8> {
    utf8_bytes(name) + seq![0u8] + utf8_bytes(value) + seq![0u8]
}

/// Appends a parameter of a startup packet.
pub(crate) fn put_parameter(buffer: &mut bytes::BytesMut, name: &str, value: &str)
    ensures
        buffer_bytes(*final(buffer)) == buffer_bytes(*old(buffer)) + parameter_bytes(name@, value@),
{
    put_bytes(buffer, name.as_bytes());
    put_u8(buffer, 0);
    put_bytes(buffer, value.as_bytes());
    put_u8(buffer, 0);
    assert(buffer_bytes(*buffer) =~= buffer_bytes(*old(buffer)) + parameter_bytes(name@, value@));
}

/// Writes a startup packet around its parameters.
pub(crate) fn startup_packet_of(parameters: &bytes::BytesMut) -> (r: bytes::BytesMut)
    ensures
        buffer_bytes(r) == startup_bytes(buffer_bytes(*parameters)),
{
    let mut body = new_buffer();
    put_i32(&mut body, 196608);
    put_bytes(&mut body, buffer_slice(parameters));
    put_u8(&mut body, 0);
    assert(buffer_bytes(body) =~= be_bytes4(196608) + buffer_bytes(*parameters) + seq![0u8]);
    let mut packet = new_buffer();
    put_i32(&mut packet, wrap_i32(buffer_len(&body) as u128 + 4));
    put_bytes(&mut packet, buffer_slice(&body));
    proof {
        lemma_wrapped_field(buffer_bytes(body).len() as int + 4);
        assert(buffer_bytes(packet) =~= startup_bytes(buffer_bytes(*parameters)));
    }
    packet
}

/// The startup packet of a lookup.
pub fn auth_query_startup_packet(username: &str) -> (r: bytes::BytesMut)
    ensures
        buffer_bytes(r) == startup_bytes(
            parameter_bytes("user"@, username@) + parameter_bytes(
                "application_name"@,
                "pg-kinetic-auth-query"@,
            ),
        ),
{
    let mut parameters = new_buffer();
    put_parameter(&mut parameters, "user", username);
    put_parameter(&mut parameters, "application_name", "pg-kinetic-auth-query");
    assert(buffer_bytes(parameters) =~= parameter_bytes("user"@, username@) + parameter_bytes(
        "application_name"@,
        "pg-kinetic-auth-query"@,
    ));
    startup_packet_of(&parameters)
}

/// Whether some bytes hold no zero.
pub open spec fn zero_free(bytes: Seq<u8>) -> bool {
    forall|i: int| 0 <= i < bytes.len() ==> #[trigger] bytes[i] != 0
}

proof fn lemma_zero_at_end(bytes: Seq<u8>, rest: Seq<u8>)
    requires
        zero_free(bytes),
    ensures
        zero_at(bytes + seq![0u8] + rest) == bytes.len(),
    decreases bytes.len(),
{
    let all = bytes + seq![0u8] + rest;
    if bytes.len() > 0 {
        assert(all[0] == bytes[0]);
        let tail = bytes.drop_first();
        assert forall|i: int| 0 <= i < tail.len() implies #[trigger] tail[i] != 0 by {
            assert(tail[i] == bytes[i + 1]);
        }
        assert(all.drop_first() =~= tail + seq![0u8] + rest);
        lemma_zero_at_end(tail, rest);
    }
}

/// A parameter is read back as it was written, where its name is not empty and neither text holds
/// a zero.
pub proof fn law_parameter_reads_back(name: Seq<char>, value: Seq<char>, rest: Seq<u8>)
    requires
        utf8_bytes(name).len() > 0,
        zero_free(utf8_bytes(name)),
        zero_free(utf8_bytes(value)),
        read_parameters(rest) is Some,
    ensures
        read_parameters(parameter_bytes(name, value) + rest) == Some(
            seq![(name, value)] + read_parameters(rest)->Some_0,
        ),
{
    let n = utf8_bytes(name);
    let v = utf8_bytes(value);
    let all = parameter_bytes(name, value) + rest;
    assert(all =~= n + seq![0u8] + (v + seq![0u8] + rest));
    lemma_zero_at_end(n, v + seq![0u8] + rest);
    let later = all.skip(n.len() as int + 1);
    assert(later =~= v + seq![0u8] + rest);
    lemma_zero_at_end(v, rest);
    assert(all.take(n.len() as int) =~= n);
    assert(later.take(v.len() as int) =~= v);
    assert(later.skip(v.len() as int + 1) =~= rest);
    crate::text::lemma_utf8_round_trip(name);
    crate::text::lemma_utf8_round_trip(value);
}

// ---------------------------------------------------------------------------
// The answer
// ---------------------------------------------------------------------------

/// One row of an answer.
#[derive(Clone, Debug, PartialEq, Eq)]
pub struct SimpleQueryRow {
    pub columns: Vec<Option<String>>,
}

/// What the columns of a row say.
pub open spec fn column_texts(columns: Seq<Option<String>>) -> Seq<Option<Seq<char>>> {
    Seq::new(columns.len(), |i: int| crate::text::opt_text(columns[i]))
}

impl View for SimpleQueryRow {
    type V = Seq<Option<Seq<char>>>;

    open spec fn view(&self) -> Seq<Option<Seq<char>>> {
        column_texts(self.columns@)
    }
}

/// The first `count` columns of a row and where they end, or the first thing that is wrong with
/// them.
pub open spec fn read_columns(payload: Seq<u8>, count: nat) -> Result<
    (Seq<Option<Seq<char>>>, int),
    Seq<char>,
>
    decreases count,
{
    if count == 0 {
        Ok((Seq::empty(), 2int))
    } else {
        match read_columns(payload, (count - 1) as nat) {
            Err(error) => Err(error),
            Ok((columns, at)) => if payload.len() < at + 4 {
                Err("read data row column length"@)
            } else {
                let length = be_at(payload, at);
                if length == -1 {
                    Ok((columns.push(None), at + 4))
                } else if length < 0 {
                    Err("invalid data row column length"@)
                } else if payload.len() < at + 4 + length {
                    Err("truncated data row column"@)
                } else {
                    match utf8_text(payload.subrange(at + 4, at + 4 + length)) {
                        Some(text) => Ok((columns.push(Some(text)), at + 4 + length)),
                        None => Err("auth query returned non-utf8 column"@),
                    }
                }
            },
        }
    }
}

/// The columns of a row, or the first thing that is wrong with it.
pub open spec fn read_row(payload: Seq<u8>) -> Result<Seq<Option<Seq<char>>>, Seq<char>> {
    if payload.len() < 2 {
        Err("read data row column count"@)
    } else if be16_at(payload, 0) < 0 {
        Err("negative data row column count"@)
    } else {
        match read_columns(payload, be16_at(payload, 0) as nat) {
            Err(error) => Err(error),
            Ok((columns, end)) => if end == payload.len() {
                Ok(columns)
            } else {
                Err("data row has trailing bytes"@)
            },
        }
    }
}

proof fn lemma_columns_error_stays(payload: Seq<u8>, k: nat, count: nat)
    requires
        k <= count,
        read_columns(payload, k) is Err,
    ensures
        read_columns(payload, count) == read_columns(payload, k),
    decreases count - k,
{
    if k < count {
        lemma_columns_error_stays(payload, k + 1, count);
    }
}

/// Reads a row.
pub fn parse_data_row(payload: &[u8]) -> (r: Result<SimpleQueryRow, String>)
    ensures
        match (r, read_row(payload@)) {
            (Ok(row), Ok(columns)) => row@ == columns,
            (Err(error), Err(expected)) => error@ == expected,
            _ => false,
        },
{
    if payload.len() < 2 {
        return Err("read data row column count".to_owned());
    }
    let count: i16 = read_be16(payload, 0);
    if count < 0 {
        return Err("negative data row column count".to_owned());
    }
    let mut columns: Vec<Option<String>> = Vec::new();
    let mut offset: usize = 2;
    let mut i: i16 = 0;
    assert(column_texts(columns@) =~= Seq::empty());
    while i < count
        invariant
            0 <= i <= count,
            count == be16_at(payload@, 0),
            payload@.len() >= 2,
            2 <= offset <= payload@.len(),
            read_columns(payload@, i as nat) == Ok::<(Seq<Option<Seq<char>>>, int), Seq<char>>(
                (column_texts(columns@), offset as int),
            ),
        decreases count - i,
    {
        let ghost held = columns@;
        if payload.len() - offset < 4 {
            proof {
                lemma_columns_error_stays(payload@, (i + 1) as nat, count as nat);
            }
            return Err("read data row column length".to_owned());
        }
        let length: i32 = read_be32(payload, offset);
        if length == -1 {
            columns.push(None);
            offset += 4;
            assert(column_texts(columns@) =~= column_texts(held).push(None));
        } else if length < 0 {
            proof {
                lemma_columns_error_stays(payload@, (i + 1) as nat, count as nat);
            }
            return Err("invalid data row column length".to_owned());
        } else if payload.len() - offset - 4 < length as usize {
            proof {
                lemma_columns_error_stays(payload@, (i + 1) as nat, count as nat);
            }
            return Err("truncated data row column".to_owned());
        } else {
            let start: usize = offset + 4;
            let end: usize = start + length as usize;
            match text_from_utf8(vstd::slice::slice_subrange(payload, start, end)) {
                Some(text) => {
                    let ghost view = text@;
                    columns.push(Some(text));
                    assert(column_texts(columns@) =~= column_texts(held).push(Some(view)));
                },
                None => {
                    proof {
                        lemma_columns_error_stays(payload@, (i + 1) as nat, count as nat);
                    }
                    return Err("auth query returned non-utf8 column".to_owned());
                },
            }
            offset = end;
        }
        i += 1;
    }
    if offset != payload.len() {
        return Err("data row has trailing bytes".to_owned());
    }
    Ok(SimpleQueryRow { columns })
}

/// What a frame of an answer is.
pub enum AnswerPart {
    /// A row.
    Row(Seq<Option<Seq<char>>>),
    /// Nothing that matters here.
    Skip,
    /// The end of the answer.
    End,
    /// What is wrong with the answer.
    Wrong(Seq<char>),
}

/// What a frame of an answer is.
pub open spec fn answer_part(frame: Frame) -> AnswerPart {
    if frame.tag == BackendTag::DataRow.byte() {
        match read_row(frame.payload) {
            Ok(columns) => AnswerPart::Row(columns),
            Err(error) => AnswerPart::Wrong(error),
        }
    } else if frame.tag == BackendTag::ErrorResponse.byte() {
        AnswerPart::Wrong("auth query backend returned an error"@)
    } else if frame.tag == BackendTag::ReadyForQuery.byte() {
        if frame.payload == seq![73u8] {
            AnswerPart::End
        } else {
            AnswerPart::Wrong("auth query backend did not return idle status"@)
        }
    } else if frame.tag == BackendTag::RowDescription.byte() || frame.tag
        == BackendTag::CommandComplete.byte() || frame.tag == BackendTag::ParameterStatus.byte()
        || frame.tag == BackendTag::BackendKeyData.byte() {
        AnswerPart::Skip
    } else {
        AnswerPart::Wrong("unexpected auth query backend frame"@)
    }
}

/// How far some bytes bring an answer.
pub struct AnswerRead {
    /// The rows that they hold.
    pub rows: Seq<Seq<Option<Seq<char>>>>,
    /// Whether the answer has ended, or what is wrong with it.
    pub ended: Result<bool, Seq<char>>,
    /// What is left of them.
    pub rest: Seq<u8>,
}

/// How far some bytes bring an answer: up to its end, to what is wrong with it, or to a frame
/// that has not come in full.
pub open spec fn read_answer(bytes: Seq<u8>) -> AnswerRead
    decreases bytes.len(),
{
    match scan_frame(bytes) {
        FrameScan::Incomplete => AnswerRead { rows: Seq::empty(), ended: Ok(false), rest: bytes },
        FrameScan::Invalid(length) => AnswerRead {
            rows: Seq::empty(),
            ended: Err(invalid_length_text(length)),
            rest: bytes,
        },
        FrameScan::Complete(size) => if size <= 0 || size > bytes.len() {
            AnswerRead { rows: Seq::empty(), ended: Ok(false), rest: bytes }
        } else {
            let rest = bytes.skip(size);
            let later = read_answer(rest);
            match answer_part(frame_of(bytes, size)) {
                AnswerPart::Row(row) => AnswerRead { rows: seq![row] + later.rows, ..later },
                AnswerPart::Skip => later,
                AnswerPart::End => AnswerRead { rows: Seq::empty(), ended: Ok(true), rest },
                AnswerPart::Wrong(error) => AnswerRead {
                    rows: Seq::empty(),
                    ended: Err(error),
                    rest,
                },
            }
        },
    }
}

/// What the rows of an answer say.
pub open spec fn row_views(rows: Seq<SimpleQueryRow>) -> Seq<Seq<Option<Seq<char>>>> {
    Seq::new(rows.len(), |i: int| rows[i]@)
}

/// Takes in what has come of an answer: adds its rows, and says whether it has ended.
pub fn read_query_frames(
    buffer: &mut bytes::BytesMut,
    rows: &mut Vec<SimpleQueryRow>,
) -> (r: Result<bool, String>)
    ensures
        ({
            let answer = read_answer(buffer_bytes(*old(buffer)));
            &&& row_views(final(rows)@) == row_views(old(rows)@) + answer.rows
            &&& buffer_bytes(*final(buffer)) == answer.rest
            &&& match (r, answer.ended) {
                (Ok(done), Ok(expected)) => done == expected,
                (Err(error), Err(expected)) => error@ == expected,
                _ => false,
            }
        }),
{
    let ghost start = buffer_bytes(*buffer);
    let ghost held = rows@;
    let ghost mut done: Seq<Seq<Option<Seq<char>>>> = Seq::empty();
    proof {
        assert(done + read_answer(start).rows =~= read_answer(start).rows);
        assert(row_views(held) + done =~= row_views(held));
    }
    loop
        invariant
            start == buffer_bytes(*old(buffer)),
            held == old(rows)@,
            row_views(rows@) == row_views(held) + done,
            done + read_answer(buffer_bytes(*buffer)).rows == read_answer(start).rows,
            read_answer(buffer_bytes(*buffer)).ended == read_answer(start).ended,
            read_answer(buffer_bytes(*buffer)).rest == read_answer(start).rest,
        decreases buffer_bytes(*buffer).len(),
    {
        let ghost now = buffer_bytes(*buffer);
        let ghost part = answer_part(frame_of(now, scan_frame(now)->Complete_0));
        match parse_backend_frame(buffer) {
            Err(error) => {
                assert(done + Seq::<Seq<Option<Seq<char>>>>::empty() =~= done);
                return Err(error.message());
            },
            Ok(None) => {
                assert(done + Seq::<Seq<Option<Seq<char>>>>::empty() =~= done);
                return Ok(false);
            },
            Ok(Some(frame)) => {
                let tag: u8 = frame.tag;
                let payload = frozen_slice(&frame.payload);
                if tag == BackendTag::DataRow.as_byte() {
                    match parse_data_row(payload) {
                        Ok(row) => {
                            let ghost before = rows@;
                            let ghost view = row@;
                            rows.push(row);
                            proof {
                                assert(row_views(rows@) =~= row_views(before).push(view));
                                let next = done.push(view);
                                assert(row_views(held) + next =~= (row_views(held) + done).push(
                                    view,
                                ));
                                assert(next + read_answer(buffer_bytes(*buffer)).rows =~= done
                                    + read_answer(now).rows);
                                done = next;
                            }
                        },
                        Err(error) => {
                            assert(done + Seq::<Seq<Option<Seq<char>>>>::empty() =~= done);
                            return Err(error);
                        },
                    }
                } else if tag == BackendTag::ErrorResponse.as_byte() {
                    assert(done + Seq::<Seq<Option<Seq<char>>>>::empty() =~= done);
                    return Err("auth query backend returned an error".to_owned());
                } else if tag == BackendTag::ReadyForQuery.as_byte() {
                    assert(done + Seq::<Seq<Option<Seq<char>>>>::empty() =~= done);
                    if payload.len() == 1 && payload[0] == 73 {
                        assert(payload@ =~= seq![73u8]);
                        return Ok(true);
                    }
                    return Err("auth query backend did not return idle status".to_owned());
                } else if tag == BackendTag::RowDescription.as_byte() || tag
                    == BackendTag::CommandComplete.as_byte() || tag
                    == BackendTag::ParameterStatus.as_byte() || tag
                    == BackendTag::BackendKeyData.as_byte() {
                } else {
                    assert(done + Seq::<Seq<Option<Seq<char>>>>::empty() =~= done);
                    return Err("unexpected auth query backend frame".to_owned());
                }
            },
        }
    }
}

/// Checks that more of an answer may be read.
pub fn check_query_room(buffered: usize, max_backend_buffer_bytes: usize) -> (r: Result<(), String>)
    ensures
        crate::config::complaint(r) == if buffered < max_backend_buffer_bytes {
            None
        } else {
            Some("auth query response exceeded buffer limit"@)
        },
        r is Ok <==> buffered < max_backend_buffer_bytes,
{
    if buffered < max_backend_buffer_bytes {
        Ok(())
    } else {
        Err("auth query response exceeded buffer limit".to_owned())
    }
}

/// Checks a read of an answer: that bytes came, and no more than there is room for.
pub fn check_query_read(
    read: usize,
    buffered: usize,
    max_backend_buffer_bytes: usize,
) -> (r: Result<(), String>)
    ensures
        crate::config::complaint(r) == if read == 0 {
            Some("backend closed during auth query"@)
        } else if buffered > max_backend_buffer_bytes {
            Some("auth query response exceeded buffer limit"@)
        } else {
            None
        },
        r is Ok <==> read > 0 && buffered <= max_backend_buffer_bytes,
{
    if read == 0 {
        return Err("backend closed during auth query".to_owned());
    }
    if buffered > max_backend_buffer_bytes {
        return Err("auth query response exceeded buffer limit".to_owned());
    }
    Ok(())
}

// ---------------------------------------------------------------------------
// The secret
// ---------------------------------------------------------------------------

/// The secret that a text writes.
pub open spec fn read_secret(text: Seq<char>) -> Result<SecretFacts, Seq<char>> {
    if has_prefix(text, "md5"@) {
        match read_md5_secret(text) {
            Some(hex) => Ok(SecretFacts::Md5(hex)),
            None => Err("invalid MD5 secret"@),
        }
    } else {
        match read_verifier(text) {
            Some(facts) => Ok(SecretFacts::Scram(facts)),
            None => Err("invalid SCRAM verifier"@),
        }
    }
}

/// Reads a secret.
pub fn parse_user_secret(secret: &str) -> (r: Result<UserSecret, String>)
    ensures
        match (r, read_secret(secret@)) {
            (Ok(parsed), Ok(facts)) => parsed@ == facts,
            (Err(error), Err(expected)) => error@ == expected,
            _ => false,
        },
{
    if starts_with(secret, "md5") {
        match Md5Secret::parse(secret) {
            Some(digest) => Ok(UserSecret::Md5(digest)),
            None => Err("invalid MD5 secret".to_owned()),
        }
    } else {
        match ScramVerifier::parse(secret) {
            Some(verifier) => Ok(UserSecret::ScramSha256(verifier)),
            None => Err("invalid SCRAM verifier".to_owned()),
        }
    }
}

/// The secret in the answer to a lookup of a user: none in an empty answer, and otherwise that of
/// the one row, which has to be the user's own.
pub open spec fn answered_secret(
    rows: Seq<Seq<Option<Seq<char>>>>,
    username: Seq<char>,
) -> Result<Option<SecretFacts>, Seq<char>> {
    if rows.len() == 0 {
        Ok(None)
    } else if rows.len() > 1 {
        Err("auth query returned duplicate rows"@)
    } else if rows[0].len() != 2 {
        Err("auth query returned unexpected row shape"@)
    } else if rows[0][0] is None {
        Err("auth query returned null username"@)
    } else if rows[0][0] != Some(username) {
        Err("auth query returned unexpected username"@)
    } else {
        match rows[0][1] {
            None => Err("auth query returned null secret"@),
            Some(text) => match read_secret(text) {
                Ok(facts) => Ok(Some(facts)),
                Err(error) => Err(error),
            },
        }
    }
}

/// The secret in the answer to a lookup of a user.
pub fn parse_auth_query_result(rows: &Vec<SimpleQueryRow>, expected_username: &str) -> (r: Result<
    Option<UserSecret>,
    String,
>)
    ensures
        match (r, answered_secret(row_views(rows@), expected_username@)) {
            (Ok(None), Ok(None)) => true,
            (Ok(Some(secret)), Ok(Some(facts))) => secret@ == facts,
            (Err(error), Err(expected)) => error@ == expected,
            _ => false,
        },
{
    assert(row_views(rows@).len() == rows@.len());
    if rows.is_empty() {
        return Ok(None);
    }
    if rows.len() > 1 {
        return Err("auth query returned duplicate rows".to_owned());
    }
    let row = &rows[0];
    assert(row_views(rows@)[0] == row@);
    assert(row@.len() == row.columns@.len());
    if row.columns.len() != 2 {
        return Err("auth query returned unexpected row shape".to_owned());
    }
    match &row.columns[0] {
        None => {
            return Err("auth query returned null username".to_owned());
        },
        Some(username) => {
            if !same_text(username.as_str(), expected_username) {
                return Err("auth query returned unexpected username".to_owned());
            }
        },
    }
    match &row.columns[1] {
        None => Err("auth query returned null secret".to_owned()),
        Some(secret) => match parse_user_secret(secret.as_str()) {
            Ok(parsed) => Ok(Some(parsed)),
            Err(error) => Err(error),
        },
    }
}

/// A lookup never gives a secret out of another user's row.
pub proof fn law_secret_is_the_users_own(
    rows: Seq<Seq<Option<Seq<char>>>>,
    username: Seq<char>,
)
    requires
        answered_secret(rows, username) matches Ok(Some(_)),
    ensures
        rows.len() == 1,
        rows[0].len() == 2,
        rows[0][0] == Some(username),
{
}

// ---------------------------------------------------------------------------
// What stays known
// ---------------------------------------------------------------------------

/// Secrets that were looked up, and when.
#[derive(Debug)]
pub struct AuthQueryCache {
    entries: Vec<(String, UserSecret, Duration)>,
}

/// The latest secret of each user, and when it was looked up.
pub open spec fn latest_lookups(entries: Seq<(String, UserSecret, Duration)>) -> Map<
    Seq<char>,
    (SecretFacts, nat),
>
    decreases entries.len(),
{
    if entries.len() == 0 {
        Map::empty()
    } else {
        latest_lookups(entries.drop_last()).insert(
            entries.last().0@,
            (entries.last().1@, entries.last().2@),
        )
    }
}

proof fn lemma_latest_lookups_set(
    entries: Seq<(String, UserSecret, Duration)>,
    i: int,
    entry: (String, UserSecret, Duration),
)
    requires
        0 <= i < entries.len(),
        entry.0@ == entries[i].0@,
        forall|j: int| i < j < entries.len() ==> (#[trigger] entries[j]).0@ != entry.0@,
    ensures
        latest_lookups(entries.update(i, entry)) == latest_lookups(entries).insert(
            entry.0@,
            (entry.1@, entry.2@),
        ),
    decreases entries.len(),
{
    let after = entries.update(i, entry);
    let front = entries.drop_last();
    if i == entries.len() - 1 {
        assert(after.drop_last() =~= front);
        assert(latest_lookups(after) =~= latest_lookups(entries).insert(entry.0@, (entry.1@, entry.2@)));
    } else {
        assert(after.drop_last() =~= front.update(i, entry));
        assert forall|j: int| i < j < front.len() implies (#[trigger] front[j]).0@ != entry.0@ by {
            assert(front[j] == entries[j]);
        }
        lemma_latest_lookups_set(front, i, entry);
        assert(entries.last() == entries[entries.len() - 1]);
        assert(latest_lookups(after) =~= latest_lookups(entries).insert(entry.0@, (entry.1@, entry.2@)));
    }
}

proof fn lemma_latest_lookups_keys(entries: Seq<(String, UserSecret, Duration)>, name: Seq<char>)
    ensures
        latest_lookups(entries).contains_key(name) <==> exists|i: int|
            0 <= i < entries.len() && (#[trigger] entries[i]).0@ == name,
    decreases entries.len(),
{
    if entries.len() > 0 {
        let front = entries.drop_last();
        lemma_latest_lookups_keys(front, name);
        if latest_lookups(front).contains_key(name) {
            let i = choose|i: int| 0 <= i < front.len() && (#[trigger] front[i]).0@ == name;
            assert(entries[i].0@ == name);
        }
        if exists|i: int| 0 <= i < entries.len() && (#[trigger] entries[i]).0@ == name {
            let i = choose|i: int| 0 <= i < entries.len() && (#[trigger] entries[i]).0@ == name;
            if i < front.len() {
                assert(front[i].0@ == name);
            }
        }
        assert(entries.last() == entries[entries.len() - 1]);
    }
}

impl View for AuthQueryCache {
    type V = Map<Seq<char>, (SecretFacts, nat)>;

    closed spec fn view(&self) -> Map<Seq<char>, (SecretFacts, nat)> {
        latest_lookups(self.entries@)
    }
}

/// Whether a user's secret is still known at a time: it was looked up less than `ttl` ago.
pub open spec fn still_known(
    cache: Map<Seq<char>, (SecretFacts, nat)>,
    username: Seq<char>,
    ttl: nat,
    now: nat,
) -> bool {
    ttl > 0 && cache.contains_key(username) && now < cache[username].1 + ttl
}

impl AuthQueryCache {
    /// That no user has two entries.
    pub closed spec fn wf(self) -> bool {
        forall|i: int, j: int|
            0 <= i < j < self.entries@.len() ==> (#[trigger] self.entries@[i]).0@
                != (#[trigger] self.entries@[j]).0@
    }

    /// How many entries are held.
    pub closed spec fn held(self) -> nat {
        self.entries@.len()
    }

    fn find(&self, name: &str) -> (r: Option<usize>)
        ensures
            match r {
                Some(i) => {
                    &&& i < self.entries@.len()
                    &&& self.entries@[i as int].0@ == name@
                    &&& forall|j: int|
                        i < j < self.entries@.len() ==> (#[trigger] self.entries@[j]).0@ != name@
                },
                None => forall|j: int|
                    0 <= j < self.entries@.len() ==> (#[trigger] self.entries@[j]).0@ != name@,
            },
    {
        let mut i: usize = self.entries.len();
        while i > 0
            invariant
                i <= self.entries@.len(),
                forall|j: int|
                    i <= j < self.entries@.len() ==> (#[trigger] self.entries@[j]).0@ != name@,
            decreases i,
        {
            i -= 1;
            if same_text(self.entries[i].0.as_str(), name) {
                return Some(i);
            }
        }
        None
    }

    /// Nothing is known.
    pub fn new() -> (r: AuthQueryCache)
        ensures
            r.wf(),
            r.held() == 0,
            r@ == Map::<Seq<char>, (SecretFacts, nat)>::empty(),
    {
        AuthQueryCache { entries: Vec::new() }
    }

    /// A user's secret, where it is still known. `now` is the time since the cache was made.
    pub fn get(&self, username: &str, ttl: Duration, now: Duration) -> (r: Option<&UserSecret>)
        ensures
            match r {
                Some(secret) => still_known(self@, username@, ttl@, now@) && secret@
                    == self@[username@].0,
                None => !still_known(self@, username@, ttl@, now@),
            },
    {
        if ttl.as_nanos() == 0 {
            return None;
        }
        let mut i: usize = self.entries.len();
        assert(self.entries@.take(i as int) =~= self.entries@);
        while i > 0
            invariant
                i <= self.entries@.len(),
                ttl@ > 0,
                latest_lookups(self.entries@.take(i as int)).contains_key(username@)
                    == self@.contains_key(username@),
                latest_lookups(self.entries@.take(i as int)).contains_key(username@)
                    ==> latest_lookups(self.entries@.take(i as int))[username@]
                    == self@[username@],
            decreases i,
        {
            let ghost upto = self.entries@.take(i as int);
            assert(upto.drop_last() =~= self.entries@.take(i - 1));
            assert(upto.last() == self.entries@[i - 1]);
            let entry = &self.entries[i - 1];
            if same_text(entry.0.as_str(), username) {
                let age = now.as_nanos().saturating_sub(entry.2.as_nanos());
                if age < ttl.as_nanos() {
                    return Some(&entry.1);
                }
                return None;
            }
            i -= 1;
        }
        None
    }

    /// Remembers a user's secret, in place of the one before. `now` is the time since the cache was
    /// made.
    pub fn put(&mut self, username: &str, secret: UserSecret, now: Duration)
        ensures
            final(self)@ == old(self)@.insert(username@, (secret@, now@)),
            old(self).wf() ==> final(self).wf(),
            final(self).held() == if old(self)@.contains_key(username@) {
                old(self).held()
            } else {
                old(self).held() + 1
            },
    {
        let ghost before = self.entries@;
        proof {
            lemma_latest_lookups_keys(before, username@);
        }
        match self.find(username) {
            Some(i) => {
                let entry = (username.to_owned(), secret, now);
                self.entries.set(i, entry);
                proof {
                    lemma_latest_lookups_set(before, i as int, entry);
                    assert forall|a: int, b: int|
                        0 <= a < b < before.len() && old(self).wf() implies (
                    #[trigger] self.entries@[a]).0@ != (#[trigger] self.entries@[b]).0@ by {
                        assert(self.entries@[a].0@ == before[a].0@);
                        assert(self.entries@[b].0@ == before[b].0@);
                    }
                }
            },
            None => {
                self.entries.push((username.to_owned(), secret, now));
                assert(self.entries@.drop_last() =~= before);
            },
        }
    }
}

/// With no time to live, nothing stays known.
pub proof fn law_zero_ttl_knows_nothing(
    cache: Map<Seq<char>, (SecretFacts, nat)>,
    username: Seq<char>,
    now: nat,
)
    ensures
        !still_known(cache, username, 0, now),
{
}

/// What is known is forgotten once its time has passed, and stays forgotten.
pub proof fn law_forgotten_stays_forgotten(
    cache: Map<Seq<char>, (SecretFacts, nat)>,
    username: Seq<char>,
    ttl: nat,
    now: nat,
    later: nat,
)
    requires
        now <= later,
        !still_known(cache, username, ttl, now),
    ensures
        !still_known(cache, username, ttl, later),
{
}

/// How a lookup begins.
pub enum LookupStart<'a> {
    /// The secret is known.
    Known(&'a UserSecret),
    /// The server is asked this query.
    Ask { sql: String },
}

/// Decides how a lookup begins: with what is known, or with a query, for which the proxy needs
/// credentials.
pub fn start_lookup<'a>(
    cache: &'a AuthQueryCache,
    auth: &AuthConfig,
    username: &str,
    now: Duration,
    has_credentials: bool,
) -> (r: Result<LookupStart<'a>, String>)
    ensures
        ({
            let ttl = (auth.auth_query_cache_ttl_ms * 1_000_000) as nat;
            if still_known(cache@, username@, ttl, now@) {
                r matches Ok(LookupStart::Known(secret)) && secret@ == cache@[username@].0
            } else if !has_credentials {
                r matches Err(error) && error@
                    == "auth query service credentials are not configured"@
            } else {
                match rendered_query(auth.auth_query@, username@) {
                    Some(query) => r matches Ok(LookupStart::Ask { sql }) && sql@ == query,
                    None => r matches Err(error) && error@
                        == "auth_query must contain exactly one $1 placeholder"@,
                }
            }
        }),
        r matches Ok(LookupStart::Known(secret)) ==> cache@.contains_key(username@) && now@
            < cache@[username@].1 + auth.auth_query_cache_ttl_ms * 1_000_000,
        r matches Ok(LookupStart::Ask { sql }) ==> has_credentials,
{
    let ttl = auth.auth_query_cache_ttl();
    if let Some(secret) = cache.get(username, ttl, now) {
        return Ok(LookupStart::Known(secret));
    }
    if !has_credentials {
        return Err("auth query service credentials are not configured".to_owned());
    }
    match render_auth_query(auth.auth_query.as_str(), username) {
        Ok(sql) => Ok(LookupStart::Ask { sql }),
        Err(error) => Err(error),
    }
}

/// How the login of a lookup goes on after a frame.
#[derive(Debug)]
pub enum LookupLogin {
    /// This is sent to the server.
    Send(bytes::BytesMut),
    /// More frames are waited for.
    Wait,
    /// The server waits for the query.
    Done,
}

/// Takes in a frame of the server before it waits for the query.
pub fn lookup_login_step(
    session: &mut BackendAuthSession,
    frame: &BackendFrame,
    backend_is_tls: bool,
) -> (r: Result<LookupLogin, String>)
    ensures
        frame@.tag == BackendTag::Authentication.byte() ==> {
            let step = login_step(old(session)@, frame@.payload, backend_is_tls);
            &&& final(session)@ == step.state
            &&& match step.reply {
                Ok(Some(message)) => r matches Ok(LookupLogin::Send(bytes)) && buffer_bytes(bytes)
                    == message,
                Ok(None) => r matches Ok(LookupLogin::Wait),
                Err(expected) => r matches Err(error) && error@ == expected,
            }
        },
        frame@.tag != BackendTag::Authentication.byte() ==> {
            &&& final(session)@ == old(session)@
            &&& match ready_status_of(frame@) {
                Some(ReadyStatus::Idle) => r matches Ok(LookupLogin::Done),
                Some(_) => r matches Err(error) && error@
                    == "auth query backend startup did not become idle"@,
                None => r matches Ok(LookupLogin::Wait),
            }
        },
        r matches Ok(LookupLogin::Done) ==> frame@.tag == 90u8 && frame@.payload == seq![73u8],
        frame@.tag != 82u8 ==> final(session)@ == old(session)@,
{
    if frame.tag == BackendTag::Authentication.as_byte() {
        return match session.respond(frozen_slice(&frame.payload), backend_is_tls) {
            Ok(Some(message)) => Ok(LookupLogin::Send(message)),
            Ok(None) => Ok(LookupLogin::Wait),
            Err(error) => Err(error),
        };
    }
    match frame.ready_status() {
        Some(ReadyStatus::Idle) => Ok(LookupLogin::Done),
        Some(_) => Err("auth query backend startup did not become idle".to_owned()),
        None => Ok(LookupLogin::Wait),
    }
}

/// A secret that was looked up is known for its time and no longer: from when it was looked up to
/// just before the time is over.
pub proof fn law_known_for_its_time(
    cache: Map<Seq<char>, (SecretFacts, nat)>,
    username: Seq<char>,
    ttl: nat,
    now: nat,
)
    ensures
        still_known(cache, username, ttl, now) <==> cache.contains_key(username) && 0 < ttl
            && cache[username].1 + ttl > now,
{
}

/// The query for a user's secret is the template with the user's quoted name in place of its only
/// `$1`; a template with none or several makes no query.
pub proof fn law_query_names_the_user(before: Seq<char>, after: Seq<char>, username: Seq<char>)
    requires
        pair_count(before + seq!['$', '1'] + after, '$', '1') == 1,
        forall|i: int|
            0 <= i < before.len() - 1 ==> !(#[trigger] before[i] == '$' && before[i + 1] == '1'),
    ensures
        rendered_query(before + seq!['$', '1'] + after, username) == Some(
            before + seq!['\''] + doubled_quotes(username) + seq!['\''] + after,
        ),
{
    let template = before + seq!['$', '1'] + after;
    lemma_pair_index_at(before, seq!['$', '1'] + after);
    assert(template =~= before + (seq!['$', '1'] + after));
    let at = before.len() as int;
    assert(template.take(at) =~= before);
    assert(template.skip(at + 2) =~= after);
    assert(before + quoted(username) + after =~= before + seq!['\''] + doubled_quotes(username)
        + seq!['\''] + after);
}

proof fn lemma_pair_index_at(before: Seq<char>, rest: Seq<char>)
    requires
        rest.len() >= 2,
        rest[0] == '$',
        rest[1] == '1',
        forall|i: int|
            0 <= i < before.len() - 1 ==> !(#[trigger] before[i] == '$' && before[i + 1] == '1'),
    ensures
        crate::text::pair_index(before + rest, '$', '1') == before.len(),
    decreases before.len(),
{
    if before.len() == 0 {
        assert(before + rest =~= rest);
    } else {
        let all = before + rest;
        let later = before.skip(1);
        assert(all.skip(1) =~= later + rest);
        assert forall|i: int| 0 <= i < later.len() - 1 implies !(#[trigger] later[i] == '$'
            && later[i + 1] == '1') by {
            assert(later[i] == before[i + 1] && later[i + 1] == before[i + 2]);
        }
        lemma_pair_index_at(later, rest);
        if before.len() >= 2 {
            assert(!(before[0] == '$' && before[1] == '1'));
            assert(all[0] == before[0] && all[1] == before[1]);
        } else {
            assert(all[1] == rest[0]);
        }
    }
}

/// What one message of the answer to a lookup means, by the byte that it begins with: a row (`D`),
/// the end (`Z` with `I`), nothing (`T`, `C`, `S`, `K`), and an error otherwise.
pub proof fn law_lookup_answer_by_tag(frame: Frame)
    ensures
        answer_part(frame) is Row ==> frame.tag == 68u8 && read_row(frame.payload)
            == Ok::<Seq<Option<Seq<char>>>, Seq<char>>(answer_part(frame)->Row_0),
        frame.tag == 68u8 ==> answer_part(frame) is Row || answer_part(frame) is Wrong,
        answer_part(frame) is End <==> frame.tag == 90u8 && frame.payload == seq![73u8],
        answer_part(frame) is Skip <==> frame.tag == 84u8 || frame.tag == 67u8 || frame.tag == 83u8
            || frame.tag == 75u8,
        frame.tag == 69u8 ==> answer_part(frame) is Wrong,
{
}

/// A user has the secret of the only row, where that row names the user; no row is no user, and
/// anything else is an error.
pub proof fn law_lookup_gives_one_user(rows: Seq<Seq<Option<Seq<char>>>>, username: Seq<char>)
    ensures
        answered_secret(rows, username) == Ok::<Option<SecretFacts>, Seq<char>>(None) <==> rows.len()
            == 0,
        answered_secret(rows, username) is Ok && rows.len() > 0 ==> {
            &&& rows.len() == 1 && rows[0].len() == 2 && rows[0][0] == Some(username)
            &&& rows[0][1] is Some
            &&& answered_secret(rows, username)->Ok_0 == Some(read_secret(rows[0][1]->0)->Ok_0)
            &&& read_secret(rows[0][1]->0) is Ok
        },
        rows.len() == 1 && rows[0].len() == 2 && rows[0][0] == Some(username) && rows[0][1] is Some
            && read_secret(rows[0][1]->0) is Ok ==> answered_secret(rows, username) is Ok,
{
}

/// What kind of secret a text is shows at its beginning.
pub proof fn law_secret_kind_shows(text: Seq<char>)
    ensures
        read_secret(text) matches Ok(facts) ==> {
            &&& !(facts is Trust)
            &&& facts is Md5 <==> has_prefix(text, "md5"@)
            &&& facts is Scram ==> has_prefix(text, "SCRAM-SHA-256$"@)
            &&& facts matches SecretFacts::Md5(hex) ==> text == "md5"@ + hex && hex.len() == 32
        },
{
    reveal_strlit("md5");
    if has_prefix(text, "md5"@) {
        assert(text =~= text.take(3) + text.skip(3));
    }
}

} // verus!
