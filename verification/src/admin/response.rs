//! The messages in which the admin endpoint answers.
use vstd::prelude::*;

use crate::admin::tables::{
    column_facts, row_facts, AdminColumn, AdminColumnType, AdminRow, AdminTable, ColumnFacts,
    TableFacts,
};
use crate::backend_query::{read_columns, read_row};
use crate::buffer::{
    be16_at, be_at, be_bytes4, buffer_bytes, law_be_round_trip, new_buffer, put_bytes, put_i32,
    put_u8, wrap_i32,
};
use crate::replies::{authentication_ok, build_error_response, error_frame, request_frame};
use crate::text::{byte_len, decimal, join2, lemma_utf8_round_trip, usize_text, utf8_bytes};
use crate::wire::{lemma_wrapped_field, tagged_message, BackendTag, Frame};

verus! {

/// The low 16 bits of a number in two bytes, most significant first.
pub open spec fn be_bytes2(value: int) -> Seq<u8> {
    seq![((value / 0x100) % 0x100) as u8, (value % 0x100) as u8]
}

fn put_u16(buffer: &mut bytes::BytesMut, value: u16)
    ensures
        buffer_bytes(*final(buffer)) == buffer_bytes(*old(buffer)) + be_bytes2(value as int),
{
    put_u8(buffer, (value / 0x100) as u8);
    put_u8(buffer, (value % 0x100) as u8);
    assert(buffer_bytes(*buffer) =~= buffer_bytes(*old(buffer)) + be_bytes2(value as int));
}

// ---------------------------------------------------------------------------
// Tables
// ---------------------------------------------------------------------------

/// The number under which the server knows a type.
pub open spec fn type_number(column_type: AdminColumnType) -> int {
    match column_type {
        AdminColumnType::Text => 25,
        AdminColumnType::Int8 => 20,
        AdminColumnType::Float8 => 701,
        AdminColumnType::Bool => 16,
        AdminColumnType::Timestamp => 1114,
    }
}

/// How many bytes a value of a type has; 65535 stands for a length of its own.
pub open spec fn type_length(column_type: AdminColumnType) -> int {
    match column_type {
        AdminColumnType::Text => 0xffff,
        AdminColumnType::Bool => 1,
        _ => 8,
    }
}

fn admin_wire_type(column_type: AdminColumnType) -> (r: (i32, u16))
    ensures
        r.0 == type_number(column_type),
        r.1 == type_length(column_type),
{
    match column_type {
        AdminColumnType::Text => (25, 0xffff),
        AdminColumnType::Int8 => (20, 8),
        AdminColumnType::Float8 => (701, 8),
        AdminColumnType::Bool => (16, 1),
        AdminColumnType::Timestamp => (1114, 8),
    }
}

/// What a column's description says: its name, no table, its type, and that its values are text.
pub open spec fn column_bytes(column: ColumnFacts) -> Seq<u8> {
    utf8_bytes(column.name) + seq![0u8] + be_bytes4(0) + be_bytes2(0) + be_bytes4(
        type_number(column.column_type),
    ) + be_bytes2(type_length(column.column_type)) + be_bytes4(-1) + be_bytes2(0)
}

/// The descriptions of some columns.
pub open spec fn columns_bytes(columns: Seq<ColumnFacts>) -> Seq<u8>
    decreases columns.len(),
{
    if columns.len() == 0 {
        Seq::empty()
    } else {
        columns_bytes(columns.drop_last()) + column_bytes(columns.last())
    }
}

/// A value of a row: its length, and its text.
pub open spec fn value_bytes(value: Seq<char>) -> Seq<u8> {
    be_bytes4(byte_len(value) as int) + utf8_bytes(value)
}

/// The values of a row.
pub open spec fn values_bytes(values: Seq<Seq<char>>) -> Seq<u8>
    decreases values.len(),
{
    if values.len() == 0 {
        Seq::empty()
    } else {
        values_bytes(values.drop_last()) + value_bytes(values.last())
    }
}

/// What a row's message says: how many values there are, and the values.
pub open spec fn row_payload(values: Seq<Seq<char>>) -> Seq<u8> {
    be_bytes2(values.len() as int) + values_bytes(values)
}

/// The messages of some rows.
pub open spec fn rows_bytes(rows: Seq<Seq<Seq<char>>>) -> Seq<u8>
    decreases rows.len(),
{
    if rows.len() == 0 {
        Seq::empty()
    } else {
        rows_bytes(rows.drop_last()) + (Frame {
            tag: BackendTag::DataRow.byte(),
            payload: row_payload(rows.last()),
        }).encoded()
    }
}

/// The message that a server is ready, in no transaction.
pub open spec fn ready_bytes() -> Seq<u8> {
    (Frame { tag: BackendTag::ReadyForQuery.byte(), payload: seq![73u8] }).encoded()
}

/// The messages of a table: its columns, its rows, how many they are, and that the server is
/// ready.
pub open spec fn table_bytes(table: TableFacts) -> Seq<u8> {
    (Frame {
        tag: BackendTag::RowDescription.byte(),
        payload: be_bytes2(table.columns.len() as int) + columns_bytes(table.columns),
    }).encoded() + rows_bytes(table.rows) + (Frame {
        tag: BackendTag::CommandComplete.byte(),
        payload: utf8_bytes("SELECT "@ + decimal(table.rows.len())) + seq![0u8],
    }).encoded() + ready_bytes()
}

/// Whether a row can be written so that it can be read: not too many values, and none too long.
pub open spec fn row_writable(values: Seq<Seq<char>>) -> bool {
    &&& values.len() < 0x8000
    &&& forall|i: int| 0 <= i < values.len() ==> byte_len(#[trigger] values[i]) < 0x8000_0000
}

/// The values of a row as they are read: none is absent.
pub open spec fn present(values: Seq<Seq<char>>) -> Seq<Option<Seq<char>>> {
    values.map_values(|value: Seq<char>| Some(value))
}

proof fn lemma_values_prefix(values: Seq<Seq<char>>, k: int)
    requires
        0 <= k <= values.len(),
    ensures
        values_bytes(values.take(k)).len() <= values_bytes(values).len(),
        values_bytes(values).take(values_bytes(values.take(k)).len() as int) == values_bytes(
            values.take(k),
        ),
    decreases values.len() - k,
{
    if k == values.len() {
        assert(values.take(k) =~= values);
        assert(values_bytes(values).take(values_bytes(values).len() as int) =~= values_bytes(
            values,
        ));
    } else {
        lemma_values_prefix(values, k + 1);
        let shorter = values_bytes(values.take(k));
        let longer = values_bytes(values.take(k + 1));
        assert(values.take(k + 1).drop_last() =~= values.take(k));
        assert(longer == shorter + value_bytes(values[k]));
        assert(values_bytes(values).take(shorter.len() as int) =~= values_bytes(values).take(
            longer.len() as int,
        ).take(shorter.len() as int));
        assert(longer.take(shorter.len() as int) =~= shorter);
    }
}

proof fn lemma_value_length(value: Seq<char>)
    requires
        byte_len(value) < 0x8000_0000,
    ensures
        be_bytes4(byte_len(value) as int).len() == 4,
        be_at(be_bytes4(byte_len(value) as int), 0) == byte_len(value),
{
    law_be_round_trip(byte_len(value) as i32);
}

proof fn lemma_columns_read(values: Seq<Seq<char>>, k: nat)
    requires
        row_writable(values),
        k <= values.len(),
    ensures
        read_columns(row_payload(values), k) == Ok::<(Seq<Option<Seq<char>>>, int), Seq<char>>(
            (present(values.take(k as int)), 2 + values_bytes(values.take(k as int)).len() as int),
        ),
    decreases k,
{
    let payload = row_payload(values);
    if k == 0 {
        assert(present(values.take(0)) =~= Seq::empty());
        assert(values.take(0) =~= Seq::empty());
    } else {
        lemma_columns_read(values, (k - 1) as nat);
        let value = values[k - 1];
        let before = values_bytes(values.take(k - 1));
        let through = values_bytes(values.take(k as int));
        assert(values.take(k as int).drop_last() =~= values.take(k - 1));
        assert(values.take(k as int).last() == value);
        assert(through == before + value_bytes(value));
        lemma_values_prefix(values, k as int);
        lemma_value_length(value);
        let head = be_bytes2(values.len() as int);
        assert(head.len() == 2);
        let at: int = 2 + before.len() as int;
        let length: int = byte_len(value) as int;
        let field = be_bytes4(length as int);
        let all = values_bytes(values);
        assert forall|i: int| 0 <= i < 4 implies #[trigger] payload[at + i] == field[i] by {
            assert(payload[at + i] == all[before.len() + i]);
            assert(all.take(through.len() as int)[before.len() + i] == all[before.len() + i]);
            assert(through[before.len() + i] == value_bytes(value)[i]);
        }
        assert(payload[at + 0] == field[0]);
        assert(payload[at + 1] == field[1]);
        assert(payload[at + 2] == field[2]);
        assert(payload[at + 3] == field[3]);
        assert(be_at(payload, at as int) == be_at(field, 0));
        assert(payload.len() == 2 + all.len());
        assert(through.len() == before.len() + 4 + length);
        assert(payload.subrange(at + 4, at + 4 + length) =~= utf8_bytes(value)) by {
            assert forall|i: int| 0 <= i < length implies #[trigger] payload.subrange(
                at + 4,
                at + 4 + length,
            )[i] == utf8_bytes(value)[i] by {
                assert(payload[at + 4 + i] == all[before.len() + 4 + i]);
                assert(all.take(through.len() as int)[before.len() + 4 + i] == all[before.len() + 4
                    + i]);
                assert(through[before.len() + 4 + i] == value_bytes(value)[4 + i]);
            }
        }
        lemma_utf8_round_trip(value);
        assert(present(values.take(k as int)) =~= present(values.take(k - 1)).push(Some(value)));
    }
}

/// A row that is written is read back as it was, value by value.
pub proof fn law_row_reads_back(values: Seq<Seq<char>>)
    requires
        row_writable(values),
    ensures
        read_row(row_payload(values)) == Ok::<Seq<Option<Seq<char>>>, Seq<char>>(present(values)),
{
    let payload = row_payload(values);
    let count = values.len() as int;
    let head = be_bytes2(count);
    assert(payload[0] == head[0] && payload[1] == head[1]);
    assert(be16_at(payload, 0) == count) by {
        assert(head[0] == (count / 0x100) as u8);
        assert(head[1] == (count % 0x100) as u8);
    }
    lemma_columns_read(values, values.len());
    assert(values.take(count) =~= values);
}

fn put_text(buffer: &mut bytes::BytesMut, text: &str)
    ensures
        buffer_bytes(*final(buffer)) == buffer_bytes(*old(buffer)) + utf8_bytes(text@),
{
    put_bytes(buffer, text.as_bytes());
}

fn put_column(buffer: &mut bytes::BytesMut, column: &AdminColumn)
    ensures
        buffer_bytes(*final(buffer)) == buffer_bytes(*old(buffer)) + column_bytes(column@),
{
    let (number, length) = admin_wire_type(column.column_type);
    put_text(buffer, column.name);
    put_u8(buffer, 0);
    put_i32(buffer, 0);
    put_u16(buffer, 0);
    put_i32(buffer, number);
    put_u16(buffer, length);
    put_i32(buffer, -1);
    put_u16(buffer, 0);
    assert(buffer_bytes(*buffer) =~= buffer_bytes(*old(buffer)) + column_bytes(column@));
}

fn put_value(buffer: &mut bytes::BytesMut, value: &str)
    ensures
        buffer_bytes(*final(buffer)) == buffer_bytes(*old(buffer)) + value_bytes(value@),
{
    let bytes = value.as_bytes();
    put_i32(buffer, wrap_i32(bytes.len() as u128));
    put_bytes(buffer, bytes);
    proof {
        lemma_wrapped_field(byte_len(value@) as int);
        assert(buffer_bytes(*buffer) =~= buffer_bytes(*old(buffer)) + value_bytes(value@));
    }
}

fn data_row(row: &AdminRow) -> (r: bytes::BytesMut)
    requires
        row@.len() < 0x1_0000,
    ensures
        buffer_bytes(r) == (Frame {
            tag: BackendTag::DataRow.byte(),
            payload: row_payload(row@),
        }).encoded(),
{
    let mut payload = new_buffer();
    put_u16(&mut payload, row.values.len() as u16);
    let ghost head = buffer_bytes(payload);
    let mut i: usize = 0;
    proof {
        assert(row@.take(0) =~= Seq::empty());
        assert(head + values_bytes(row@.take(0)) =~= head);
        assert(head =~= be_bytes2(row@.len() as int));
    }
    while i < row.values.len()
        invariant
            i <= row.values@.len(),
            buffer_bytes(payload) == head + values_bytes(row@.take(i as int)),
        decreases row.values@.len() - i,
    {
        put_value(&mut payload, row.values[i].as_str());
        proof {
            assert(row@.take(i + 1).drop_last() =~= row@.take(i as int));
            assert(row@.take(i + 1).last() == row.values@[i as int]@);
            assert(buffer_bytes(payload) =~= head + values_bytes(row@.take(i + 1)));
        }
        i += 1;
    }
    assert(row@.take(i as int) =~= row@);
    tagged_message(BackendTag::DataRow.as_byte(), crate::buffer::buffer_slice(&payload))
}

/// That the columns, and the values of each row, can be counted in two bytes.
pub open spec fn table_countable(table: TableFacts) -> bool {
    &&& table.columns.len() < 0x1_0000
    &&& forall|i: int| 0 <= i < table.rows.len() ==> (#[trigger] table.rows[i]).len() < 0x1_0000
}

/// The messages of a table.
pub fn admin_table_response(table: &AdminTable) -> (r: bytes::BytesMut)
    requires
        table_countable(table@),
    ensures
        buffer_bytes(r) == table_bytes(table@),
{
    let mut payload = new_buffer();
    put_u16(&mut payload, table.columns.len() as u16);
    let ghost columns = column_facts(table.columns@);
    let ghost head = be_bytes2(columns.len() as int);
    let mut i: usize = 0;
    proof {
        assert(columns.take(0) =~= Seq::empty());
        assert(buffer_bytes(payload) =~= head + columns_bytes(columns.take(0)));
    }
    while i < table.columns.len()
        invariant
            i <= table.columns@.len(),
            columns == column_facts(table.columns@),
            buffer_bytes(payload) == head + columns_bytes(columns.take(i as int)),
        decreases table.columns@.len() - i,
    {
        put_column(&mut payload, &table.columns[i]);
        proof {
            assert(columns.take(i + 1).drop_last() =~= columns.take(i as int));
            assert(columns.take(i + 1).last() == table.columns@[i as int]@);
            assert(buffer_bytes(payload) =~= head + columns_bytes(columns.take(i + 1)));
        }
        i += 1;
    }
    assert(columns.take(i as int) =~= columns);
    let mut response = tagged_message(
        BackendTag::RowDescription.as_byte(),
        crate::buffer::buffer_slice(&payload),
    );
    let ghost described = buffer_bytes(response);
    let ghost rows = row_facts(table.rows@);
    let mut k: usize = 0;
    proof {
        assert(rows.take(0) =~= Seq::empty());
        assert(described =~= described + rows_bytes(rows.take(0)));
    }
    while k < table.rows.len()
        invariant
            k <= table.rows@.len(),
            rows == row_facts(table.rows@),
            rows == table@.rows,
            table_countable(table@),
            buffer_bytes(response) == described + rows_bytes(rows.take(k as int)),
        decreases table.rows@.len() - k,
    {
        assert(rows[k as int] == table.rows@[k as int]@);
        let row = data_row(&table.rows[k]);
        put_bytes(&mut response, crate::buffer::buffer_slice(&row));
        proof {
            assert(rows.take(k + 1).drop_last() =~= rows.take(k as int));
            assert(rows.take(k + 1).last() == rows[k as int]);
            assert(buffer_bytes(response) =~= described + rows_bytes(rows.take(k + 1)));
        }
        k += 1;
    }
    assert(rows.take(k as int) =~= rows);
    let mut done = new_buffer();
    put_text(&mut done, join2("SELECT ", usize_text(table.rows.len()).as_str()).as_str());
    put_u8(&mut done, 0);
    proof {
        assert(buffer_bytes(done) =~= utf8_bytes("SELECT "@ + decimal(table@.rows.len()))
            + seq![0u8]);
    }
    let complete = tagged_message(
        BackendTag::CommandComplete.as_byte(),
        crate::buffer::buffer_slice(&done),
    );
    put_bytes(&mut response, crate::buffer::buffer_slice(&complete));
    let ready = ready_for_query();
    put_bytes(&mut response, crate::buffer::buffer_slice(&ready));
    assert(buffer_bytes(response) =~= table_bytes(table@));
    response
}

// ---------------------------------------------------------------------------
// Other answers
// ---------------------------------------------------------------------------

/// The message that the endpoint is ready for the next query.
pub fn ready_for_query() -> (r: bytes::BytesMut)
    ensures
        buffer_bytes(r) == ready_bytes(),
{
    let mut status = new_buffer();
    put_u8(&mut status, 73);
    assert(buffer_bytes(status) =~= seq![73u8]);
    tagged_message(BackendTag::ReadyForQuery.as_byte(), crate::buffer::buffer_slice(&status))
}

/// The messages that let a client in: it need not authenticate, and the endpoint is ready.
pub open spec fn startup_ok_bytes() -> Seq<u8> {
    request_frame(0, Seq::empty()).encoded() + ready_bytes()
}

/// The messages that let a client in.
pub fn startup_ok_response() -> (r: bytes::BytesMut)
    ensures
        buffer_bytes(r) == startup_ok_bytes(),
{
    let mut response = authentication_ok();
    let ready = ready_for_query();
    put_bytes(&mut response, crate::buffer::buffer_slice(&ready));
    response
}

/// The messages of an error, after which the endpoint is ready again.
pub open spec fn error_bytes(sqlstate: Seq<char>, message: Seq<char>) -> Seq<u8> {
    error_frame(sqlstate, message).encoded() + ready_bytes()
}

/// The messages of an error, after which the endpoint is ready again.
pub fn error_response_and_ready(sqlstate: &str, message: &str) -> (r: bytes::BytesMut)
    ensures
        buffer_bytes(r) == error_bytes(sqlstate@, message@),
{
    let mut response = build_error_response(sqlstate, message);
    let ready = ready_for_query();
    put_bytes(&mut response, crate::buffer::buffer_slice(&ready));
    response
}

/// A table is sent as a description of its columns (`T`), a message for each row (`D`), the number
/// of rows (`C`), and the word that the server is idle (`Z` with `I`).
pub proof fn law_table_is_sent_whole(table: TableFacts)
    ensures
        table_bytes(table) == (Frame {
            tag: 84u8,
            payload: be_bytes2(table.columns.len() as int) + columns_bytes(table.columns),
        }).encoded() + rows_bytes(table.rows) + (Frame {
            tag: 67u8,
            payload: utf8_bytes("SELECT "@ + decimal(table.rows.len())) + seq![0u8],
        }).encoded() + (Frame { tag: 90u8, payload: seq![73u8] }).encoded(),
        rows_bytes(Seq::empty()) == Seq::<u8>::empty(),
{
}

/// Each further row is one message more, with a value for each column.
pub proof fn law_row_is_one_message(rows: Seq<Seq<Seq<char>>>, row: Seq<Seq<char>>)
    ensures
        rows_bytes(rows.push(row)) == rows_bytes(rows) + (Frame {
            tag: 68u8,
            payload: row_payload(row),
        }).encoded(),
{
    assert(rows.push(row).drop_last() =~= rows);
}

/// Each column is described by its name and the number and size of its type: 25 for text of any
/// length, 20 for whole numbers and 701 for others, 16 for truth values and 1114 for times.
pub proof fn law_column_types(column: ColumnFacts)
    ensures
        type_number(column.column_type) == (match column.column_type {
            AdminColumnType::Text => 25int,
            AdminColumnType::Int8 => 20int,
            AdminColumnType::Float8 => 701int,
            AdminColumnType::Bool => 16int,
            AdminColumnType::Timestamp => 1114int,
        }),
        column.column_type is Text <==> type_length(column.column_type) == 0xffff,
        column.column_type is Bool <==> type_length(column.column_type) == 1,
        !(column.column_type is Text) && !(column.column_type is Bool) ==> type_length(
            column.column_type,
        ) == 8,
{
}

} // verus!
