//! The BaseStation message: one line of the receiver's feed, read field by
//! field into a typed record.
//!
//! A line is a list of fields separated by commas. A field has no name; its
//! place in the line says what it means. Reading never fails: a field that
//! the line is too short to hold, or that does not denote a value of its
//! type, is left absent.

use crate::decimal::{is_real_text, Decimal};
use crate::number::{parse_i32, parse_u32, parse_u8, text_as_i32, text_as_u32, text_as_u8};
use crate::text::{
    chars_of, free_of, joined, lemma_pieces_free_of_sep, lemma_pieces_joined, pieces, split_on,
};
use vstd::prelude::*;

verus! {

/// The number of places in a full line.
pub const FIELD_COUNT: usize = 22;

/// One message of the feed.
#[derive(Debug, Clone, PartialEq, Eq)]
pub struct BaseStationMessage {
    /// The kind of message, such as `MSG` or `STA`: the first field.
    pub message_type: String,
    /// The sub-kind of a transmission message.
    pub transmission_type: Option<u8>,
    pub session_id: Option<u32>,
    pub aircraft_id: Option<u32>,
    /// The aircraft's 24-bit address in hexadecimal.
    pub hex_ident: Option<String>,
    pub flight_id: Option<u32>,
    /// The day of the event as the source wrote it, `YYYY/MM/DD`; not checked
    /// against the calendar.
    pub generated_date: String,
    pub generated_time: String,
    pub logged_date: String,
    pub logged_time: String,
    pub callsign: Option<String>,
    pub altitude: Option<i32>,
    pub ground_speed: Option<Decimal>,
    pub track: Option<Decimal>,
    pub latitude: Option<Decimal>,
    pub longitude: Option<Decimal>,
    pub vertical_rate: Option<i32>,
    pub squawk: Option<String>,
    pub alert: Option<bool>,
    pub emergency: Option<bool>,
    pub spi: Option<bool>,
    pub is_on_ground: Option<bool>,
}

/// What a message holds, with each text as its sequence of characters.
pub struct MessageView {
    pub message_type: Seq<char>,
    pub transmission_type: Option<u8>,
    pub session_id: Option<u32>,
    pub aircraft_id: Option<u32>,
    pub hex_ident: Option<Seq<char>>,
    pub flight_id: Option<u32>,
    pub generated_date: Seq<char>,
    pub generated_time: Seq<char>,
    pub logged_date: Seq<char>,
    pub logged_time: Seq<char>,
    pub callsign: Option<Seq<char>>,
    pub altitude: Option<i32>,
    pub ground_speed: Option<Seq<char>>,
    pub track: Option<Seq<char>>,
    pub latitude: Option<Seq<char>>,
    pub longitude: Option<Seq<char>>,
    pub vertical_rate: Option<i32>,
    pub squawk: Option<Seq<char>>,
    pub alert: Option<bool>,
    pub emergency: Option<bool>,
    pub spi: Option<bool>,
    pub is_on_ground: Option<bool>,
}

/// The characters of an optional text.
pub open spec fn text_view(text: Option<String>) -> Option<Seq<char>> {
    match text {
        Some(t) => Some(t@),
        None => None,
    }
}

/// The characters of an optional decimal real.
pub open spec fn real_view(value: Option<Decimal>) -> Option<Seq<char>> {
    match value {
        Some(r) => Some(r@),
        None => None,
    }
}

impl View for BaseStationMessage {
    type V = MessageView;

    open spec fn view(&self) -> MessageView {
        MessageView {
            message_type: self.message_type@,
            transmission_type: self.transmission_type,
            session_id: self.session_id,
            aircraft_id: self.aircraft_id,
            hex_ident: text_view(self.hex_ident),
            flight_id: self.flight_id,
            generated_date: self.generated_date@,
            generated_time: self.generated_time@,
            logged_date: self.logged_date@,
            logged_time: self.logged_time@,
            callsign: text_view(self.callsign),
            altitude: self.altitude,
            ground_speed: real_view(self.ground_speed),
            track: real_view(self.track),
            latitude: real_view(self.latitude),
            longitude: real_view(self.longitude),
            vertical_rate: self.vertical_rate,
            squawk: text_view(self.squawk),
            alert: self.alert,
            emergency: self.emergency,
            spi: self.spi,
            is_on_ground: self.is_on_ground,
        }
    }
}

/// The field at place `at`, if the line is long enough to hold it.
pub open spec fn field_at(fields: Seq<Seq<char>>, at: int) -> Option<Seq<char>> {
    if 0 <= at < fields.len() {
        Some(fields[at])
    } else {
        None
    }
}

/// A text that every message has: the field itself, or the empty text when
/// the line does not reach it.
pub open spec fn plain_text(field: Option<Seq<char>>) -> Seq<char> {
    match field {
        Some(t) => t,
        None => Seq::empty(),
    }
}

/// A `u8` field: absent unless the line reaches it and it denotes a `u8`.
pub open spec fn small_number(field: Option<Seq<char>>) -> Option<u8> {
    match field {
        Some(t) => text_as_u8(t),
        None => None,
    }
}

/// A `u32` field: absent unless the line reaches it and it denotes a `u32`.
pub open spec fn identifier(field: Option<Seq<char>>) -> Option<u32> {
    match field {
        Some(t) => text_as_u32(t),
        None => None,
    }
}

/// An `i32` field: absent unless the line reaches it and it denotes an `i32`.
pub open spec fn signed_number(field: Option<Seq<char>>) -> Option<i32> {
    match field {
        Some(t) => text_as_i32(t),
        None => None,
    }
}

/// A real field: absent unless the line reaches it and it is the text of a
/// decimal real.
pub open spec fn real_number(field: Option<Seq<char>>) -> Option<Seq<char>> {
    match field {
        Some(t) => if is_real_text(t) {
            Some(t)
        } else {
            None
        },
        None => None,
    }
}

/// What a flag's text says: `-1` is true, `0` is false, and any other text
/// leaves the flag absent.
pub open spec fn flag_of(text: Seq<char>) -> Option<bool> {
    if text == seq!['-', '1'] {
        Some(true)
    } else if text == seq!['0'] {
        Some(false)
    } else {
        None
    }
}

/// A flag field: absent unless the line reaches it and it is `-1` or `0`.
pub open spec fn flag(field: Option<Seq<char>>) -> Option<bool> {
    match field {
        Some(t) => flag_of(t),
        None => None,
    }
}

/// The message that a list of fields makes, each field read by its place.
pub open spec fn message_from(fields: Seq<Seq<char>>) -> MessageView {
    MessageView {
        message_type: plain_text(field_at(fields, 0)),
        transmission_type: small_number(field_at(fields, 1)),
        session_id: identifier(field_at(fields, 2)),
        aircraft_id: identifier(field_at(fields, 3)),
        hex_ident: field_at(fields, 4),
        flight_id: identifier(field_at(fields, 5)),
        generated_date: plain_text(field_at(fields, 6)),
        generated_time: plain_text(field_at(fields, 7)),
        logged_date: plain_text(field_at(fields, 8)),
        logged_time: plain_text(field_at(fields, 9)),
        callsign: field_at(fields, 10),
        altitude: signed_number(field_at(fields, 11)),
        ground_speed: real_number(field_at(fields, 12)),
        track: real_number(field_at(fields, 13)),
        latitude: real_number(field_at(fields, 14)),
        longitude: real_number(field_at(fields, 15)),
        vertical_rate: signed_number(field_at(fields, 16)),
        squawk: field_at(fields, 17),
        alert: flag(field_at(fields, 18)),
        emergency: flag(field_at(fields, 19)),
        spi: flag(field_at(fields, 20)),
        is_on_ground: flag(field_at(fields, 21)),
    }
}

/// The message that a line denotes: the line is cut at its commas and the
/// fields are read by their places.
pub open spec fn message_of(line: Seq<char>) -> MessageView {
    message_from(pieces(line, ','))
}

/// The characters of a field that may be missing.
pub open spec fn field_view(field: Option<&str>) -> Option<Seq<char>> {
    match field {
        Some(t) => Some(t@),
        None => None,
    }
}

/// The field at place `at`, if there is one.
pub fn nth_field<'a>(fields: &Vec<&'a str>, at: usize) -> (out: Option<&'a str>)
    ensures
        match out {
            Some(t) => field_at(fields.deep_view(), at as int) == Some(t@),
            None => field_at(fields.deep_view(), at as int) is None,
        },
{
    if at < fields.len() {
        Some(fields[at])
    } else {
        None
    }
}

/// Reads a field that every message has.
fn read_plain_text(field: Option<&str>) -> (out: String)
    ensures
        out@ == plain_text(field_view(field)),
{
    match field {
        Some(t) => t.to_owned(),
        None => String::new(),
    }
}

/// Reads an optional text field.
fn read_text(field: Option<&str>) -> (out: Option<String>)
    ensures
        text_view(out) == field_view(field),
{
    match field {
        Some(t) => Some(t.to_owned()),
        None => None,
    }
}

/// Reads a `u8` field.
fn read_small_number(field: Option<&str>) -> (out: Option<u8>)
    ensures
        out == small_number(field_view(field)),
{
    match field {
        Some(t) => parse_u8(t),
        None => None,
    }
}

/// Reads a `u32` field.
fn read_identifier(field: Option<&str>) -> (out: Option<u32>)
    ensures
        out == identifier(field_view(field)),
{
    match field {
        Some(t) => parse_u32(t),
        None => None,
    }
}

/// Reads an `i32` field.
fn read_signed_number(field: Option<&str>) -> (out: Option<i32>)
    ensures
        out == signed_number(field_view(field)),
{
    match field {
        Some(t) => parse_i32(t),
        None => None,
    }
}

/// Reads a real field.
fn read_real_number(field: Option<&str>) -> (out: Option<Decimal>)
    ensures
        real_view(out) == real_number(field_view(field)),
{
    match field {
        Some(t) => Decimal::parse(t),
        None => None,
    }
}

/// Reads the text of a flag.
pub fn read_flag(text: &str) -> (out: Option<bool>)
    ensures
        out == flag_of(text@),
{
    let chars = chars_of(text);
    if chars.len() == 2 && chars[0] == '-' && chars[1] == '1' {
        assert(chars@ =~= seq!['-', '1']);
        Some(true)
    } else if chars.len() == 1 && chars[0] == '0' {
        assert(chars@ =~= seq!['0']);
        Some(false)
    } else {
        proof {
            if chars@ == seq!['-', '1'] {
                assert(chars@[0] == '-' && chars@[1] == '1');
            }
            if chars@ == seq!['0'] {
                assert(chars@[0] == '0');
            }
        }
        None
    }
}

/// Reads a flag field.
fn read_flag_field(field: Option<&str>) -> (out: Option<bool>)
    ensures
        out == flag(field_view(field)),
{
    match field {
        Some(t) => read_flag(t),
        None => None,
    }
}

/// Reads one line of the feed into a message. Every line is read: a field
/// that is missing or that denotes no value of its type is left absent, and
/// a missing kind, date or time is the empty text.
pub fn parse_socket_data(line: &str) -> (message: BaseStationMessage)
    ensures
        message@ == message_of(line@),
{
    let fields = split_on(line, ',');
    BaseStationMessage {
        message_type: read_plain_text(nth_field(&fields, 0)),
        transmission_type: read_small_number(nth_field(&fields, 1)),
        session_id: read_identifier(nth_field(&fields, 2)),
        aircraft_id: read_identifier(nth_field(&fields, 3)),
        hex_ident: read_text(nth_field(&fields, 4)),
        flight_id: read_identifier(nth_field(&fields, 5)),
        generated_date: read_plain_text(nth_field(&fields, 6)),
        generated_time: read_plain_text(nth_field(&fields, 7)),
        logged_date: read_plain_text(nth_field(&fields, 8)),
        logged_time: read_plain_text(nth_field(&fields, 9)),
        callsign: read_text(nth_field(&fields, 10)),
        altitude: read_signed_number(nth_field(&fields, 11)),
        ground_speed: read_real_number(nth_field(&fields, 12)),
        track: read_real_number(nth_field(&fields, 13)),
        latitude: read_real_number(nth_field(&fields, 14)),
        longitude: read_real_number(nth_field(&fields, 15)),
        vertical_rate: read_signed_number(nth_field(&fields, 16)),
        squawk: read_text(nth_field(&fields, 17)),
        alert: read_flag_field(nth_field(&fields, 18)),
        emergency: read_flag_field(nth_field(&fields, 19)),
        spi: read_flag_field(nth_field(&fields, 20)),
        is_on_ground: read_flag_field(nth_field(&fields, 21)),
    }
}

/// A line of `FIELD_COUNT` fields gives every field back: joined by commas
/// and read again, each place holds what its field denotes, the texts
/// unchanged.
pub proof fn lemma_full_line_round_trip(fields: Seq<Seq<char>>)
    requires
        fields.len() == FIELD_COUNT,
        forall|i: int| 0 <= i < fields.len() ==> free_of(#[trigger] fields[i], ','),
    ensures
        message_of(joined(fields, ',')) == (MessageView {
            message_type: fields[0],
            transmission_type: text_as_u8(fields[1]),
            session_id: text_as_u32(fields[2]),
            aircraft_id: text_as_u32(fields[3]),
            hex_ident: Some(fields[4]),
            flight_id: text_as_u32(fields[5]),
            generated_date: fields[6],
            generated_time: fields[7],
            logged_date: fields[8],
            logged_time: fields[9],
            callsign: Some(fields[10]),
            altitude: text_as_i32(fields[11]),
            ground_speed: real_number(Some(fields[12])),
            track: real_number(Some(fields[13])),
            latitude: real_number(Some(fields[14])),
            longitude: real_number(Some(fields[15])),
            vertical_rate: text_as_i32(fields[16]),
            squawk: Some(fields[17]),
            alert: flag_of(fields[18]),
            emergency: flag_of(fields[19]),
            spi: flag_of(fields[20]),
            is_on_ground: flag_of(fields[21]),
        }),
{
    lemma_pieces_joined(fields, ',');
}

/// A short line is read as far as it goes: every line has one field at
/// least, and in a line of `n` fields every place from `n` on is absent
/// where the field is optional and the empty text where it is not.
pub proof fn lemma_short_line(line: Seq<char>)
    ensures
        ({
            let n = pieces(line, ',').len();
            let m = message_of(line);
            &&& n >= 1
            &&& m.message_type == pieces(line, ',')[0]
            &&& n <= 1 ==> m.transmission_type is None
            &&& n <= 2 ==> m.session_id is None
            &&& n <= 3 ==> m.aircraft_id is None
            &&& n <= 4 ==> m.hex_ident is None
            &&& n <= 5 ==> m.flight_id is None
            &&& n <= 6 ==> m.generated_date.len() == 0
            &&& n <= 7 ==> m.generated_time.len() == 0
            &&& n <= 8 ==> m.logged_date.len() == 0
            &&& n <= 9 ==> m.logged_time.len() == 0
            &&& n <= 10 ==> m.callsign is None
            &&& n <= 11 ==> m.altitude is None
            &&& n <= 12 ==> m.ground_speed is None
            &&& n <= 13 ==> m.track is None
            &&& n <= 14 ==> m.latitude is None
            &&& n <= 15 ==> m.longitude is None
            &&& n <= 16 ==> m.vertical_rate is None
            &&& n <= 17 ==> m.squawk is None
            &&& n <= 18 ==> m.alert is None
            &&& n <= 19 ==> m.emergency is None
            &&& n <= 20 ==> m.spi is None
            &&& n <= 21 ==> m.is_on_ground is None
        }),
{
    lemma_pieces_free_of_sep(line, ',');
}

/// A text field that the line reaches is kept as it stands, be it empty: in
/// a line of more than `at` fields, the field at place `at` is present.
pub proof fn lemma_reached_field_is_present(line: Seq<char>, at: int)
    requires
        0 <= at < pieces(line, ',').len(),
    ensures
        field_at(pieces(line, ','), at) == Some(pieces(line, ',')[at]),
        plain_text(field_at(pieces(line, ','), at)) == pieces(line, ',')[at],
{
}

} // verus!
