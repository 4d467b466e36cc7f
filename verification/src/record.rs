//! The record of a BaseStation file: one line of seventeen fields or more,
//! read by place into a record in which every field has a value.
//!
//! Unlike a message of the feed, a record has no absent fields: a number
//! that its field does not denote is zero, and the alert flag is set exactly
//! when its field is `-1`.

use crate::decimal::{is_real_text, Decimal};
use crate::message::{flag_of, read_flag};
use crate::number::{parse_i32, text_as_i32};
use crate::text::{pieces, split_on};
use vstd::prelude::*;

verus! {

/// The number of fields that a record is read from.
pub const RECORD_FIELD_COUNT: usize = 17;

/// One record of a BaseStation file.
#[derive(Debug, PartialEq, Eq)]
pub struct BaseStationRecord {
    /// The day, `YYYY/MM/DD`.
    pub date: String,
    /// The time of day, `HH:MM:SS.sss`.
    pub time: String,
    pub unique_id: String,
    pub hex_ident: String,
    pub callsign: String,
    pub country: String,
    /// A field whose meaning is not known; kept as it stands.
    pub unknown_field: String,
    pub altitude: i32,
    pub pressure_altitude: i32,
    pub latitude: Decimal,
    pub longitude: Decimal,
    pub vertical_rate: i32,
    pub heading: Decimal,
    pub ground_speed: Decimal,
    pub track: Decimal,
    pub squawk: String,
    pub alert_flag: bool,
}

/// What a record holds, with each text as its sequence of characters.
pub struct RecordView {
    pub date: Seq<char>,
    pub time: Seq<char>,
    pub unique_id: Seq<char>,
    pub hex_ident: Seq<char>,
    pub callsign: Seq<char>,
    pub country: Seq<char>,
    pub unknown_field: Seq<char>,
    pub altitude: i32,
    pub pressure_altitude: i32,
    pub latitude: Seq<char>,
    pub longitude: Seq<char>,
    pub vertical_rate: i32,
    pub heading: Seq<char>,
    pub ground_speed: Seq<char>,
    pub track: Seq<char>,
    pub squawk: Seq<char>,
    pub alert_flag: bool,
}

impl View for BaseStationRecord {
    type V = RecordView;

    open spec fn view(&self) -> RecordView {
        RecordView {
            date: self.date@,
            time: self.time@,
            unique_id: self.unique_id@,
            hex_ident: self.hex_ident@,
            callsign: self.callsign@,
            country: self.country@,
            unknown_field: self.unknown_field@,
            altitude: self.altitude,
            pressure_altitude: self.pressure_altitude,
            latitude: self.latitude@,
            longitude: self.longitude@,
            vertical_rate: self.vertical_rate,
            heading: self.heading@,
            ground_speed: self.ground_speed@,
            track: self.track@,
            squawk: self.squawk@,
            alert_flag: self.alert_flag,
        }
    }
}

/// The `i32` that a field denotes, or zero where it denotes none.
pub open spec fn number_or_zero(field: Seq<char>) -> i32 {
    match text_as_i32(field) {
        Some(value) => value,
        None => 0,
    }
}

/// The text of the real that a field denotes: the field itself where it is
/// the text of a decimal real, and `0` where it is not.
pub open spec fn real_or_zero(field: Seq<char>) -> Seq<char> {
    if is_real_text(field) {
        field
    } else {
        "0"@
    }
}

/// The record that a list of seventeen fields or more makes, each field
/// read by its place.
pub open spec fn record_from(fields: Seq<Seq<char>>) -> RecordView
    recommends
        fields.len() >= RECORD_FIELD_COUNT,
{
    RecordView {
        date: fields[0],
        time: fields[1],
        unique_id: fields[2],
        hex_ident: fields[3],
        callsign: fields[4],
        country: fields[5],
        unknown_field: fields[6],
        altitude: number_or_zero(fields[7]),
        pressure_altitude: number_or_zero(fields[8]),
        latitude: real_or_zero(fields[9]),
        longitude: real_or_zero(fields[10]),
        vertical_rate: number_or_zero(fields[11]),
        heading: real_or_zero(fields[12]),
        ground_speed: real_or_zero(fields[13]),
        track: real_or_zero(fields[14]),
        squawk: fields[15],
        alert_flag: flag_of(fields[16]) == Some(true),
    }
}

/// The record that a line denotes: the line is cut at its commas and the
/// fields are read by their places.
pub open spec fn record_of(line: Seq<char>) -> RecordView
    recommends
        pieces(line, ',').len() >= RECORD_FIELD_COUNT,
{
    record_from(pieces(line, ','))
}

/// Reads a number, taking zero where the field denotes none.
fn read_number_or_zero(field: &str) -> (out: i32)
    ensures
        out == number_or_zero(field@),
{
    match parse_i32(field) {
        Some(value) => value,
        None => 0,
    }
}

/// Reads a real, taking zero where the field is not the text of one.
fn read_real_or_zero(field: &str) -> (out: Decimal)
    ensures
        out@ == real_or_zero(field@),
{
    match Decimal::parse(field) {
        Some(value) => value,
        None => Decimal::zero(),
    }
}

/// The number of fields that `line` falls into at its commas; never zero.
pub fn field_count(line: &str) -> (out: usize)
    ensures
        out == pieces(line@, ',').len(),
        out >= 1,
{
    let fields = split_on(line, ',');
    proof {
        crate::text::lemma_pieces_free_of_sep(line@, ',');
    }
    fields.len()
}

/// Reads one line of a BaseStation file into a record. The line must have
/// seventeen fields at least; fields beyond the seventeenth are not read.
pub fn parse_bst_record(line: &str) -> (record: BaseStationRecord)
    requires
        pieces(line@, ',').len() >= RECORD_FIELD_COUNT,
    ensures
        record@ == record_of(line@),
{
    let fields = split_on(line, ',');
    proof {
        let views = fields.deep_view();
        assert forall|i: int| 0 <= i < 17 implies views[i] == (#[trigger] fields[i])@ by {}
    }
    BaseStationRecord {
        date: fields[0].to_owned(),
        time: fields[1].to_owned(),
        unique_id: fields[2].to_owned(),
        hex_ident: fields[3].to_owned(),
        callsign: fields[4].to_owned(),
        country: fields[5].to_owned(),
        unknown_field: fields[6].to_owned(),
        altitude: read_number_or_zero(fields[7]),
        pressure_altitude: read_number_or_zero(fields[8]),
        latitude: read_real_or_zero(fields[9]),
        longitude: read_real_or_zero(fields[10]),
        vertical_rate: read_number_or_zero(fields[11]),
        heading: read_real_or_zero(fields[12]),
        ground_speed: read_real_or_zero(fields[13]),
        track: read_real_or_zero(fields[14]),
        squawk: fields[15].to_owned(),
        alert_flag: match read_flag(fields[16]) {
            Some(set) => set,
            None => false,
        },
    }
}

} // verus!
