//! The shape of each part of a full snapshot of the session.
//!
//! Instants are kept as they are written in the feed.

use std::collections::HashMap;
use vstd::prelude::*;

verus! {

/// The telemetry of all cars, one entry for each instant of measurement.
#[derive(Debug, Clone)]
pub struct CarData {
    pub entries: Vec<EntryElement>,
}

/// The telemetry of all cars at one instant, by racing number.
#[derive(Debug, Clone)]
pub struct EntryElement {
    pub utc: String,
    pub cars: HashMap<String, Car>,
}

/// The telemetry channels of one car, by channel number.
#[derive(Debug, Clone)]
pub struct Car {
    pub channels: HashMap<String, i64>,
}

/// One driver of the roster.
#[derive(Debug, Clone)]
pub struct DriverList {
    pub racing_number: String,
    pub broadcast_name: String,
    pub full_name: String,
    pub tla: String,
    pub line: i64,
    pub team_name: String,
    pub team_colour: String,
    pub first_name: String,
    pub last_name: String,
    pub reference: String,
    pub headshot_url: Option<String>,
    pub country_code: String,
    pub name_format: Option<String>,
}

/// The session clock: the time that remains, as of one instant.
#[derive(Debug, Clone)]
pub struct ExtrapolatedClock {
    pub utc: String,
    pub remaining: String,
    pub extrapolating: bool,
}

/// The messages of race control.
#[derive(Debug, Clone)]
pub struct RaceControlMessages {
    pub messages: Vec<RaceControlMessage>,
}

/// One message of race control.
#[derive(Debug, Clone)]
pub struct RaceControlMessage {
    pub utc: String,
    pub lap: Option<i64>,
    pub category: Category,
    pub flag: Option<Flag>,
    pub scope: Option<Scope>,
    pub message: String,
    pub sector: Option<i64>,
    pub status: Option<String>,
    pub mode: Option<String>,
}

/// What a message of race control is about.
#[derive(Debug, Clone)]
pub enum Category {
    Drs,
    Flag,
    Other,
    SafetyCar,
    CarEvent,
}

/// The flag that a message of race control shows.
#[derive(Debug, Clone)]
pub enum Flag {
    Chequered,
    Clear,
    DoubleYellow,
    Green,
    Yellow,
    Red,
    Blue,
    BlackAndWhite,
}

/// What a flag applies to.
#[derive(Debug, Clone)]
pub enum Scope {
    Sector,
    Track,
    Driver,
}

/// The course of the session: its laps or parts, and its changes of status.
#[derive(Debug, Clone)]
pub struct SessionData {
    pub series: Vec<Series>,
    pub status_series: Vec<StatusSery>,
}

/// The start of a lap or of a part of qualifying.
#[derive(Debug, Clone)]
pub struct Series {
    pub utc: String,
    pub lap: Option<i64>,
    pub qualifying_part: Option<i8>,
}

/// A change of the track's or the session's status.
#[derive(Debug, Clone)]
pub struct StatusSery {
    pub utc: String,
    pub track_status: Option<String>,
    pub session_status: Option<String>,
}

/// The recorded radio messages.
#[derive(Debug, Clone)]
pub struct TeamRadio {
    pub captures: Vec<Capture>,
}

/// One recorded radio message.
#[derive(Debug, Clone)]
pub struct Capture {
    pub utc: String,
    pub racing_number: String,
    pub path: String,
}

/// Tyres and stints, one line for each car, by racing number.
#[derive(Debug, Clone)]
pub struct TimingAppData {
    pub lines: HashMap<String, TimingAppDataLine>,
}

/// The stints of one car.
#[derive(Debug, Clone)]
pub struct TimingAppDataLine {
    pub racing_number: String,
    pub line: i64,
    pub grid_pos: Option<String>,
    pub stints: Option<Vec<Stint>>,
}

/// One stint on one set of tyres.
#[derive(Debug, Clone)]
pub struct Stint {
    pub lap_time: Option<String>,
    pub lap_number: Option<i64>,
    pub lap_flags: i64,
    pub compound: Compound,
    pub new: String,
    pub tyres_not_changed: String,
    pub total_laps: i64,
    pub start_laps: i64,
}

/// The compound of a set of tyres.
#[derive(Debug, Clone)]
pub enum Compound {
    Hard,
    Medium,
    Soft,
    Intermediate,
    Wet,
    Unknown,
}

/// The timing screen, one line for each car, by racing number.
#[derive(Debug, Clone)]
pub struct TimingData {
    pub session_part: Option<i8>,
    pub lines: HashMap<String, TimingDataLine>,
}

/// The line of one car on the timing screen.
#[derive(Debug, Clone)]
pub struct TimingDataLine {
    pub gap_to_leader: Option<String>,
    pub interval_to_position_ahead: Option<IntervalToPositionAhead>,
    pub line: i64,
    pub position: String,
    pub show_position: bool,
    pub racing_number: String,
    pub retired: bool,
    pub in_pit: bool,
    pub pit_out: bool,
    pub stopped: bool,
    pub status: i64,
    pub number_of_laps: Option<i64>,
    pub number_of_pit_stops: Option<i64>,
    pub sectors: Vec<Sector>,
    pub speeds: Speeds,
    pub best_lap_time: BestLapTime,
    pub last_lap_time: LastLapTime,
}

/// The best lap of a car.
#[derive(Debug, Clone)]
pub struct BestLapTime {
    pub value: String,
    pub lap: Option<i64>,
}

/// The gap to the car ahead.
#[derive(Debug, Clone)]
pub struct IntervalToPositionAhead {
    pub value: String,
    pub catching: bool,
}

/// A time or speed with the marks of the timing screen.
#[derive(Debug, Clone)]
pub struct LastLapTime {
    pub value: String,
    pub status: i64,
    pub overall_fastest: bool,
    pub personal_fastest: bool,
}

/// The time of one sector, with its segments.
#[derive(Debug, Clone)]
pub struct Sector {
    pub stopped: bool,
    pub previous_value: Option<String>,
    pub segments: Vec<Segment>,
    pub value: String,
    pub status: i64,
    pub overall_fastest: bool,
    pub personal_fastest: bool,
}

/// The state of one segment of a sector.
#[derive(Debug, Clone)]
pub struct Segment {
    pub status: i64,
}

/// The speeds at the four traps.
#[derive(Debug, Clone)]
pub struct Speeds {
    pub i1: LastLapTime,
    pub i2: LastLapTime,
    pub fl: LastLapTime,
    pub st: LastLapTime,
}

/// The bests of the session, one line for each car, by racing number.
#[derive(Debug, Clone)]
pub struct TimingStats {
    pub lines: HashMap<String, TimingStatsLine>,
    pub session_type: Option<String>,
}

/// The bests of one car.
#[derive(Debug, Clone)]
pub struct TimingStatsLine {
    pub line: i64,
    pub racing_number: String,
    pub personal_best_lap_time: PersonalBestLapTime,
    pub best_sectors: Vec<BestSector>,
    pub best_speeds: BestSpeeds,
}

/// A best value and the rank it has.
#[derive(Debug, Clone)]
pub struct BestSector {
    pub position: Option<i64>,
    pub value: String,
}

/// The best speeds at the four traps.
#[derive(Debug, Clone)]
pub struct BestSpeeds {
    pub i1: BestSector,
    pub i2: BestSector,
    pub fl: BestSector,
    pub st: BestSector,
}

/// The best lap of a car and the rank it has.
#[derive(Debug, Clone)]
pub struct PersonalBestLapTime {
    pub lap: Option<i64>,
    pub position: Option<i64>,
    pub value: String,
}

/// The first three of the classification.
#[derive(Debug, Clone)]
pub struct TopThree {
    pub lines: Vec<LineElement>,
}

/// One of the first three of the classification.
#[derive(Debug, Clone)]
pub struct LineElement {
    pub position: String,
    pub show_position: bool,
    pub racing_number: String,
    pub tla: String,
    pub broadcast_name: String,
    pub full_name: String,
    pub team: String,
    pub team_colour: String,
    pub lap_time: String,
    pub lap_state: i64,
    pub diff_to_ahead: String,
    pub diff_to_leader: String,
    pub overall_fastest: bool,
    pub personal_fastest: bool,
}

/// The positions of one car, lap by lap.
#[derive(Debug, Clone)]
pub struct LapSeries {
    pub racing_number: String,
    pub lap_position: Vec<String>,
}

} // verus!
