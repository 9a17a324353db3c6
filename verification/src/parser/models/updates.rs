//! The shape of a partial update of each category: as in a snapshot, but with
//! nearly every field optional.
//!
//! An instant is a number of milliseconds since the Unix epoch.

use std::collections::HashMap;
use vstd::prelude::*;

verus! {

/// One driver of the roster.
#[derive(Debug, Clone)]
pub struct Driver {
    pub racing_number: String,
    pub broadcast_name: String,
    pub full_name: String,
    pub tla: String,
    pub line: i64,
    pub team_name: String,
    pub team_colour: String,
    pub first_name: String,
    pub last_name: String,
    pub reference: String,
    pub headshot_url: Option<String>,
    pub country_code: String,
    pub name_format: Option<String>,
}

/// The messages of race control.
#[derive(Debug, Clone)]
pub struct RaceControlMessages {
    pub messages: Vec<RaceControlMessage>,
}

/// One message of race control.
#[derive(Debug, Clone)]
pub struct RaceControlMessage {
    pub utc: i64,
    pub lap: Option<i64>,
    pub category: Category,
    pub flag: Option<Flag>,
    pub scope: Option<Scope>,
    pub message: String,
    pub sector: Option<i64>,
    pub status: Option<String>,
    pub mode: Option<String>,
    pub racing_number: Option<String>,
}

/// What a message of race control is about.
#[derive(Debug, Clone)]
pub enum Category {
    Drs,
    Flag,
    Other,
    SafetyCar,
    CarEvent,
}

/// The flag that a message of race control shows.
#[derive(Debug, Clone)]
pub enum Flag {
    Chequered,
    Clear,
    DoubleYellow,
    Green,
    Yellow,
    Red,
    Blue,
    BlackAndWhite,
}

/// What a flag applies to.
#[derive(Debug, Clone)]
pub enum Scope {
    Sector,
    Track,
    Driver,
}

/// The course of the session: its laps or parts, and its changes of status.
#[derive(Debug, Clone)]
pub struct SessionData {
    pub series: Option<HashMap<String, Lap>>,
    pub status_series: Option<HashMap<String, Status>>,
}

/// The start of a lap or of a part of qualifying.
#[derive(Debug, Clone)]
pub struct Lap {
    pub utc: i64,
    pub lap: Option<i64>,
    pub qualifying_part: Option<i8>,
}

/// A change of the track's or the session's status.
#[derive(Debug, Clone)]
pub struct Status {
    pub utc: i64,
    pub track_status: Option<String>,
    pub session_status: Option<String>,
}

/// The recorded radio messages.
#[derive(Debug, Clone)]
pub struct TeamRadio {
    pub captures: Vec<super::Capture>,
}

/// Tyres and stints, one line for each car, by racing number.
#[derive(Debug, Clone)]
pub struct TimingAppData {
    pub lines: HashMap<String, TimingAppDataLine>,
}

/// The stints of one car.
#[derive(Debug, Clone)]
pub struct TimingAppDataLine {
    pub racing_number: Option<String>,
    pub line: Option<i64>,
    pub grid_pos: Option<String>,
    pub stints: Option<Vec<Stint>>,
}

/// One stint on one set of tyres.
#[derive(Debug, Clone)]
pub struct Stint {
    pub lap_time: Option<String>,
    pub lap_number: Option<i64>,
    pub lap_flags: Option<i64>,
    pub compound: Option<Compound>,
    pub new: Option<String>,
    pub tyres_not_changed: Option<String>,
    pub total_laps: Option<i64>,
    pub start_laps: Option<i64>,
}

/// The compound of a set of tyres.
#[derive(Debug, Clone)]
pub enum Compound {
    Hard,
    Medium,
    Soft,
    Intermediate,
    Wet,
    Unknown,
}

/// The timing screen, one line for each car, by racing number.
#[derive(Debug, Clone)]
pub struct TimingData {
    pub session_part: Option<i8>,
    pub lines: HashMap<String, TimingDataLine>,
}

/// The line of one car on the timing screen.
#[derive(Debug, Clone)]
pub struct TimingDataLine {
    pub gap_to_leader: Option<String>,
    pub interval_to_position_ahead: Option<IntervalToPositionAhead>,
    pub line: Option<i64>,
    pub position: Option<String>,
    pub show_position: Option<bool>,
    pub racing_number: Option<String>,
    pub retired: Option<bool>,
    pub in_pit: Option<bool>,
    pub pit_out: Option<bool>,
    pub knocked_out: Option<bool>,
    pub stopped: Option<bool>,
    pub status: Option<i64>,
    pub number_of_laps: Option<i64>,
    pub number_of_pit_stops: Option<i64>,
    pub sectors: Option<Vec<Sector>>,
    pub speeds: Option<Speeds>,

    pub best_lap_times: Option<Vec<BestLapTime>>,

    pub best_lap_time: Option<BestLapTime>,
    pub last_lap_time: Option<LastLapTime>,
}

/// The best lap of a car.
#[derive(Debug, Clone)]
pub struct BestLapTime {
    pub value: String,
    pub lap: Option<i64>,
    pub deleted: Option<Vec<String>>,
}

/// The gap to the car ahead.
#[derive(Debug, Clone)]
pub struct IntervalToPositionAhead {
    pub value: Option<String>,
    pub catching: Option<bool>,
}

/// A time or speed with the marks of the timing screen.
#[derive(Debug, Clone)]
pub struct LastLapTime {
    pub value: Option<String>,
    pub status: Option<i64>,
    pub overall_fastest: Option<bool>,
    pub personal_fastest: Option<bool>,
}

/// The time of one sector, with its segments.
#[derive(Debug, Clone)]
pub struct Sector {
    pub stopped: Option<bool>,
    pub previous_value: Option<String>,
    pub segments: Option<Vec<Segment>>,
    pub value: Option<String>,
    pub status: Option<i64>,
    pub overall_fastest: Option<bool>,
    pub personal_fastest: Option<bool>,
}

/// The state of one segment of a sector.
#[derive(Debug, Clone)]
pub struct Segment {
    pub status: i64,
}

/// The speeds at the four traps.
#[derive(Debug, Clone)]
pub struct Speeds {
    pub i1: Option<LastLapTime>,
    pub i2: Option<LastLapTime>,
    pub fl: Option<LastLapTime>,
    pub st: Option<LastLapTime>,
}

/// The bests of the session, one line for each car, by racing number.
#[derive(Debug, Clone)]
pub struct TimingStats {
    pub lines: HashMap<String, TimingStatsLine>,
    pub session_type: Option<String>,
}

/// The bests of one car.
#[derive(Debug, Clone)]
pub struct TimingStatsLine {
    pub line: Option<i64>,
    pub racing_number: Option<String>,
    pub personal_best_lap_time: Option<PersonalBestLapTime>,
}

/// A best value and the rank it has.
#[derive(Debug, Clone)]
pub struct BestSector {
    pub value: String,
    pub position: Option<i64>,
    pub overall_fastest: Option<bool>,
    pub personal_fastest: Option<bool>,
}

/// The best speeds at the four traps.
#[derive(Debug, Clone)]
pub struct BestSpeeds {
    pub i1: Option<BestSector>,
    pub i2: Option<BestSector>,
    pub fl: Option<BestSector>,
    pub st: Option<BestSector>,
}

/// The best lap of a car and the rank it has.
#[derive(Debug, Clone)]
pub struct PersonalBestLapTime {
    pub lap: Option<i64>,
    pub position: Option<i64>,
    pub value: Option<String>,
}

/// The first three of the classification.
#[derive(Debug, Clone)]
pub struct TopThree {
    pub lines: Vec<LineElement>,
}

/// One of the first three of the classification.
#[derive(Debug, Clone)]
pub struct LineElement {
    pub position: Option<String>,
    pub show_position: Option<bool>,
    pub racing_number: Option<String>,
    pub tla: Option<String>,
    pub broadcast_name: Option<String>,
    pub full_name: Option<String>,
    pub team: Option<String>,
    pub team_colour: Option<String>,
    pub lap_time: Option<String>,
    pub lap_state: Option<i64>,
    pub diff_to_ahead: Option<String>,
    pub diff_to_leader: Option<String>,
    pub overall_fastest: Option<bool>,
    pub personal_fastest: Option<bool>,
}

/// The times spent in the pit lane, by racing number.
#[derive(Debug, Clone)]
pub struct PitLaneTimeCollection {
    pub pit_times: HashMap<String, PitTimeEnum>,
}

/// A time in the pit lane, or the list of the entries that were removed.
#[derive(Debug, Clone)]
pub enum PitTimeEnum {
    PitTime(PitTime),
    Deleted(Vec<String>),
}

/// One time spent in the pit lane.
#[derive(Debug, Clone)]
pub struct PitTime {
    pub racing_number: String,
    pub duration: String,
    pub lap: String,
}

/// The positions of one car, lap by lap.
#[derive(Debug, Clone)]
pub struct LapSeries {
    pub lap_position: HashMap<String, String>,
}

} // verus!
