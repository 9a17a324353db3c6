//! The messages of the feed and the payloads that snapshots and updates share.
//!
//! An instant is a number of milliseconds since the Unix epoch.

use crate::parser::{format_with_fraction, naive_millis, parse_naive_millis};
use crate::value::Node;
use std::collections::HashMap;
use vstd::prelude::*;

pub mod data;
pub mod markers;
pub mod updates;

verus! {

/// One message of the feed: a batch of updates under `M`, or a snapshot under `R`.
#[derive(Debug)]
pub struct SocketMessage {
    pub m: Option<Vec<Message>>,
    pub r: Option<Data>,
}

/// One entry of a batch: its update under `A`.
#[derive(Debug)]
pub struct Message {
    pub a: Update,
}

/// A full snapshot of the session, part by part.
#[derive(Debug, Clone)]
pub struct Data {
    pub heartbeat: Heartbeat,
    pub extrapolated_clock: ExtrapolatedClock,
    pub top_three: data::TopThree,
    pub timing_stats: data::TimingStats,
    pub timing_app_data: data::TimingAppData,
    pub weather_data: WeatherData,
    pub track_status: TrackStatus,
    pub race_control_messages: data::RaceControlMessages,
    pub session_info: SessionInfo,
    pub session_data: data::SessionData,
    pub timing_data: data::TimingData,
    pub team_radio: Option<data::TeamRadio>,
    pub tla_rcm: Option<TlaRcm>,
    pub lap_count: Option<LapCount>,

    pub lap_series: HashMap<String, data::LapSeries>,

    pub driver_list: HashMap<String, data::DriverList>,

    pub car_data: CarData,
    pub position: Positions,
}

/// A partial update of one category: its tag, its payload and the text of its instant.
#[derive(Debug)]
pub enum Update {
    Heartbeat(markers::HeartbeatMarker, Heartbeat, String),
    TopThree(markers::TopThreeMarker, updates::TopThree, String),
    TimingStats(markers::TimingStatsMarker, updates::TimingStats, String),
    TimingAppData(markers::TimingAppDataMarker, updates::TimingAppData, String),
    WeatherData(markers::WeatherDataMarker, WeatherData, String),
    TrackStatus(markers::TrackStatusMarker, TrackStatus, String),
    SessionInfo(markers::SessionInfoMarker, SessionInfo, String),
    LapCount(markers::LapCountMarker, LapCount, String),
    TimingData(markers::TimingDataMarker, updates::TimingData, String),
    TeamRadio(markers::TeamRadioMarker, updates::TeamRadio, String),
    TlaRcm(markers::TlaRcmMarker, TlaRcm, String),

    ExtrapolatedClock(markers::ExtrapolatedClockMarker, ExtrapolatedClock, String),

    RaceControlMessages(
        markers::RaceControlMessagesMarker,
        updates::RaceControlMessages,
        String,
    ),

    PitLaneTimeCollection(
        markers::PitLaneTimeCollectionMarker,
        updates::PitLaneTimeCollection,
        String,
    ),

    LapSeries(
        markers::LapSeriesMarker,
        HashMap<String, updates::LapSeries>,
        String,
    ),

    SessionData(markers::SessionDataMarker, updates::SessionData, String),

    CarData(markers::CarDataMarker, CarData, String),

    Positions(markers::PositionsMarker, Positions, String),

    DriverList(markers::DriverListMarker, Node, String),
}

impl Update {
    /// The text of the instant that the update is stamped with.
    pub open spec fn stamp(&self) -> Seq<char> {
        match self {
            Update::Heartbeat(_, _, stamp) => stamp@,
            Update::TopThree(_, _, stamp) => stamp@,
            Update::TimingStats(_, _, stamp) => stamp@,
            Update::TimingAppData(_, _, stamp) => stamp@,
            Update::WeatherData(_, _, stamp) => stamp@,
            Update::TrackStatus(_, _, stamp) => stamp@,
            Update::SessionInfo(_, _, stamp) => stamp@,
            Update::LapCount(_, _, stamp) => stamp@,
            Update::TimingData(_, _, stamp) => stamp@,
            Update::TeamRadio(_, _, stamp) => stamp@,
            Update::TlaRcm(_, _, stamp) => stamp@,
            Update::ExtrapolatedClock(_, _, stamp) => stamp@,
            Update::RaceControlMessages(_, _, stamp) => stamp@,
            Update::PitLaneTimeCollection(_, _, stamp) => stamp@,
            Update::LapSeries(_, _, stamp) => stamp@,
            Update::SessionData(_, _, stamp) => stamp@,
            Update::CarData(_, _, stamp) => stamp@,
            Update::Positions(_, _, stamp) => stamp@,
            Update::DriverList(_, _, stamp) => stamp@,
        }
    }

    /// The instant of the update, read in the format with milliseconds; `None`
    /// where the stamp is not in that format.
    pub fn get_timestamp(&self) -> (instant: Option<i64>)
        ensures
            instant == naive_millis(self.stamp(), format_with_fraction()),
    {
        let stamp = match self {
            Update::Heartbeat(_, _, stamp) => stamp,
            Update::TopThree(_, _, stamp) => stamp,
            Update::TimingStats(_, _, stamp) => stamp,
            Update::TimingAppData(_, _, stamp) => stamp,
            Update::WeatherData(_, _, stamp) => stamp,
            Update::TrackStatus(_, _, stamp) => stamp,
            Update::SessionInfo(_, _, stamp) => stamp,
            Update::LapCount(_, _, stamp) => stamp,
            Update::TimingData(_, _, stamp) => stamp,
            Update::TeamRadio(_, _, stamp) => stamp,
            Update::TlaRcm(_, _, stamp) => stamp,
            Update::ExtrapolatedClock(_, _, stamp) => stamp,
            Update::RaceControlMessages(_, _, stamp) => stamp,
            Update::PitLaneTimeCollection(_, _, stamp) => stamp,
            Update::LapSeries(_, _, stamp) => stamp,
            Update::SessionData(_, _, stamp) => stamp,
            Update::CarData(_, _, stamp) => stamp,
            Update::Positions(_, _, stamp) => stamp,
            Update::DriverList(_, _, stamp) => stamp,
        };
        parse_naive_millis(stamp.as_str(), "%Y-%m-%dT%H:%M:%S%.3fZ")
    }
}

/// The sign of life of the feed.
#[derive(Debug, Clone)]
pub struct Heartbeat {
    pub utc: i64,
}

/// One reading of the weather station.
#[derive(Debug, Clone)]
pub struct WeatherData {
    pub air_temp: String,
    pub humidity: String,
    pub pressure: String,
    pub rainfall: String,
    pub track_temp: String,
    pub wind_direction: String,
    pub wind_speed: String,
}

/// A short message of race control for the timing screen.
#[derive(Debug, Clone)]
pub struct TlaRcm {
    timestamp: i64,
    message: String,
}

/// The current lap and the number of laps.
#[derive(Debug, Clone)]
pub struct LapCount {
    pub current_lap: Option<i64>,
    pub total_laps: Option<i64>,
}

/// The status of the track.
#[derive(Debug, Clone)]
pub struct TrackStatus {
    pub status: String,
    pub message: String,
}

/// What session this is.
#[derive(Debug, Clone)]
pub struct SessionInfo {
    pub meeting: Meeting,
    pub archive_status: ArchiveStatus,
    pub key: i64,
    pub session_info_type: String,
    pub name: String,
    pub start_date: String,
    pub end_date: String,
    pub gmt_offset: String,
    pub path: String,
}

/// Whether the session is archived.
#[derive(Debug, Clone)]
pub struct ArchiveStatus {
    pub status: String,
}

/// The meeting that the session belongs to.
#[derive(Debug, Clone)]
pub struct Meeting {
    pub key: i64,
    pub name: String,
    pub official_name: String,
    pub location: String,
    pub country: Country,
    pub circuit: Circuit,
}

/// The circuit of a meeting.
#[derive(Debug, Clone)]
pub struct Circuit {
    pub key: i64,
    pub short_name: String,
}

/// The country of a meeting.
#[derive(Debug, Clone)]
pub struct Country {
    pub key: i64,
    pub code: String,
    pub name: String,
}

/// The positions of all cars on the track, one entry for each instant.
#[derive(Debug, Clone)]
pub struct Positions {
    pub position: Vec<PositionElement>,
}

/// The positions of all cars at one instant, by racing number.
#[derive(Debug, Clone)]
pub struct PositionElement {
    pub timestamp: i64,
    pub entries: HashMap<String, EntryValue>,
}

/// Where one car is.
#[derive(Debug, Clone)]
pub struct EntryValue {
    pub status: DriverStatus,
    pub x: i64,
    pub y: i64,
    pub z: i64,
}

/// Whether a car is on the track.
#[derive(Debug, Clone)]
pub enum DriverStatus {
    OnTrack,
    OffTrack,
}

/// The session clock: the time that remains, as of one instant.
#[derive(Debug, Clone)]
pub struct ExtrapolatedClock {
    pub utc: i64,
    pub remaining: String,
    pub extrapolating: Option<bool>,
}

/// The telemetry of all cars, one entry for each instant of measurement.
#[derive(Debug, Clone)]
pub struct CarData {
    pub entries: Vec<EntryElement>,
}

/// The telemetry of all cars at one instant, by racing number.
#[derive(Debug, Clone)]
pub struct EntryElement {
    pub utc: i64,
    pub cars: HashMap<String, Car>,
}

/// The telemetry channels of one car, by channel number.
#[derive(Debug, Clone)]
pub struct Car {
    pub channels: HashMap<String, i64>,
}

/// One recorded radio message.
#[derive(Debug, Clone)]
pub struct Capture {
    pub utc: i64,
    pub racing_number: String,
    pub path: String,
}

} // verus!
