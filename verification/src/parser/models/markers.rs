//! The names by which the feed tags its categories, one type for each.

use vstd::prelude::*;

verus! {

/// The tag of the category `Heartbeat`.
#[derive(Debug, Clone)]
pub enum HeartbeatMarker {
    Heartbeat,
}

/// The tag of the category `ExtrapolatedClock`.
#[derive(Debug, Clone)]
pub enum ExtrapolatedClockMarker {
    ExtrapolatedClock,
}

/// The tag of the category `TopThree`.
#[derive(Debug, Clone)]
pub enum TopThreeMarker {
    TopThree,
}

/// The tag of the category `TimingStats`.
#[derive(Debug, Clone)]
pub enum TimingStatsMarker {
    TimingStats,
}

/// The tag of the category `TimingAppData`.
#[derive(Debug, Clone)]
pub enum TimingAppDataMarker {
    TimingAppData,
}

/// The tag of the category `WeatherData`.
#[derive(Debug, Clone)]
pub enum WeatherDataMarker {
    WeatherData,
}

/// The tag of the category `TrackStatus`.
#[derive(Debug, Clone)]
pub enum TrackStatusMarker {
    TrackStatus,
}

/// The tag of the category `RaceControlMessages`.
#[derive(Debug, Clone)]
pub enum RaceControlMessagesMarker {
    RaceControlMessages,
}

/// The tag of the category `SessionInfo`.
#[derive(Debug, Clone)]
pub enum SessionInfoMarker {
    SessionInfo,
}

/// The tag of the category `SessionData`.
#[derive(Debug, Clone)]
pub enum SessionDataMarker {
    SessionData,
}

/// The tag of the category `LapCount`.
#[derive(Debug, Clone)]
pub enum LapCountMarker {
    LapCount,
}

/// The tag of the category `TimingData`.
#[derive(Debug, Clone)]
pub enum TimingDataMarker {
    TimingData,
    TimingDataF1,
}

/// The tag of the category `TeamRadio`.
#[derive(Debug, Clone)]
pub enum TeamRadioMarker {
    TeamRadio,
}

/// The tag of the category `TlaRcm`.
#[derive(Debug, Clone)]
pub enum TlaRcmMarker {
    TlaRcm,
}

/// The tag of the category `PitLaneTimeCollection`.
#[derive(Debug, Clone)]
pub enum PitLaneTimeCollectionMarker {
    PitLaneTimeCollection,
}

/// The tag of the category `LapSeries`.
#[derive(Debug, Clone)]
pub enum LapSeriesMarker {
    LapSeries,
}

/// The tag of the category `DriverList`.
#[derive(Debug, Clone)]
pub enum DriverListMarker {
    DriverList,
}

/// The tag of the category `CarData`.
#[derive(Debug, Clone)]
pub enum CarDataMarker {
    CarData,
}

/// The tag of the category `Positions`.
#[derive(Debug, Clone)]
pub enum PositionsMarker {
    Positions,
}

} // verus!
