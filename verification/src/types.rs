//! Domain types of the timetable API: typed identifiers, route and
//! disruption classifications, and the response entities that hold plain
//! values. Identifiers are integer newtypes, distinguished only to prevent
//! accidental cross-use between identifier spaces.

use vstd::prelude::*;

use crate::error::DecodeError;
use crate::num::{i32_of_str, signed_int_from_string};

verus! {

/// Identifier of a stop.
#[derive(Debug, Clone, Copy, PartialEq, Eq, Structural)]
pub struct StopId(pub i32);

/// Identifier of a route.
#[derive(Debug, Clone, Copy, PartialEq, Eq, Structural)]
pub struct RouteId(pub i32);

/// Numeric identifier of a trip/service run.
#[derive(Debug, Clone, Copy, PartialEq, Eq, Structural)]
pub struct RunId(pub i32);

/// Identifier of a direction of travel.
#[derive(Debug, Clone, Copy, PartialEq, Eq, Structural)]
pub struct DirectionId(pub i32);

/// Identifier of a disruption.
#[derive(Debug, Clone, Copy, PartialEq, Eq, Structural)]
pub struct DisruptionId(pub i32);

/// Types of routes.
#[derive(Debug, Clone, Copy, PartialEq, Eq, Structural)]
pub enum RouteType {
    /// Metropolitan train service
    Train,
    /// Metropolitan tram service
    Tram,
    /// Bus service
    Bus,
    /// V/Line regional train service
    VLine,
    /// Night Bus service
    NightBus,
    /// Other route type
    Other(i8),
}

/// The numeric code of a route type on the wire.
pub open spec fn route_type_code(rt: RouteType) -> int {
    match rt {
        RouteType::Train => 0,
        RouteType::Tram => 1,
        RouteType::Bus => 2,
        RouteType::VLine => 3,
        RouteType::NightBus => 4,
        RouteType::Other(x) => x as int,
    }
}

impl RouteType {
    /// The numeric code this route type takes on the wire.
    pub fn as_code(&self) -> (r: i8)
        ensures
            r as int == route_type_code(*self),
    {
        match self {
            RouteType::Train => 0,
            RouteType::Tram => 1,
            RouteType::Bus => 2,
            RouteType::VLine => 3,
            RouteType::NightBus => 4,
            RouteType::Other(x) => *x,
        }
    }

    /// The route type a numeric code denotes; codes without a name stay
    /// numeric.
    pub fn from_code(code: i8) -> (r: RouteType)
        ensures
            route_type_code(r) == code as int,
            code == 0 ==> r is Train,
            code == 1 ==> r is Tram,
            code == 2 ==> r is Bus,
            code == 3 ==> r is VLine,
            code == 4 ==> r is NightBus,
            !(0 <= code <= 4) ==> r == RouteType::Other(code),
    {
        match code {
            0 => RouteType::Train,
            1 => RouteType::Tram,
            2 => RouteType::Bus,
            3 => RouteType::VLine,
            4 => RouteType::NightBus,
            x => RouteType::Other(x),
        }
    }
}

/// Modes of disruption.
#[derive(Debug, Clone, Copy, PartialEq, Eq, Structural)]
pub enum DisruptionModes {
    MetroTrain,
    MetroBus,
    MetroTram,
    RegionalCoach,
    RegionalTrain,
    RegionalBus,
    SchoolBus,
    Telebus,
    NightBus,
    Ferry,
    InterstateTrain,
    Skybus,
    Taxi,
    General,
}

/// The numeric code of a disruption mode on the wire.
pub open spec fn disruption_mode_number(m: DisruptionModes) -> int {
    match m {
        DisruptionModes::MetroTrain => 1,
        DisruptionModes::MetroBus => 2,
        DisruptionModes::MetroTram => 3,
        DisruptionModes::RegionalCoach => 4,
        DisruptionModes::RegionalTrain => 5,
        DisruptionModes::RegionalBus => 7,
        DisruptionModes::SchoolBus => 8,
        DisruptionModes::Telebus => 9,
        DisruptionModes::NightBus => 10,
        DisruptionModes::Ferry => 11,
        DisruptionModes::InterstateTrain => 12,
        DisruptionModes::Skybus => 13,
        DisruptionModes::Taxi => 14,
        DisruptionModes::General => 100,
    }
}

impl DisruptionModes {
    /// The numeric code this disruption mode takes in a query string.
    pub fn as_number(&self) -> (r: i8)
        ensures
            r as int == disruption_mode_number(*self),
    {
        match self {
            DisruptionModes::MetroTrain => 1,
            DisruptionModes::MetroBus => 2,
            DisruptionModes::MetroTram => 3,
            DisruptionModes::RegionalCoach => 4,
            DisruptionModes::RegionalTrain => 5,
            DisruptionModes::RegionalBus => 7,
            DisruptionModes::SchoolBus => 8,
            DisruptionModes::Telebus => 9,
            DisruptionModes::NightBus => 10,
            DisruptionModes::Ferry => 11,
            DisruptionModes::InterstateTrain => 12,
            DisruptionModes::Skybus => 13,
            DisruptionModes::Taxi => 14,
            DisruptionModes::General => 100,
        }
    }
}

/// Which objects a response should expand in full.
#[derive(Debug, Clone, Copy, PartialEq, Eq, Structural)]
pub enum ExpandOptions {
    All,
    Stop,
    Route,
    Run,
    Direction,
    Disruption,
    VehiclePosition,
    VehicleDescriptor,
    /// The upstream's explicit "expand nothing" choice, spelled `None`
    /// on the wire.
    NoExpand,
}

/// The text of an expand option in a query string: the variant's name.
pub open spec fn expand_str(e: ExpandOptions) -> Seq<char> {
    match e {
        ExpandOptions::All => seq!['A', 'l', 'l'],
        ExpandOptions::Stop => seq!['S', 't', 'o', 'p'],
        ExpandOptions::Route => seq!['R', 'o', 'u', 't', 'e'],
        ExpandOptions::Run => seq!['R', 'u', 'n'],
        ExpandOptions::Direction => seq!['D', 'i', 'r', 'e', 'c', 't', 'i', 'o', 'n'],
        ExpandOptions::Disruption => seq!['D', 'i', 's', 'r', 'u', 'p', 't', 'i', 'o', 'n'],
        ExpandOptions::VehiclePosition => seq![
            'V', 'e', 'h', 'i', 'c', 'l', 'e', 'P', 'o', 's', 'i', 't', 'i', 'o', 'n',
        ],
        ExpandOptions::VehicleDescriptor => seq![
            'V', 'e', 'h', 'i', 'c', 'l', 'e', 'D', 'e', 's', 'c', 'r', 'i', 'p', 't', 'o', 'r',
        ],
        ExpandOptions::NoExpand => seq!['N', 'o', 'n', 'e'],
    }
}

impl ExpandOptions {
    /// The text this option takes in a query string.
    pub fn as_str(&self) -> (r: &'static str)
        ensures
            r@ == expand_str(*self),
    {
        let r = match self {
            ExpandOptions::All => "All",
            ExpandOptions::Stop => "Stop",
            ExpandOptions::Route => "Route",
            ExpandOptions::Run => "Run",
            ExpandOptions::Direction => "Direction",
            ExpandOptions::Disruption => "Disruption",
            ExpandOptions::VehiclePosition => "VehiclePosition",
            ExpandOptions::VehicleDescriptor => "VehicleDescriptor",
            ExpandOptions::NoExpand => "None",
        };
        proof {
            reveal_strlit("All");
            reveal_strlit("Stop");
            reveal_strlit("Route");
            reveal_strlit("Run");
            reveal_strlit("Direction");
            reveal_strlit("Disruption");
            reveal_strlit("VehiclePosition");
            reveal_strlit("VehicleDescriptor");
            reveal_strlit("None");
            assert(r@ =~= expand_str(*self));
        }
        r
    }
}

/// Status of a disruption.
#[derive(Debug, Clone, Copy, PartialEq, Eq, Structural)]
pub enum DisruptionStatus {
    Current,
    Planned,
}

/// The text of a disruption status in a query string: the lower-case
/// variant name.
pub open spec fn status_str(s: DisruptionStatus) -> Seq<char> {
    match s {
        DisruptionStatus::Current => seq!['c', 'u', 'r', 'r', 'e', 'n', 't'],
        DisruptionStatus::Planned => seq!['p', 'l', 'a', 'n', 'n', 'e', 'd'],
    }
}

impl DisruptionStatus {
    /// The text this status takes in a query string.
    pub fn as_str(&self) -> (r: &'static str)
        ensures
            r@ == status_str(*self),
    {
        let r = match self {
            DisruptionStatus::Current => "current",
            DisruptionStatus::Planned => "planned",
        };
        proof {
            reveal_strlit("current");
            reveal_strlit("planned");
            assert(r@ =~= status_str(*self));
        }
        r
    }
}

/// The status a text denotes, tolerating either letter case on the first
/// letter, since upstream responses capitalize what query strings spell
/// in lower case.
pub open spec fn status_of_str(s: Seq<char>) -> Option<DisruptionStatus> {
    if s == status_str(DisruptionStatus::Current) || s == seq![
        'C', 'u', 'r', 'r', 'e', 'n', 't',
    ] {
        Some(DisruptionStatus::Current)
    } else if s == status_str(DisruptionStatus::Planned) || s == seq![
        'P', 'l', 'a', 'n', 'n', 'e', 'd',
    ] {
        Some(DisruptionStatus::Planned)
    } else {
        Option::None
    }
}

impl DisruptionStatus {
    /// Decode a status text.
    pub fn from_str(s: &str) -> (r: Option<DisruptionStatus>)
        ensures
            r == status_of_str(s@),
    {
        let n = s.unicode_len();
        if n != 7 {
            proof {
                assert(status_of_str(s@) is None);
            }
            return Option::None;
        }
        let c0 = s.get_char(0);
        let c1 = s.get_char(1);
        let c2 = s.get_char(2);
        let c3 = s.get_char(3);
        let c4 = s.get_char(4);
        let c5 = s.get_char(5);
        let c6 = s.get_char(6);
        if (c0 == 'c' || c0 == 'C') && c1 == 'u' && c2 == 'r' && c3 == 'r' && c4 == 'e' && c5
            == 'n' && c6 == 't' {
            proof {
                if c0 == 'c' {
                    assert(s@ =~= status_str(DisruptionStatus::Current));
                } else {
                    assert(s@ =~= seq!['C', 'u', 'r', 'r', 'e', 'n', 't']);
                }
            }
            Some(DisruptionStatus::Current)
        } else if (c0 == 'p' || c0 == 'P') && c1 == 'l' && c2 == 'a' && c3 == 'n' && c4 == 'n'
            && c5 == 'e' && c6 == 'd' {
            proof {
                if c0 == 'p' {
                    assert(s@ =~= status_str(DisruptionStatus::Planned));
                } else {
                    assert(s@ =~= seq!['P', 'l', 'a', 'n', 'n', 'e', 'd']);
                }
            }
            Some(DisruptionStatus::Planned)
        } else {
            proof {
                assert(s@ != status_str(DisruptionStatus::Current));
                assert(s@ != seq!['C', 'u', 'r', 'r', 'e', 'n', 't']);
                assert(s@ != status_str(DisruptionStatus::Planned));
                assert(s@ != seq!['P', 'l', 'a', 'n', 'n', 'e', 'd']);
            }
            Option::None
        }
    }
}

/// An integer the upstream encodes as a JSON string.
#[derive(Debug, Clone, Copy, PartialEq, Eq, Structural)]
pub struct I32ButSilly(pub i32);

impl I32ButSilly {
    /// Decode the JSON-string-encoded integer form the upstream uses.
    pub fn from_str(s: &str) -> (r: Result<I32ButSilly, DecodeError>)
        ensures
            match r {
                Ok(v) => i32_of_str(s@) == Some(v.0),
                Err(e) => i32_of_str(s@) is None && e.input@ == s@,
            },
    {
        match signed_int_from_string(s) {
            Ok(v) => Ok(I32ButSilly(v)),
            Err(e) => Err(e),
        }
    }
}

/// API status and metadata attached to most responses.
#[derive(Debug, Clone, PartialEq, Eq)]
pub struct Status {
    /// API version number
    pub version: String,
    /// API system health status (0 = offline, 1 = online)
    pub health: i8,
}

/// The upstream's structured error body.
#[derive(Debug, Clone, PartialEq, Eq)]
pub struct ApiError {
    pub message: String,
    pub status: Status,
}

/// A route's names and numbers.
#[derive(Debug, Clone, PartialEq, Eq)]
pub struct Route {
    pub route_type: RouteType,
    pub id: RouteId,
    pub name: String,
    pub number: String,
    pub gtfs_id: String,
}

/// A direction of travel of a route.
#[derive(Debug, Clone, PartialEq, Eq)]
pub struct Direction {
    pub id: DirectionId,
    pub name: String,
    pub route_id: RouteId,
    pub route_type: RouteType,
}

/// A direction of travel with its description.
#[derive(Debug, Clone, PartialEq, Eq)]
pub struct DirectionWithDescription {
    pub direction: Direction,
    pub description: String,
}

/// Directions of travel of a route.
#[derive(Debug, Clone, PartialEq, Eq)]
pub struct DirectionsResponse {
    pub directions: Vec<DirectionWithDescription>,
    pub status: Status,
}

/// A stop relevant to a disruption.
#[derive(Debug, Clone, PartialEq, Eq)]
pub struct DisruptionStop {
    pub id: StopId,
    pub name: String,
}

/// Fare zone information of a fare estimate.
#[derive(Debug, Clone, PartialEq, Eq)]
pub struct ZoneInfo {
    pub min_zone: i32,
    pub max_zone: i32,
    pub unique_zones: Vec<i32>,
}

/// Passenger classes a fare estimate distinguishes.
#[derive(Debug, Clone, Copy, PartialEq, Eq, Structural)]
pub enum PassengerType {
    Senior,
    Concession,
    FullFare,
}

/// Service status for a route.
#[derive(Debug, Clone, PartialEq, Eq)]
pub struct RouteServiceStatus {
    pub description: String,
    pub timestamp: String,
}

/// Operator of a vehicle.
#[derive(Debug, Clone, PartialEq, Eq)]
pub enum ServiceOperator {
    MetroTrainsMelbourne,
    YarraTrams,
    VenturaBusLine,
    Other(String),
}

/// Descriptor of a trip/service run's vehicle.
#[derive(Debug, Clone, PartialEq, Eq)]
pub struct VehicleDescriptor {
    pub operator: Option<ServiceOperator>,
    pub id: Option<String>,
    pub low_floor: Option<bool>,
    pub air_conditioned: Option<bool>,
    pub description: Option<String>,
    pub supplier: String,
    pub length: Option<String>,
}

/// Ticketing attributes of a stop.
#[derive(Debug, Clone, PartialEq, Eq)]
pub struct StopTicket {
    pub ticket_type: String,
    pub zone: String,
    pub is_free_fare_zone: bool,
    pub ticket_machine: bool,
    pub ticket_checks: bool,
    pub vline_reservation: bool,
    pub ticket_zones: Vec<i32>,
}

/// Amenities at a stop.
#[derive(Debug, Clone, PartialEq, Eq)]
pub struct StopAmenityDetails {
    pub toilet: bool,
    pub taxi_rank: bool,
    pub car_parking: bool,
    pub cctv: bool,
}

/// Wheelchair accessibility attributes of a stop.
#[derive(Debug, Clone, PartialEq, Eq)]
pub struct StopAccessibilityWheelchair {
    pub accessible_ramp: bool,
    pub parking: bool,
    pub telephone: bool,
    pub toilet: bool,
    pub low_ticket_counter: bool,
    pub manouvering: bool,
    pub raised_platform: bool,
    pub ramp: bool,
    pub secondary_path: bool,
    pub raised_platform_shelter: bool,
    pub steep_ramp: bool,
}

/// Accessibility attributes of a stop.
#[derive(Debug, Clone, PartialEq, Eq)]
pub struct StopAccessibility {
    pub lighting: bool,
    pub platform_number: bool,
    pub escalator: bool,
    pub lift: bool,
    pub stairs: bool,
    pub stop_accessibility: bool,
    pub tactile_ground_surface_indicator: bool,
    pub waiting_room: bool,
    pub wheelchair: StopAccessibilityWheelchair,
}

/// Staffed hours of a stop.
#[derive(Debug, Clone, PartialEq, Eq)]
pub struct StopStaffing {
    pub fri_am_from: String,
    pub fri_am_to: String,
    pub fri_pm_from: String,
    pub fri_pm_to: String,
    pub mon_am_from: String,
    pub mon_am_to: String,
    pub mon_pm_from: String,
    pub mon_pm_to: String,
    pub ph_additional_text: String,
    pub ph_from: String,
    pub ph_to: String,
    pub sat_am_from: String,
    pub sat_am_to: String,
    pub sat_pm_from: String,
    pub sat_pm_to: String,
    pub sun_am_from: String,
    pub sun_am_to: String,
    pub sun_pm_from: String,
    pub sun_pm_to: String,
    pub thu_am_from: String,
    pub thu_am_to: String,
    pub thu_pm_from: String,
    pub thu_pm_to: String,
    pub tue_am_from: String,
    pub tue_am_to: String,
    pub tue_pm_from: String,
    pub tue_pm_to: String,
    pub wed_am_from: String,
    pub wed_am_to: String,
    pub wed_pm_from: String,
    pub wed_pm_to: String,
}

} // verus!
