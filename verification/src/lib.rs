//! Verified client-side request pipeline for a public-transport timetable
//! web API: canonical query-string encoding of typed option sets, keyed
//! request signing, response classification, and the family of
//! format-specific decoders for the irregular string encodings the
//! upstream service uses.

pub mod classify;
pub mod client;
pub mod coords;
pub mod datetime;
pub mod error;
pub mod num;
pub mod opts;
pub mod query;
pub mod text;
pub mod types;

pub use classify::{classify_response, Classified, FetchResult};
pub use client::{request_signature, Client, API_URL};
pub use coords::{multi_segment_coordinate_path, parse_decimal, Decimal};
pub use datetime::{date_iso_basic, date_rfc3339_millis, date_yyyy_mm_dd_hhmm, time_hms_or_blank, DateTime, Time};
pub use error::DecodeError;
pub use num::signed_int_from_string;
pub use opts::{DeparturesStopOpts, DeparturesStopRouteOpts, DisruptionsOpts, DisruptionsSpecificOpts, FareEstimateOpts, OutletsLatLongOpts, OutletsOpts, PatternsRunRouteOpts, QueryScalar, RouteIdOpts, RouteOpts, RunsIdOpts, RunsRefOpts, SearchOpts, StopsIdRouteTypeOpts};
pub use query::{encode_query_fields, to_query, Field, FieldVal, Scalar, ToQuery};
pub use text::clean;
pub use types::{ApiError, Direction, DirectionId, DirectionWithDescription, DirectionsResponse, DisruptionId, DisruptionModes, DisruptionStatus, DisruptionStop, ExpandOptions, I32ButSilly, PassengerType, Route, RouteId, RouteServiceStatus, RouteType, RunId, ServiceOperator, Status, StopAccessibility, StopAccessibilityWheelchair, StopAmenityDetails, StopId, StopStaffing, StopTicket, VehicleDescriptor, ZoneInfo};
