//! The per-endpoint configuration objects and their canonical field
//! lists. Every option type implements the query encoder's contract
//! through one capability: a value that knows its canonical query text.

use vstd::prelude::*;

use crate::coords::{dec_text, render_decimal, Decimal};
use crate::datetime::{date_yyyy_mm_dd_hhmm, format_iso_basic, iso_basic_str, touch_str, DateTime};
use crate::num::int_str;
use crate::query::{bool_str, Field, FieldSpec, FieldVal, Scalar, ToQuery, ValSpec};
use crate::types::{disruption_mode_number, expand_str, route_type_code, status_str, DirectionId,
    DisruptionModes, DisruptionStatus, ExpandOptions, RouteType, StopId};

verus! {

/// A value that can stand as one scalar of a query string.
pub trait QueryScalar {
    /// When the value can be rendered.
    spec fn renderable(&self) -> bool;

    /// The canonical text the value takes in a query string.
    spec fn text(&self) -> Seq<char>;

    /// Render the value into one scalar.
    fn render(&self) -> (r: Scalar)
        requires
            self.renderable(),
        ensures
            r@ == self.text(),
    ;
}

impl QueryScalar for i32 {
    open spec fn renderable(&self) -> bool {
        true
    }

    open spec fn text(&self) -> Seq<char> {
        int_str(*self as int)
    }

    fn render(&self) -> (r: Scalar) {
        Scalar::Int(*self as i64)
    }
}

impl QueryScalar for bool {
    open spec fn renderable(&self) -> bool {
        true
    }

    open spec fn text(&self) -> Seq<char> {
        bool_str(*self)
    }

    fn render(&self) -> (r: Scalar) {
        Scalar::Bool(*self)
    }
}

impl QueryScalar for String {
    open spec fn renderable(&self) -> bool {
        true
    }

    open spec fn text(&self) -> Seq<char> {
        self@
    }

    fn render(&self) -> (r: Scalar) {
        Scalar::Str(self.clone())
    }
}

impl QueryScalar for DateTime {
    open spec fn renderable(&self) -> bool {
        self.wf()
    }

    open spec fn text(&self) -> Seq<char> {
        iso_basic_str(*self)
    }

    fn render(&self) -> (r: Scalar) {
        Scalar::Str(format_iso_basic(self))
    }
}

impl QueryScalar for Decimal {
    open spec fn renderable(&self) -> bool {
        self.scale + 1 <= usize::MAX
    }

    open spec fn text(&self) -> Seq<char> {
        dec_text(*self)
    }

    fn render(&self) -> (r: Scalar) {
        Scalar::Str(render_decimal(self))
    }
}

impl QueryScalar for StopId {
    open spec fn renderable(&self) -> bool {
        true
    }

    open spec fn text(&self) -> Seq<char> {
        int_str(self.0 as int)
    }

    fn render(&self) -> (r: Scalar) {
        Scalar::Int(self.0 as i64)
    }
}

impl QueryScalar for DirectionId {
    open spec fn renderable(&self) -> bool {
        true
    }

    open spec fn text(&self) -> Seq<char> {
        int_str(self.0 as int)
    }

    fn render(&self) -> (r: Scalar) {
        Scalar::Int(self.0 as i64)
    }
}

impl QueryScalar for RouteType {
    open spec fn renderable(&self) -> bool {
        true
    }

    open spec fn text(&self) -> Seq<char> {
        int_str(route_type_code(*self))
    }

    fn render(&self) -> (r: Scalar) {
        Scalar::Int(self.as_code() as i64)
    }
}

impl QueryScalar for DisruptionModes {
    open spec fn renderable(&self) -> bool {
        true
    }

    open spec fn text(&self) -> Seq<char> {
        int_str(disruption_mode_number(*self))
    }

    fn render(&self) -> (r: Scalar) {
        Scalar::Int(self.as_number() as i64)
    }
}

impl QueryScalar for ExpandOptions {
    open spec fn renderable(&self) -> bool {
        true
    }

    open spec fn text(&self) -> Seq<char> {
        expand_str(*self)
    }

    fn render(&self) -> (r: Scalar) {
        Scalar::Str(self.as_str().to_owned())
    }
}

impl QueryScalar for DisruptionStatus {
    open spec fn renderable(&self) -> bool {
        true
    }

    open spec fn text(&self) -> Seq<char> {
        status_str(*self)
    }

    fn render(&self) -> (r: Scalar) {
        Scalar::Str(self.as_str().to_owned())
    }
}

/// The field value of an optional scalar: its text, or absent.
pub open spec fn opt_one<T: QueryScalar>(o: Option<T>) -> ValSpec {
    match o {
        Some(v) => ValSpec::One(v.text()),
        None => ValSpec::Absent,
    }
}

/// The field value of an optional sequence: its elements' texts, or
/// absent.
pub open spec fn opt_many<T: QueryScalar>(o: Option<Vec<T>>) -> ValSpec {
    match o {
        Some(v) => ValSpec::Many(Seq::new(v@.len(), |i: int| v@[i].text())),
        None => ValSpec::Absent,
    }
}

/// The field value of an optional timestamp under the outbound
/// `YYYY-MM-DD HH:MM` convention.
pub open spec fn opt_touch(o: Option<DateTime>) -> ValSpec {
    match o {
        Some(d) => ValSpec::One(touch_str(d)),
        None => ValSpec::Absent,
    }
}

/// Whether an optional scalar can be rendered.
pub open spec fn opt_renderable<T: QueryScalar>(o: Option<T>) -> bool {
    o matches Some(v) ==> v.renderable()
}

/// Whether every element of an optional sequence can be rendered.
pub open spec fn opt_many_renderable<T: QueryScalar>(o: Option<Vec<T>>) -> bool {
    o matches Some(v) ==> forall|i: int| 0 <= i < v@.len() ==> (#[trigger] v@[i]).renderable()
}

/// One field from an optional scalar.
fn one_field<T: QueryScalar>(key: &str, o: &Option<T>) -> (f: Field)
    requires
        opt_renderable(*o),
    ensures
        f@ == (FieldSpec { key: key@, value: opt_one(*o) }),
{
    match o {
        Option::None => Field { key: key.to_owned(), value: FieldVal::Absent },
        Option::Some(v) => Field { key: key.to_owned(), value: FieldVal::One(v.render()) },
    }
}

/// One field from an optional sequence of scalars.
fn many_field<T: QueryScalar>(key: &str, o: &Option<Vec<T>>) -> (f: Field)
    requires
        opt_many_renderable(*o),
    ensures
        f@ == (FieldSpec { key: key@, value: opt_many(*o) }),
{
    match o {
        Option::None => Field { key: key.to_owned(), value: FieldVal::Absent },
        Option::Some(v) => {
            let mut scalars: Vec<Scalar> = Vec::new();
            let n = v.len();
            let mut i: usize = 0;
            while i < n
                invariant
                    0 <= i <= n,
                    n == v.len(),
                    forall|l: int| 0 <= l < n ==> (#[trigger] v@[l]).renderable(),
                    scalars@.len() == i,
                    forall|l: int| 0 <= l < i ==> (#[trigger] scalars@[l])@ == v@[l].text(),
                decreases n - i,
            {
                let s = v[i].render();
                scalars.push(s);
                i = i + 1;
            }
            proof {
                assert forall|l: int| 0 <= l < n implies #[trigger] scalars.deep_view()[l]
                    == v@[l].text() by {
                    assert(scalars.deep_view()[l] == scalars@[l]@);
                }
                assert(scalars.deep_view() =~= Seq::new(v@.len(), |l: int| v@[l].text()));
            }
            Field { key: key.to_owned(), value: FieldVal::Many(scalars) }
        },
    }
}

/// One field from an optional timestamp under the outbound
/// `YYYY-MM-DD HH:MM` convention.
fn touch_field(key: &str, o: &Option<DateTime>) -> (f: Field)
    requires
        o matches Some(d) ==> d.wf(),
    ensures
        f@ == (FieldSpec { key: key@, value: opt_touch(*o) }),
{
    match o {
        Option::None => Field { key: key.to_owned(), value: FieldVal::Absent },
        Option::Some(d) => Field {
            key: key.to_owned(),
            value: FieldVal::One(Scalar::Str(date_yyyy_mm_dd_hhmm(d))),
        },
    }
}

/// Options of departures for all routes from a stop.
#[derive(Debug, Clone, Default)]
pub struct DeparturesStopOpts {
    /// Filter by platform number at stop
    pub platform_numbers: Option<Vec<i32>>,
    /// Filter by identifier of direction of travel
    pub direction_id: Option<DirectionId>,
    /// Indicates that the stop identifier carries GTFS data
    pub gtfs: Option<bool>,
    /// Filter by the date and time of the request
    pub date: Option<DateTime>,
    /// Maximum number of results returned
    pub max_results: Option<i32>,
    /// Indicates if cancelled services are included; metropolitan train only
    pub include_cancelled: Option<bool>,
    /// Filter to runs arriving at the destination before the given time
    pub look_backwards: Option<bool>,
    /// Objects to be returned in full
    pub expand: Option<Vec<ExpandOptions>>,
    /// Indicates if the route geopath is returned
    pub include_geopath: Option<bool>,
}

impl ToQuery for DeparturesStopOpts {
    open spec fn fields_wf(&self) -> bool {
        self.date matches Some(d) ==> d.wf()
    }

    open spec fn query_fields(&self) -> Seq<FieldSpec> {
        seq![
            FieldSpec { key: "platform_numbers"@, value: opt_many(self.platform_numbers) },
            FieldSpec { key: "direction_id"@, value: opt_one(self.direction_id) },
            FieldSpec { key: "gtfs"@, value: opt_one(self.gtfs) },
            FieldSpec { key: "date_utc"@, value: opt_one(self.date) },
            FieldSpec { key: "max_results"@, value: opt_one(self.max_results) },
            FieldSpec { key: "include_cancelled"@, value: opt_one(self.include_cancelled) },
            FieldSpec { key: "look_backwards"@, value: opt_one(self.look_backwards) },
            FieldSpec { key: "expand"@, value: opt_many(self.expand) },
            FieldSpec { key: "include_geopath"@, value: opt_one(self.include_geopath) },
        ]
    }

    fn fields(&self) -> (r: Vec<Field>) {
        let mut r: Vec<Field> = Vec::new();
        r.push(many_field("platform_numbers", &self.platform_numbers));
        r.push(one_field("direction_id", &self.direction_id));
        r.push(one_field("gtfs", &self.gtfs));
        r.push(one_field("date_utc", &self.date));
        r.push(one_field("max_results", &self.max_results));
        r.push(one_field("include_cancelled", &self.include_cancelled));
        r.push(one_field("look_backwards", &self.look_backwards));
        r.push(many_field("expand", &self.expand));
        r.push(one_field("include_geopath", &self.include_geopath));
        proof {
            assert forall|l: int| 0 <= l < r@.len() implies #[trigger] r.deep_view()[l] == r@[l]@
                by {}
            assert(r.deep_view() =~= self.query_fields());
        }
        r
    }
}

/// Options of departures for one route from a stop.
#[derive(Debug, Clone, Default)]
pub struct DeparturesStopRouteOpts {
    /// Filter by identifier of direction of travel
    pub direction_id: Option<DirectionId>,
    /// Indicates that the stop identifier carries GTFS data
    pub gtfs: Option<bool>,
    /// Filter by the date and time of the request
    pub date: Option<DateTime>,
    /// Maximum number of results returned
    pub max_results: Option<i32>,
    /// Indicates if cancelled services are included; metropolitan train only
    pub include_cancelled: Option<bool>,
    /// Filter to runs arriving at the destination before the given time
    pub look_backwards: Option<bool>,
    /// Objects to be returned in full
    pub expand: Option<Vec<ExpandOptions>>,
    /// Indicates if the route geopath is returned
    pub include_geopath: Option<bool>,
}

impl ToQuery for DeparturesStopRouteOpts {
    open spec fn fields_wf(&self) -> bool {
        self.date matches Some(d) ==> d.wf()
    }

    open spec fn query_fields(&self) -> Seq<FieldSpec> {
        seq![
            FieldSpec { key: "direction_id"@, value: opt_one(self.direction_id) },
            FieldSpec { key: "gtfs"@, value: opt_one(self.gtfs) },
            FieldSpec { key: "date_utc"@, value: opt_one(self.date) },
            FieldSpec { key: "max_results"@, value: opt_one(self.max_results) },
            FieldSpec { key: "include_cancelled"@, value: opt_one(self.include_cancelled) },
            FieldSpec { key: "look_backwards"@, value: opt_one(self.look_backwards) },
            FieldSpec { key: "expand"@, value: opt_many(self.expand) },
            FieldSpec { key: "include_geopath"@, value: opt_one(self.include_geopath) },
        ]
    }

    fn fields(&self) -> (r: Vec<Field>) {
        let mut r: Vec<Field> = Vec::new();
        r.push(one_field("direction_id", &self.direction_id));
        r.push(one_field("gtfs", &self.gtfs));
        r.push(one_field("date_utc", &self.date));
        r.push(one_field("max_results", &self.max_results));
        r.push(one_field("include_cancelled", &self.include_cancelled));
        r.push(one_field("look_backwards", &self.look_backwards));
        r.push(many_field("expand", &self.expand));
        r.push(one_field("include_geopath", &self.include_geopath));
        proof {
            assert forall|l: int| 0 <= l < r@.len() implies #[trigger] r.deep_view()[l] == r@[l]@
                by {}
            assert(r.deep_view() =~= self.query_fields());
        }
        r
    }
}

/// Options of disruptions across all route types.
#[derive(Debug, Clone, Default)]
pub struct DisruptionsOpts {
    /// Filter by route type
    pub route_types: Option<Vec<RouteType>>,
    /// Filter by disruption mode
    pub modes: Option<Vec<DisruptionModes>>,
    /// Filter by status of disruption
    pub status: Option<DisruptionStatus>,
}

impl ToQuery for DisruptionsOpts {
    open spec fn fields_wf(&self) -> bool {
        true
    }

    open spec fn query_fields(&self) -> Seq<FieldSpec> {
        seq![
            FieldSpec { key: "route_types"@, value: opt_many(self.route_types) },
            FieldSpec { key: "disruption_modes"@, value: opt_many(self.modes) },
            FieldSpec { key: "disruption_status"@, value: opt_one(self.status) },
        ]
    }

    fn fields(&self) -> (r: Vec<Field>) {
        let mut r: Vec<Field> = Vec::new();
        r.push(many_field("route_types", &self.route_types));
        r.push(many_field("disruption_modes", &self.modes));
        r.push(one_field("disruption_status", &self.status));
        proof {
            assert forall|l: int| 0 <= l < r@.len() implies #[trigger] r.deep_view()[l] == r@[l]@
                by {}
            assert(r.deep_view() =~= self.query_fields());
        }
        r
    }
}

/// Options of disruptions for one route or stop.
#[derive(Debug, Clone, Default)]
pub struct DisruptionsSpecificOpts {
    /// Filter by status of disruption
    pub status: Option<DisruptionStatus>,
}

impl ToQuery for DisruptionsSpecificOpts {
    open spec fn fields_wf(&self) -> bool {
        true
    }

    open spec fn query_fields(&self) -> Seq<FieldSpec> {
        seq![FieldSpec { key: "disruption_status"@, value: opt_one(self.status) }]
    }

    fn fields(&self) -> (r: Vec<Field>) {
        let mut r: Vec<Field> = Vec::new();
        r.push(one_field("disruption_status", &self.status));
        proof {
            assert forall|l: int| 0 <= l < r@.len() implies #[trigger] r.deep_view()[l] == r@[l]@
                by {}
            assert(r.deep_view() =~= self.query_fields());
        }
        r
    }
}

/// Options of a fare estimate.
#[derive(Debug, Clone, Default)]
pub struct FareEstimateOpts {
    /// Journey touch on
    pub touch_on: Option<DateTime>,
    /// Journey touch off
    pub touch_off: Option<DateTime>,
    /// Whether the journey stays in the free tram zone
    pub free_tram_zone: Option<bool>,
    /// Route types traveled
    pub traveled_route_types: Option<Vec<RouteType>>,
}

impl ToQuery for FareEstimateOpts {
    open spec fn fields_wf(&self) -> bool {
        &&& self.touch_on matches Some(d) ==> d.wf()
        &&& self.touch_off matches Some(d) ==> d.wf()
    }

    open spec fn query_fields(&self) -> Seq<FieldSpec> {
        seq![
            FieldSpec { key: "journey_touch_on_utc"@, value: opt_touch(self.touch_on) },
            FieldSpec { key: "journey_touch_off_utc"@, value: opt_touch(self.touch_off) },
            FieldSpec { key: "is_journey_in_free_tram_zone"@, value: opt_one(self.free_tram_zone) },
            FieldSpec { key: "traveled_route_types"@, value: opt_many(self.traveled_route_types) },
        ]
    }

    fn fields(&self) -> (r: Vec<Field>) {
        let mut r: Vec<Field> = Vec::new();
        r.push(touch_field("journey_touch_on_utc", &self.touch_on));
        r.push(touch_field("journey_touch_off_utc", &self.touch_off));
        r.push(one_field("is_journey_in_free_tram_zone", &self.free_tram_zone));
        r.push(many_field("traveled_route_types", &self.traveled_route_types));
        proof {
            assert forall|l: int| 0 <= l < r@.len() implies #[trigger] r.deep_view()[l] == r@[l]@
                by {}
            assert(r.deep_view() =~= self.query_fields());
        }
        r
    }
}

/// Options of the ticket-outlet listing.
#[derive(Debug, Clone, Default)]
pub struct OutletsOpts {
    /// Maximum number of results returned
    pub max_results: Option<i32>,
}

impl ToQuery for OutletsOpts {
    open spec fn fields_wf(&self) -> bool {
        true
    }

    open spec fn query_fields(&self) -> Seq<FieldSpec> {
        seq![FieldSpec { key: "max_results"@, value: opt_one(self.max_results) }]
    }

    fn fields(&self) -> (r: Vec<Field>) {
        let mut r: Vec<Field> = Vec::new();
        r.push(one_field("max_results", &self.max_results));
        proof {
            assert forall|l: int| 0 <= l < r@.len() implies #[trigger] r.deep_view()[l] == r@[l]@
                by {}
            assert(r.deep_view() =~= self.query_fields());
        }
        r
    }
}

/// Options of the ticket outlets near a location.
#[derive(Debug, Clone, Default)]
pub struct OutletsLatLongOpts {
    /// Maximum number of results returned
    pub max_results: Option<i32>,
    /// Maximum distance in metres from the location
    pub max_distance: Option<i32>,
}

impl ToQuery for OutletsLatLongOpts {
    open spec fn fields_wf(&self) -> bool {
        true
    }

    open spec fn query_fields(&self) -> Seq<FieldSpec> {
        seq![
            FieldSpec { key: "max_results"@, value: opt_one(self.max_results) },
            FieldSpec { key: "max_distance"@, value: opt_one(self.max_distance) },
        ]
    }

    fn fields(&self) -> (r: Vec<Field>) {
        let mut r: Vec<Field> = Vec::new();
        r.push(one_field("max_results", &self.max_results));
        r.push(one_field("max_distance", &self.max_distance));
        proof {
            assert forall|l: int| 0 <= l < r@.len() implies #[trigger] r.deep_view()[l] == r@[l]@
                by {}
            assert(r.deep_view() =~= self.query_fields());
        }
        r
    }
}

/// Options of a stopping pattern for a run.
#[derive(Debug, Clone, Default)]
pub struct PatternsRunRouteOpts {
    /// Objects to be returned in full
    pub expand: Option<Vec<ExpandOptions>>,
    /// Filter by stop identifier
    pub stop_id: Option<StopId>,
    /// Filter by the date and time of the request
    pub date: Option<DateTime>,
    /// Include any skipped stops in the stopping pattern
    pub include_skipped: Option<bool>,
    /// Indicates if the route geopath is returned
    pub include_geopath: Option<bool>,
}

impl ToQuery for PatternsRunRouteOpts {
    open spec fn fields_wf(&self) -> bool {
        self.date matches Some(d) ==> d.wf()
    }

    open spec fn query_fields(&self) -> Seq<FieldSpec> {
        seq![
            FieldSpec { key: "expand"@, value: opt_many(self.expand) },
            FieldSpec { key: "stop_id"@, value: opt_one(self.stop_id) },
            FieldSpec { key: "date_utc"@, value: opt_one(self.date) },
            FieldSpec { key: "include_skipped_stops"@, value: opt_one(self.include_skipped) },
            FieldSpec { key: "include_geopath"@, value: opt_one(self.include_geopath) },
        ]
    }

    fn fields(&self) -> (r: Vec<Field>) {
        let mut r: Vec<Field> = Vec::new();
        r.push(many_field("expand", &self.expand));
        r.push(one_field("stop_id", &self.stop_id));
        r.push(one_field("date_utc", &self.date));
        r.push(one_field("include_skipped_stops", &self.include_skipped));
        r.push(one_field("include_geopath", &self.include_geopath));
        proof {
            assert forall|l: int| 0 <= l < r@.len() implies #[trigger] r.deep_view()[l] == r@[l]@
                by {}
            assert(r.deep_view() =~= self.query_fields());
        }
        r
    }
}

/// Options of the route listing.
#[derive(Debug, Clone, Default)]
pub struct RouteOpts {
    /// Filter by route type
    pub route_types: Option<Vec<RouteType>>,
    /// Filter by route name; partial matches accepted
    pub route_name: Option<String>,
}

impl ToQuery for RouteOpts {
    open spec fn fields_wf(&self) -> bool {
        true
    }

    open spec fn query_fields(&self) -> Seq<FieldSpec> {
        seq![
            FieldSpec { key: "route_types"@, value: opt_many(self.route_types) },
            FieldSpec { key: "route_name"@, value: opt_one(self.route_name) },
        ]
    }

    fn fields(&self) -> (r: Vec<Field>) {
        let mut r: Vec<Field> = Vec::new();
        r.push(many_field("route_types", &self.route_types));
        r.push(one_field("route_name", &self.route_name));
        proof {
            assert forall|l: int| 0 <= l < r@.len() implies #[trigger] r.deep_view()[l] == r@[l]@
                by {}
            assert(r.deep_view() =~= self.query_fields());
        }
        r
    }
}

/// Options of one route's details.
#[derive(Debug, Clone, Default)]
pub struct RouteIdOpts {
    /// Indicates if the route geopath is returned
    pub include_geopath: Option<bool>,
    /// Filter the geopath by date
    pub date: Option<DateTime>,
}

impl ToQuery for RouteIdOpts {
    open spec fn fields_wf(&self) -> bool {
        self.date matches Some(d) ==> d.wf()
    }

    open spec fn query_fields(&self) -> Seq<FieldSpec> {
        seq![
            FieldSpec { key: "include_geopath"@, value: opt_one(self.include_geopath) },
            FieldSpec { key: "date"@, value: opt_one(self.date) },
        ]
    }

    fn fields(&self) -> (r: Vec<Field>) {
        let mut r: Vec<Field> = Vec::new();
        r.push(one_field("include_geopath", &self.include_geopath));
        r.push(one_field("date", &self.date));
        proof {
            assert forall|l: int| 0 <= l < r@.len() implies #[trigger] r.deep_view()[l] == r@[l]@
                by {}
            assert(r.deep_view() =~= self.query_fields());
        }
        r
    }
}

/// Options of the run listing by run reference.
#[derive(Debug, Clone, Default)]
pub struct RunsRefOpts {
    /// Objects to be returned in full
    pub expand: Option<Vec<ExpandOptions>>,
    /// Filter by the date and time of the request
    pub date: Option<DateTime>,
    /// Indicates if the route geopath is returned
    pub include_geopath: Option<bool>,
}

impl ToQuery for RunsRefOpts {
    open spec fn fields_wf(&self) -> bool {
        self.date matches Some(d) ==> d.wf()
    }

    open spec fn query_fields(&self) -> Seq<FieldSpec> {
        seq![
            FieldSpec { key: "expand"@, value: opt_many(self.expand) },
            FieldSpec { key: "date_utc"@, value: opt_one(self.date) },
            FieldSpec { key: "include_geopath"@, value: opt_one(self.include_geopath) },
        ]
    }

    fn fields(&self) -> (r: Vec<Field>) {
        let mut r: Vec<Field> = Vec::new();
        r.push(many_field("expand", &self.expand));
        r.push(one_field("date_utc", &self.date));
        r.push(one_field("include_geopath", &self.include_geopath));
        proof {
            assert forall|l: int| 0 <= l < r@.len() implies #[trigger] r.deep_view()[l] == r@[l]@
                by {}
            assert(r.deep_view() =~= self.query_fields());
        }
        r
    }
}

/// Options of the run listing by route.
#[derive(Debug, Clone, Default)]
pub struct RunsIdOpts {
    /// Objects to be returned in full
    pub expand: Option<Vec<ExpandOptions>>,
    /// Filter by the date and time of the request
    pub date: Option<DateTime>,
}

impl ToQuery for RunsIdOpts {
    open spec fn fields_wf(&self) -> bool {
        self.date matches Some(d) ==> d.wf()
    }

    open spec fn query_fields(&self) -> Seq<FieldSpec> {
        seq![
            FieldSpec { key: "expand"@, value: opt_many(self.expand) },
            FieldSpec { key: "date_utc"@, value: opt_one(self.date) },
        ]
    }

    fn fields(&self) -> (r: Vec<Field>) {
        let mut r: Vec<Field> = Vec::new();
        r.push(many_field("expand", &self.expand));
        r.push(one_field("date_utc", &self.date));
        proof {
            assert forall|l: int| 0 <= l < r@.len() implies #[trigger] r.deep_view()[l] == r@[l]@
                by {}
            assert(r.deep_view() =~= self.query_fields());
        }
        r
    }
}

/// Options of the free-text search.
#[derive(Debug, Clone, Default)]
pub struct SearchOpts {
    /// Filter by route type
    pub route_types: Option<Vec<RouteType>>,
    /// Latitude of the search centre
    pub latitude: Option<Decimal>,
    /// Longitude of the search centre
    pub longitude: Option<Decimal>,
    /// Maximum distance from the search centre
    pub max_distance: Option<Decimal>,
    /// Indicates if addresses are included
    pub include_addresses: Option<bool>,
    /// Indicates if ticket outlets are included
    pub include_outlets: Option<bool>,
    /// Match stops by suburb
    pub match_stop_by_suburb: Option<bool>,
    /// Match stops by GTFS stop identifier
    pub match_stop_by_gtfs_stop_id: Option<bool>,
}

impl ToQuery for SearchOpts {
    open spec fn fields_wf(&self) -> bool {
        &&& self.latitude matches Some(d) ==> d.scale + 1 <= usize::MAX
        &&& self.longitude matches Some(d) ==> d.scale + 1 <= usize::MAX
        &&& self.max_distance matches Some(d) ==> d.scale + 1 <= usize::MAX
    }

    open spec fn query_fields(&self) -> Seq<FieldSpec> {
        seq![
            FieldSpec { key: "route_types"@, value: opt_many(self.route_types) },
            FieldSpec { key: "latitude"@, value: opt_one(self.latitude) },
            FieldSpec { key: "longitude"@, value: opt_one(self.longitude) },
            FieldSpec { key: "max_distance"@, value: opt_one(self.max_distance) },
            FieldSpec { key: "include_addresses"@, value: opt_one(self.include_addresses) },
            FieldSpec { key: "include_outlets"@, value: opt_one(self.include_outlets) },
            FieldSpec { key: "match_stop_by_suburb"@, value: opt_one(self.match_stop_by_suburb) },
            FieldSpec {
                key: "match_stop_by_gtfs_stop_id"@,
                value: opt_one(self.match_stop_by_gtfs_stop_id),
            },
        ]
    }

    fn fields(&self) -> (r: Vec<Field>) {
        let mut r: Vec<Field> = Vec::new();
        r.push(many_field("route_types", &self.route_types));
        r.push(one_field("latitude", &self.latitude));
        r.push(one_field("longitude", &self.longitude));
        r.push(one_field("max_distance", &self.max_distance));
        r.push(one_field("include_addresses", &self.include_addresses));
        r.push(one_field("include_outlets", &self.include_outlets));
        r.push(one_field("match_stop_by_suburb", &self.match_stop_by_suburb));
        r.push(one_field("match_stop_by_gtfs_stop_id", &self.match_stop_by_gtfs_stop_id));
        proof {
            assert forall|l: int| 0 <= l < r@.len() implies #[trigger] r.deep_view()[l] == r@[l]@
                by {}
            assert(r.deep_view() =~= self.query_fields());
        }
        r
    }
}

/// Options of one stop's facilities.
#[derive(Debug, Clone, Default)]
pub struct StopsIdRouteTypeOpts {
    /// Indicates if stop location information is returned
    pub location: Option<bool>,
    /// Indicates if stop amenity information is returned
    pub amenities: Option<bool>,
    /// Indicates if stop accessibility information is returned
    pub accessibility: Option<bool>,
    /// Indicates if stop contact information is returned
    pub contact: Option<bool>,
    /// Indicates if stop ticketing information is returned
    pub ticket: Option<bool>,
    /// Indicates if stop staffing information is returned
    pub staffing: Option<bool>,
    /// Indicates if stop disruption information is returned
    pub disruptions: Option<bool>,
}

impl ToQuery for StopsIdRouteTypeOpts {
    open spec fn fields_wf(&self) -> bool {
        true
    }

    open spec fn query_fields(&self) -> Seq<FieldSpec> {
        seq![
            FieldSpec { key: "stop_location"@, value: opt_one(self.location) },
            FieldSpec { key: "stop_amenities"@, value: opt_one(self.amenities) },
            FieldSpec { key: "stop_accessibility"@, value: opt_one(self.accessibility) },
            FieldSpec { key: "stop_contact"@, value: opt_one(self.contact) },
            FieldSpec { key: "stop_ticket"@, value: opt_one(self.ticket) },
            FieldSpec { key: "stop_staffing"@, value: opt_one(self.staffing) },
            FieldSpec { key: "stop_disruptions"@, value: opt_one(self.disruptions) },
        ]
    }

    fn fields(&self) -> (r: Vec<Field>) {
        let mut r: Vec<Field> = Vec::new();
        r.push(one_field("stop_location", &self.location));
        r.push(one_field("stop_amenities", &self.amenities));
        r.push(one_field("stop_accessibility", &self.accessibility));
        r.push(one_field("stop_contact", &self.contact));
        r.push(one_field("stop_ticket", &self.ticket));
        r.push(one_field("stop_staffing", &self.staffing));
        r.push(one_field("stop_disruptions", &self.disruptions));
        proof {
            assert forall|l: int| 0 <= l < r@.len() implies #[trigger] r.deep_view()[l] == r@[l]@
                by {}
            assert(r.deep_view() =~= self.query_fields());
        }
        r
    }
}

} // verus!

verus! {

/// The text of a disruption status holds no structural character.
pub proof fn lemma_status_text_wf(s: DisruptionStatus)
    ensures
        crate::query::text_wf(status_str(s)),
{
    assert forall|k: int| 0 <= k < status_str(s).len() implies #[trigger] status_str(s)[k] != '&'
        && status_str(s)[k] != '=' by {}
    crate::query::text_wf_from_chars(status_str(s));
}

/// Key recovery holds of every disruption-listing configuration object:
/// re-decoding the query string's keys yields exactly the present field
/// names, sequence fields contributing one occurrence per element, in
/// declaration order.
pub proof fn lemma_disruptions_opts_keys_recoverable(o: DisruptionsOpts)
    ensures
        crate::query::keys_of(crate::query::query_of(o.query_fields()))
            == crate::query::fields_pairs(o.query_fields()).map_values(
            |p: (Seq<char>, Seq<char>)| p.0,
        ),
{
    let fs = o.query_fields();
    assert forall|i: int| 0 <= i < fs.len() implies crate::query::field_wf(#[trigger] fs[i]) by {
        reveal_strlit("route_types");
        reveal_strlit("disruption_modes");
        reveal_strlit("disruption_status");
        let f = fs[i];
        assert forall|k: int| 0 <= k < f.key.len() implies #[trigger] f.key[k] != '&' && f.key[k]
            != '=' by {
            if i == 0 {
                assert(f.key == "route_types"@);
            } else if i == 1 {
                assert(f.key == "disruption_modes"@);
            } else {
                assert(f.key == "disruption_status"@);
            }
        }
        crate::query::text_wf_from_chars(f.key);
        if i == 0 {
            match o.route_types {
                Some(v) => {
                    let ts = Seq::new(v@.len(), |l: int| v@[l].text());
                    assert(f.value == ValSpec::Many(ts));
                    assert forall|l: int|
                        0 <= l < ts.len() implies crate::query::text_wf(#[trigger] ts[l]) by {
                        crate::query::lemma_int_text_wf(route_type_code(v@[l]));
                    }
                },
                None => {},
            }
        } else if i == 1 {
            match o.modes {
                Some(v) => {
                    let ts = Seq::new(v@.len(), |l: int| v@[l].text());
                    assert(f.value == ValSpec::Many(ts));
                    assert forall|l: int|
                        0 <= l < ts.len() implies crate::query::text_wf(#[trigger] ts[l]) by {
                        crate::query::lemma_int_text_wf(disruption_mode_number(v@[l]));
                    }
                },
                None => {},
            }
        } else {
            match o.status {
                Some(st) => {
                    lemma_status_text_wf(st);
                },
                None => {},
            }
        }
    }
    crate::query::lemma_query_keys_recoverable(fs);
}

} // verus!

verus! {

/// The text of an expand option holds no structural character.
pub proof fn lemma_expand_text_wf(e: ExpandOptions)
    ensures
        crate::query::text_wf(expand_str(e)),
{
    assert forall|k: int| 0 <= k < expand_str(e).len() implies #[trigger] expand_str(e)[k] != '&'
        && expand_str(e)[k] != '=' by {}
    crate::query::text_wf_from_chars(expand_str(e));
}

/// Key recovery holds of every run-listing configuration object: its
/// fields are option names and a date, whose canonical texts hold no
/// structural character.
pub proof fn lemma_runs_opts_keys_recoverable(o: RunsIdOpts)
    requires
        o.fields_wf(),
    ensures
        crate::query::keys_of(crate::query::query_of(o.query_fields()))
            == crate::query::fields_pairs(o.query_fields()).map_values(
            |p: (Seq<char>, Seq<char>)| p.0,
        ),
{
    let fs = o.query_fields();
    assert forall|i: int| 0 <= i < fs.len() implies crate::query::field_wf(#[trigger] fs[i]) by {
        reveal_strlit("expand");
        reveal_strlit("date_utc");
        let f = fs[i];
        assert forall|k: int| 0 <= k < f.key.len() implies #[trigger] f.key[k] != '&' && f.key[k]
            != '=' by {
            if i == 0 {
                assert(f.key == "expand"@);
            } else {
                assert(f.key == "date_utc"@);
            }
        }
        crate::query::text_wf_from_chars(f.key);
        if i == 0 {
            match o.expand {
                Some(v) => {
                    let ts = Seq::new(v@.len(), |l: int| v@[l].text());
                    assert(f.value == ValSpec::Many(ts));
                    assert forall|l: int|
                        0 <= l < ts.len() implies crate::query::text_wf(#[trigger] ts[l]) by {
                        lemma_expand_text_wf(v@[l]);
                    }
                },
                None => {},
            }
        } else {
            match o.date {
                Some(d) => {
                    crate::query::lemma_date_text_wf(d);
                },
                None => {},
            }
        }
    }
    crate::query::lemma_query_keys_recoverable(fs);
}

} // verus!
