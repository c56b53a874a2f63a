//! RequestSigner and the client: build the canonical signing input
//! (path plus query plus the identity parameter), compute the keyed
//! signature over exactly those bytes, and emit the authenticated URL
//! for each endpoint. Signing is a pure function of path, identity and
//! key: no randomness and no time dependency.

use vstd::prelude::*;

use hmac::Mac;

use crate::coords::{dec_text, render_decimal, Decimal};
use crate::num::{i64_to_string, int_str};
use crate::opts::{DeparturesStopOpts, DeparturesStopRouteOpts, DisruptionsOpts,
    DisruptionsSpecificOpts, FareEstimateOpts, OutletsLatLongOpts, OutletsOpts,
    PatternsRunRouteOpts, RouteIdOpts, RouteOpts, RunsIdOpts, RunsRefOpts, SearchOpts,
    StopsIdRouteTypeOpts};
use crate::query::{escape_path, path_escaped, query_of, to_query, ToQuery};
use crate::text::{clean, cleaned, contains_char, contains_char_exec};
use crate::types::{route_type_code, DirectionId, DisruptionId, RouteId, RouteType, RunId, StopId};

verus! {

/// Base origin of the timetable service.
pub const API_URL: &'static str = "https://timetableapi.ptv.vic.gov.au";

/// What a keyed HMAC-SHA1 tag is: a fixed function of the key and the
/// message alone, the same in every process and on every machine. The
/// signer relies on its determinism, never on its construction.
pub uninterp spec fn hmac_sha1_of(key: Seq<char>, msg: Seq<char>) -> Seq<u8>;

/// Lower-case hexadecimal digit of a value below 16.
pub open spec fn hex_lower(d: int) -> char
    recommends
        0 <= d < 16,
{
    seq!['0', '1', '2', '3', '4', '5', '6', '7', '8', '9', 'a', 'b', 'c', 'd', 'e', 'f'][d]
}

/// Lower-case hexadecimal text of a byte sequence: two digits per byte,
/// high nibble first.
pub open spec fn hex_of(bs: Seq<u8>) -> Seq<char>
    decreases bs.len(),
{
    if bs.len() == 0 {
        Seq::empty()
    } else {
        seq![hex_lower(bs[0] as int / 16), hex_lower(bs[0] as int % 16)] + hex_of(bs.drop_first())
    }
}

/// The authentication signature: lower-case hexadecimal of the keyed
/// HMAC-SHA1 tag over the canonical signing input.
pub open spec fn signature_of(key: Seq<char>, msg: Seq<char>) -> Seq<char> {
    hex_of(hmac_sha1_of(key, msg))
}

/// Hexadecimal text is exactly twice as long as its bytes.
pub proof fn lemma_hex_of_len(bs: Seq<u8>)
    ensures
        hex_of(bs).len() == 2 * bs.len(),
    decreases bs.len(),
{
    if bs.len() > 0 {
        lemma_hex_of_len(bs.drop_first());
    }
}

/// Relies on hmac's `Hmac<Sha1>`: `new_from_slice` accepts a key of any
/// length and never fails, and the 20-byte tag depends on the key and
/// the message bytes alone.
#[verifier::external_body]
fn hmac_sha1(key: &str, msg: &str) -> (r: Vec<u8>)
    ensures
        r@ == hmac_sha1_of(key@, msg@),
        r@.len() == 20,
{
    let mut mac: hmac::Hmac<sha1::Sha1> = hmac::Hmac::new_from_slice(key.as_bytes()).unwrap();
    mac.update(msg.as_bytes());
    mac.finalize().into_bytes().to_vec()
}

/// Relies on hex::encode: each byte becomes exactly two lower-case
/// hexadecimal digits, high nibble first.
#[verifier::external_body]
fn hex_string(bytes: &Vec<u8>) -> (r: String)
    ensures
        r@ == hex_of(bytes@),
{
    hex::encode(bytes)
}

/// Compute the request signature over a canonical signing input: the
/// fixed-width hex digest of the 20-byte tag, 40 characters always.
pub fn request_signature(key: &str, canonical: &str) -> (r: String)
    ensures
        r@ == signature_of(key@, canonical@),
        r@.len() == 40,
{
    let tag = hmac_sha1(key, canonical);
    proof {
        lemma_hex_of_len(tag@);
    }
    hex_string(&tag)
}

/// The identity-augmented path: a leading slash where the path has none,
/// the path, a separator chosen by whether a query component already
/// stands (`?` where none does, nothing where the path already ends in a
/// bare `?`, `&` otherwise), and the identity parameter last. The
/// signature covers exactly this string.
pub open spec fn augmented_path(path: Seq<char>, devid: Seq<char>) -> Seq<char> {
    let lead: Seq<char> = if path.len() > 0 && path[0] == '/' {
        Seq::empty()
    } else {
        seq!['/']
    };
    let sep: Seq<char> = if !contains_char(path, '?') {
        seq!['?']
    } else if path[path.len() - 1] == '?' {
        Seq::empty()
    } else {
        seq!['&']
    };
    lead + path + sep + "devid="@ + devid
}

/// The signed URL: the base origin, the identity-augmented path, and the
/// signature parameter computed over exactly that augmented path, the
/// signature itself excluded from what is signed.
pub open spec fn signed_url_of(devid: Seq<char>, key: Seq<char>, path: Seq<char>) -> Seq<char> {
    API_URL@ + augmented_path(path, devid) + "&signature="@ + signature_of(
        key,
        augmented_path(path, devid),
    )
}

/// RequestSigner is deterministic: signing the same path with the same
/// identity and key twice yields byte-identical URLs.
pub proof fn lemma_signing_deterministic(
    devid: Seq<char>,
    key: Seq<char>,
    path: Seq<char>,
    u1: Seq<char>,
    u2: Seq<char>,
)
    requires
        u1 == signed_url_of(devid, key, path),
        u2 == signed_url_of(devid, key, path),
    ensures
        u1 == u2,
{
}

/// A client of the timetable service: the device identity and the
/// signing key, supplied once at construction and never mutated after.
/// The key never leaves the client; only signatures computed from it do.
pub struct Client {
    devid: String,
    key: String,
}

impl Client {
    /// The device identity sent on every request.
    pub closed spec fn spec_devid(&self) -> Seq<char> {
        self.devid@
    }

    /// The signing key.
    pub closed spec fn spec_key(&self) -> Seq<char> {
        self.key@
    }

    /// Build a client from a device identity and a signing key.
    pub fn new(devid: String, key: String) -> (c: Client)
        ensures
            c.spec_devid() == devid@,
            c.spec_key() == key@,
    {
        Client { devid, key }
    }

    /// Sign one request path: append the identity parameter, compute the
    /// signature over exactly the augmented path, and emit the full URL.
    pub fn signed_url(&self, path: &str) -> (r: String)
        ensures
            r@ == signed_url_of(self.spec_devid(), self.spec_key(), path@),
    {
        let n = path.unicode_len();
        let mut p = String::new();
        if n == 0 || path.get_char(0) != '/' {
            p.append("/");
        }
        p.append(path);
        if !contains_char_exec(path, '?') {
            p.append("?");
        } else if path.get_char(n - 1) == '?' {
        } else {
            p.append("&");
        }
        p.append("devid=");
        p.append(self.devid.as_str());
        proof {
            reveal_strlit("/");
            reveal_strlit("?");
            reveal_strlit("&");
            assert(p@ =~= augmented_path(path@, self.devid@));
        }
        let sig = request_signature(self.key.as_str(), p.as_str());
        let mut url = API_URL.to_owned();
        url.append(p.as_str());
        url.append("&signature=");
        url.append(sig.as_str());
        proof {
            assert(url@ =~= signed_url_of(self.spec_devid(), self.spec_key(), path@));
        }
        url
    }
}

/// Append the decimal text of a 32-bit value.
fn push_i32(out: &mut String, v: i32)
    ensures
        final(out)@ == old(out)@ + int_str(v as int),
{
    let s = i64_to_string(v as i64);
    out.append(s.as_str());
}

impl Client {
    /// URL of departures for all routes from a stop.
    pub fn departures_stop(
        &self,
        route_type: RouteType,
        stop_id: StopId,
        options: &DeparturesStopOpts,
    ) -> (r: String)
        requires
            options.fields_wf(),
        ensures
            r@ == signed_url_of(
                self.spec_devid(),
                self.spec_key(),
                "v3/departures/route_type/"@ + int_str(route_type_code(route_type)) + "/stop/"@
                    + int_str(stop_id.0 as int) + "?"@ + query_of(options.query_fields()),
            ),
    {
        let mut p = "v3/departures/route_type/".to_owned();
        push_i32(&mut p, route_type.as_code() as i32);
        p.append("/stop/");
        push_i32(&mut p, stop_id.0);
        p.append("?");
        let q = to_query(options);
        p.append(q.as_str());
        proof {
            assert(p@ =~= "v3/departures/route_type/"@ + int_str(route_type_code(route_type))
                + "/stop/"@ + int_str(stop_id.0 as int) + "?"@ + query_of(options.query_fields()));
        }
        self.signed_url(p.as_str())
    }

    /// URL of departures for one route from a stop. The identifiers fill
    /// the path slots in argument order.
    pub fn departures_stop_route(
        &self,
        route_type: RouteType,
        route_id: RouteId,
        stop_id: StopId,
        options: &DeparturesStopRouteOpts,
    ) -> (r: String)
        requires
            options.fields_wf(),
        ensures
            r@ == signed_url_of(
                self.spec_devid(),
                self.spec_key(),
                "v3/departures/route_type/"@ + int_str(route_type_code(route_type)) + "/stop/"@
                    + int_str(route_id.0 as int) + "/route/"@ + int_str(stop_id.0 as int) + "?"@
                    + query_of(options.query_fields()),
            ),
    {
        let mut p = "v3/departures/route_type/".to_owned();
        push_i32(&mut p, route_type.as_code() as i32);
        p.append("/stop/");
        push_i32(&mut p, route_id.0);
        p.append("/route/");
        push_i32(&mut p, stop_id.0);
        p.append("?");
        let q = to_query(options);
        p.append(q.as_str());
        proof {
            assert(p@ =~= "v3/departures/route_type/"@ + int_str(route_type_code(route_type))
                + "/stop/"@ + int_str(route_id.0 as int) + "/route/"@ + int_str(stop_id.0 as int)
                + "?"@ + query_of(options.query_fields()));
        }
        self.signed_url(p.as_str())
    }

    /// URL of all routes for a direction of travel.
    pub fn directions_id(&self, direction_id: DirectionId) -> (r: String)
        ensures
            r@ == signed_url_of(
                self.spec_devid(),
                self.spec_key(),
                "v3/directions/"@ + int_str(direction_id.0 as int),
            ),
    {
        let mut p = "v3/directions/".to_owned();
        push_i32(&mut p, direction_id.0);
        self.signed_url(p.as_str())
    }

    /// URL of the directions a route travels in.
    pub fn directions_route(&self, route_id: RouteId) -> (r: String)
        ensures
            r@ == signed_url_of(
                self.spec_devid(),
                self.spec_key(),
                "v3/directions/route/"@ + int_str(route_id.0 as int),
            ),
    {
        let mut p = "v3/directions/route/".to_owned();
        push_i32(&mut p, route_id.0);
        self.signed_url(p.as_str())
    }

    /// URL of all routes of one type for a direction of travel.
    pub fn directions_id_route(&self, direction_id: DirectionId, route_type: RouteType) -> (r:
        String)
        ensures
            r@ == signed_url_of(
                self.spec_devid(),
                self.spec_key(),
                "v3/directions/"@ + int_str(direction_id.0 as int) + "/route_type/"@ + int_str(
                    route_type_code(route_type),
                ),
            ),
    {
        let mut p = "v3/directions/".to_owned();
        push_i32(&mut p, direction_id.0);
        p.append("/route_type/");
        push_i32(&mut p, route_type.as_code() as i32);
        self.signed_url(p.as_str())
    }

    /// URL of all disruptions for all route types.
    pub fn disruptions(&self, options: &DisruptionsOpts) -> (r: String)
        ensures
            r@ == signed_url_of(
                self.spec_devid(),
                self.spec_key(),
                "v3/disruptions?"@ + query_of(options.query_fields()),
            ),
    {
        let mut p = "v3/disruptions?".to_owned();
        let q = to_query(options);
        p.append(q.as_str());
        self.signed_url(p.as_str())
    }

    /// URL of all disruptions for one route.
    pub fn disruptions_route(&self, route_id: RouteId, options: &DisruptionsSpecificOpts) -> (r:
        String)
        ensures
            r@ == signed_url_of(
                self.spec_devid(),
                self.spec_key(),
                "v3/disruptions/route/"@ + int_str(route_id.0 as int) + "?"@ + query_of(
                    options.query_fields(),
                ),
            ),
    {
        let mut p = "v3/disruptions/route/".to_owned();
        push_i32(&mut p, route_id.0);
        p.append("?");
        let q = to_query(options);
        p.append(q.as_str());
        self.signed_url(p.as_str())
    }

    /// URL of all disruptions for one route and stop.
    pub fn disruptions_route_stop(
        &self,
        route_id: RouteId,
        stop_id: StopId,
        options: &DisruptionsSpecificOpts,
    ) -> (r: String)
        ensures
            r@ == signed_url_of(
                self.spec_devid(),
                self.spec_key(),
                "v3/disruptions/route/"@ + int_str(route_id.0 as int) + "/stop/"@ + int_str(
                    stop_id.0 as int,
                ) + "?"@ + query_of(options.query_fields()),
            ),
    {
        let mut p = "v3/disruptions/route/".to_owned();
        push_i32(&mut p, route_id.0);
        p.append("/stop/");
        push_i32(&mut p, stop_id.0);
        p.append("?");
        let q = to_query(options);
        p.append(q.as_str());
        self.signed_url(p.as_str())
    }

    /// URL of all disruptions for one stop.
    pub fn disruptions_stop(&self, stop_id: StopId, options: &DisruptionsSpecificOpts) -> (r:
        String)
        ensures
            r@ == signed_url_of(
                self.spec_devid(),
                self.spec_key(),
                "v3/disruptions/stop/"@ + int_str(stop_id.0 as int) + "?"@ + query_of(
                    options.query_fields(),
                ),
            ),
    {
        let mut p = "v3/disruptions/stop/".to_owned();
        push_i32(&mut p, stop_id.0);
        p.append("?");
        let q = to_query(options);
        p.append(q.as_str());
        self.signed_url(p.as_str())
    }

    /// URL of one disruption.
    pub fn disruptions_id(&self, disruption_id: DisruptionId) -> (r: String)
        ensures
            r@ == signed_url_of(
                self.spec_devid(),
                self.spec_key(),
                "v3/disruptions/"@ + int_str(disruption_id.0 as int),
            ),
    {
        let mut p = "v3/disruptions/".to_owned();
        push_i32(&mut p, disruption_id.0);
        self.signed_url(p.as_str())
    }

    /// URL of a fare estimate by zone.
    pub fn fare_estimate(&self, min_zone: u8, max_zone: u8, options: &FareEstimateOpts) -> (r:
        String)
        requires
            options.fields_wf(),
        ensures
            r@ == signed_url_of(
                self.spec_devid(),
                self.spec_key(),
                "v3/fare_estimate/min_zone/"@ + int_str(min_zone as int) + "/max_zone/"@ + int_str(
                    max_zone as int,
                ) + "?"@ + query_of(options.query_fields()),
            ),
    {
        let mut p = "v3/fare_estimate/min_zone/".to_owned();
        push_i32(&mut p, min_zone as i32);
        p.append("/max_zone/");
        push_i32(&mut p, max_zone as i32);
        p.append("?");
        let q = to_query(options);
        p.append(q.as_str());
        self.signed_url(p.as_str())
    }

    /// URL of all ticket outlets.
    pub fn outlets(&self, options: &OutletsOpts) -> (r: String)
        ensures
            r@ == signed_url_of(
                self.spec_devid(),
                self.spec_key(),
                "v3/outlets?"@ + query_of(options.query_fields()),
            ),
    {
        let mut p = "v3/outlets?".to_owned();
        let q = to_query(options);
        p.append(q.as_str());
        self.signed_url(p.as_str())
    }

    /// URL of the ticket outlets near a location.
    pub fn outlets_lat_long(
        &self,
        latitude: &Decimal,
        longitude: &Decimal,
        options: &OutletsLatLongOpts,
    ) -> (r: String)
        requires
            latitude.scale + 1 <= usize::MAX,
            longitude.scale + 1 <= usize::MAX,
        ensures
            r@ == signed_url_of(
                self.spec_devid(),
                self.spec_key(),
                "v3/outlets/location/"@ + dec_text(*latitude) + "/"@ + dec_text(*longitude) + "?"@
                    + query_of(options.query_fields()),
            ),
    {
        let mut p = "v3/outlets/location/".to_owned();
        let lat = render_decimal(latitude);
        p.append(lat.as_str());
        p.append("/");
        let lon = render_decimal(longitude);
        p.append(lon.as_str());
        p.append("?");
        let q = to_query(options);
        p.append(q.as_str());
        self.signed_url(p.as_str())
    }

    /// URL of the stopping pattern for one trip/service run.
    pub fn patterns_run_route(
        &self,
        run_ref: &str,
        route_type: RouteType,
        options: &PatternsRunRouteOpts,
    ) -> (r: String)
        requires
            options.fields_wf(),
        ensures
            r@ == signed_url_of(
                self.spec_devid(),
                self.spec_key(),
                "v3/pattern/run/"@ + run_ref@ + "/route_type/"@ + int_str(
                    route_type_code(route_type),
                ) + "?"@ + query_of(options.query_fields()),
            ),
    {
        let mut p = "v3/pattern/run/".to_owned();
        p.append(run_ref);
        p.append("/route_type/");
        push_i32(&mut p, route_type.as_code() as i32);
        p.append("?");
        let q = to_query(options);
        p.append(q.as_str());
        self.signed_url(p.as_str())
    }

    /// URL of route names and numbers for all routes.
    pub fn routes(&self, options: &RouteOpts) -> (r: String)
        ensures
            r@ == signed_url_of(
                self.spec_devid(),
                self.spec_key(),
                "v3/routes?"@ + query_of(options.query_fields()),
            ),
    {
        let mut p = "v3/routes?".to_owned();
        let q = to_query(options);
        p.append(q.as_str());
        self.signed_url(p.as_str())
    }

    /// URL of one route's name and number.
    pub fn routes_id(&self, route_id: RouteId, options: &RouteIdOpts) -> (r: String)
        requires
            options.fields_wf(),
        ensures
            r@ == signed_url_of(
                self.spec_devid(),
                self.spec_key(),
                "v3/routes/"@ + int_str(route_id.0 as int) + "?"@ + query_of(
                    options.query_fields(),
                ),
            ),
    {
        let mut p = "v3/routes/".to_owned();
        push_i32(&mut p, route_id.0);
        p.append("?");
        let q = to_query(options);
        p.append(q.as_str());
        self.signed_url(p.as_str())
    }

    /// URL of all trip/service runs for one run reference.
    pub fn runs_ref(&self, run_ref: &str, options: &RunsRefOpts) -> (r: String)
        requires
            options.fields_wf(),
        ensures
            r@ == signed_url_of(
                self.spec_devid(),
                self.spec_key(),
                "v3/runs/"@ + run_ref@ + "?"@ + query_of(options.query_fields()),
            ),
    {
        let mut p = "v3/runs/".to_owned();
        p.append(run_ref);
        p.append("?");
        let q = to_query(options);
        p.append(q.as_str());
        self.signed_url(p.as_str())
    }

    /// URL of all trip/service runs for one route.
    pub fn runs_id(&self, run_id: RouteId, options: &RunsIdOpts) -> (r: String)
        requires
            options.fields_wf(),
        ensures
            r@ == signed_url_of(
                self.spec_devid(),
                self.spec_key(),
                "v3/runs/route/"@ + int_str(run_id.0 as int) + "?"@ + query_of(
                    options.query_fields(),
                ),
            ),
    {
        let mut p = "v3/runs/route/".to_owned();
        push_i32(&mut p, run_id.0);
        p.append("?");
        let q = to_query(options);
        p.append(q.as_str());
        self.signed_url(p.as_str())
    }

    /// URL of all trip/service runs for one run reference and route type.
    pub fn runs_ref_type(&self, run_ref: &str, route_type: RouteType, options: &RunsRefOpts) -> (r:
        String)
        requires
            options.fields_wf(),
        ensures
            r@ == signed_url_of(
                self.spec_devid(),
                self.spec_key(),
                "v3/runs/"@ + run_ref@ + "/route_type/"@ + int_str(route_type_code(route_type))
                    + "?"@ + query_of(options.query_fields()),
            ),
    {
        let mut p = "v3/runs/".to_owned();
        p.append(run_ref);
        p.append("/route_type/");
        push_i32(&mut p, route_type.as_code() as i32);
        p.append("?");
        let q = to_query(options);
        p.append(q.as_str());
        self.signed_url(p.as_str())
    }

    /// URL of all trip/service runs for one run and route type.
    pub fn runs_id_type(&self, run_id: RunId, route_type: RouteType, options: &RunsIdOpts) -> (r:
        String)
        requires
            options.fields_wf(),
        ensures
            r@ == signed_url_of(
                self.spec_devid(),
                self.spec_key(),
                "v3/runs/route/"@ + int_str(run_id.0 as int) + "/route_type/"@ + int_str(
                    route_type_code(route_type),
                ) + "?"@ + query_of(options.query_fields()),
            ),
    {
        let mut p = "v3/runs/route/".to_owned();
        push_i32(&mut p, run_id.0);
        p.append("/route_type/");
        push_i32(&mut p, route_type.as_code() as i32);
        p.append("?");
        let q = to_query(options);
        p.append(q.as_str());
        self.signed_url(p.as_str())
    }

    /// URL of a search for stops, routes and outlets matching a term.
    /// The term is canonicalized and percent-encoded for the path part.
    pub fn search(&self, search_term: &str, options: &SearchOpts) -> (r: String)
        requires
            options.fields_wf(),
        ensures
            r@ == signed_url_of(
                self.spec_devid(),
                self.spec_key(),
                "v3/search/"@ + path_escaped(cleaned(search_term@)) + "?"@ + query_of(
                    options.query_fields(),
                ),
            ),
    {
        let mut p = "v3/search/".to_owned();
        let term = clean(search_term.to_owned());
        let esc = escape_path(term.as_str());
        p.append(esc.as_str());
        p.append("?");
        let q = to_query(options);
        p.append(q.as_str());
        self.signed_url(p.as_str())
    }

    /// URL of the facilities at one stop.
    pub fn stops_id_route_type(
        &self,
        stop_id: StopId,
        route_type: RouteType,
        options: &StopsIdRouteTypeOpts,
    ) -> (r: String)
        ensures
            r@ == signed_url_of(
                self.spec_devid(),
                self.spec_key(),
                "v3/stops/"@ + int_str(stop_id.0 as int) + "/route_type/"@ + int_str(
                    route_type_code(route_type),
                ) + "?"@ + query_of(options.query_fields()),
            ),
    {
        let mut p = "v3/stops/".to_owned();
        push_i32(&mut p, stop_id.0);
        p.append("/route_type/");
        push_i32(&mut p, route_type.as_code() as i32);
        p.append("?");
        let q = to_query(options);
        p.append(q.as_str());
        self.signed_url(p.as_str())
    }
}

} // verus!
