//! Addresses as the reverse-geocoding service reports them, and the request
//! that asks for one.
use vstd::prelude::*;
use vstd::string::StringExecFns;

verus! {

/// The parts of a postal address that the service may fill in.
#[derive(Debug, Clone, PartialEq, Eq)]
pub struct Address {
    pub city: Option<String>,
    pub country: Option<String>,
    pub country_code: Option<String>,
    pub county: Option<String>,
    pub leisure: Option<String>,
    pub municipality: Option<String>,
    pub postcode: Option<String>,
    pub region: Option<String>,
    pub road: Option<String>,
    pub state: Option<String>,
}

/// A resolved place: its address, the position echoed back as text, and what
/// the service adds about the map object it found.
#[derive(Debug, Clone, PartialEq, Eq)]
pub struct Location {
    pub address: Address,
    pub lat: String,
    pub lon: String,
    pub osm_id: Option<u64>,
    pub osm_type: Option<String>,
    pub place_id: Option<u64>,
    pub boundingbox: Option<Vec<String>>,
}

/// The address of a reverse lookup for a position given as decimal text.
pub open spec fn reverse_url_of(lat: Seq<char>, lon: Seq<char>) -> Seq<char> {
    "https://nominatim.openstreetmap.org/reverse?lat="@ + lat + "&lon="@ + lon + "&format=json"@
}

/// Builds the address to ask for the place at `lat`, `lon`, both already
/// written out as decimal text.
pub fn reverse_url(lat: &str, lon: &str) -> (url: String)
    ensures
        url@ == reverse_url_of(lat@, lon@),
{
    let mut url = String::from_str("https://nominatim.openstreetmap.org/reverse?lat=");
    url.append(lat);
    url.append("&lon=");
    url.append(lon);
    url.append("&format=json");
    url
}

/// The name under which requests are sent to the service.
pub fn user_agent() -> (agent: &'static str)
    ensures
        agent@ == "captracker 1.0"@,
{
    "captracker 1.0"
}

} // verus!
