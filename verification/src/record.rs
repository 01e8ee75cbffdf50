use vstd::prelude::*;
use crate::text::str_eq;

verus! {

/// Latitude and longitude as decimal text recovered from a marker URL,
/// for the caller to read as floating point.
#[derive(Debug, Clone)]
pub struct Location {
    pub latitude: String,
    pub longitude: String,
}

/// One extracted place: the fixed schema that every marker yields.
#[derive(Debug, Clone)]
pub struct PlaceRecord {
    pub id: String,
    pub formatted_address: String,
    pub location: Location,
    pub primary_type: String,
    pub google_maps_uri: String,
    pub thumb: Option<String>,
    pub international_phone_number: Option<String>,
    /// The first aggregate-text token with commas normalized to periods;
    /// the caller parses it as floating point and drops what does not parse.
    pub rating: Option<String>,
    /// The third aggregate-text token read as an unsigned integer.
    pub user_rating_count: Option<u32>,
}

/// The mathematical model of a place record.
pub struct RecordModel {
    pub id: Seq<char>,
    pub formatted_address: Seq<char>,
    pub latitude: Seq<char>,
    pub longitude: Seq<char>,
    pub primary_type: Seq<char>,
    pub maps_uri: Seq<char>,
    pub thumb: Option<Seq<char>>,
    pub phone: Option<Seq<char>>,
    pub rating: Option<Seq<char>>,
    pub user_rating_count: Option<u32>,
}

impl View for PlaceRecord {
    type V = RecordModel;

    open spec fn view(&self) -> RecordModel {
        RecordModel {
            id: self.id@,
            formatted_address: self.formatted_address@,
            latitude: self.location.latitude@,
            longitude: self.location.longitude@,
            primary_type: self.primary_type@,
            maps_uri: self.google_maps_uri@,
            thumb: match self.thumb {
                Some(ref s) => Some(s@),
                None => None,
            },
            phone: match self.international_phone_number {
                Some(ref s) => Some(s@),
                None => None,
            },
            rating: match self.rating {
                Some(ref s) => Some(s@),
                None => None,
            },
            user_rating_count: self.user_rating_count,
        }
    }
}

/// The models of a list of records.
pub open spec fn rec_views(v: Seq<PlaceRecord>) -> Seq<RecordModel> {
    v.map_values(|r: PlaceRecord| r@)
}

/// Executable equality of two optional strings by their characters.
pub fn opt_str_eq(a: &Option<String>, b: &Option<String>) -> (r: bool)
    ensures
        r == match (a, b) {
            (Some(x), Some(y)) => x@ == y@,
            (None, None) => true,
            _ => false,
        },
{
    match (a, b) {
        (Some(x), Some(y)) => str_eq(x.as_str(), y.as_str()),
        (None, None) => true,
        _ => false,
    }
}

impl PartialEq for Location {
    fn eq(&self, o: &Location) -> (r: bool) {
        str_eq(self.latitude.as_str(), o.latitude.as_str()) && str_eq(
            self.longitude.as_str(),
            o.longitude.as_str(),
        )
    }
}

impl vstd::std_specs::cmp::PartialEqSpecImpl for Location {
    open spec fn obeys_eq_spec() -> bool {
        true
    }

    open spec fn eq_spec(&self, o: &Location) -> bool {
        self.latitude@ == o.latitude@ && self.longitude@ == o.longitude@
    }
}

impl PartialEq for PlaceRecord {
    fn eq(&self, o: &PlaceRecord) -> (r: bool) {
        str_eq(self.id.as_str(), o.id.as_str()) && str_eq(
            self.formatted_address.as_str(),
            o.formatted_address.as_str(),
        ) && self.location == o.location && str_eq(
            self.primary_type.as_str(),
            o.primary_type.as_str(),
        ) && str_eq(self.google_maps_uri.as_str(), o.google_maps_uri.as_str()) && opt_str_eq(
            &self.thumb,
            &o.thumb,
        ) && opt_str_eq(&self.international_phone_number, &o.international_phone_number)
            && opt_str_eq(&self.rating, &o.rating) && (match (
            self.user_rating_count,
            o.user_rating_count,
        ) {
            (Some(x), Some(y)) => x == y,
            (None, None) => true,
            _ => false,
        })
    }
}

impl vstd::std_specs::cmp::PartialEqSpecImpl for PlaceRecord {
    open spec fn obeys_eq_spec() -> bool {
        true
    }

    open spec fn eq_spec(&self, o: &PlaceRecord) -> bool {
        &&& self.id@ == o.id@
        &&& self.formatted_address@ == o.formatted_address@
        &&& self.location.latitude@ == o.location.latitude@
        &&& self.location.longitude@ == o.location.longitude@
        &&& self.primary_type@ == o.primary_type@
        &&& self.google_maps_uri@ == o.google_maps_uri@
        &&& (match (&self.thumb, &o.thumb) {
            (Some(x), Some(y)) => x@ == y@,
            (None, None) => true,
            _ => false,
        })
        &&& (match (&self.international_phone_number, &o.international_phone_number) {
            (Some(x), Some(y)) => x@ == y@,
            (None, None) => true,
            _ => false,
        })
        &&& (match (&self.rating, &o.rating) {
            (Some(x), Some(y)) => x@ == y@,
            (None, None) => true,
            _ => false,
        })
        &&& self.user_rating_count == o.user_rating_count
    }
}

} // verus!
