//! The site adapters: one per supported housing website, each translating
//! that site's pages into the shared result model. The fetch itself is the
//! caller's job; an adapter turns a fetched page body into listings, and
//! every extraction rule (price separators, sentinel strings, area units,
//! URL resolution) is stated and proved on the byte level.

pub mod huurwoningen;
pub mod ikwilhuren;
pub mod pararius;
pub mod rotterdamwonen;
pub mod verra;
pub mod html;

use crate::bytes::{coord_udeg, parse_coord_udeg};
use crate::model::{
    FullScrapeResult, GeoPoint, ParseField, PartialScrapeResult, ScrapeError, ScrapeResult,
};
use vstd::prelude::*;

verus! {

/// A longitude attribute's value in microdegrees: its decimal reading,
/// accepted only in the valid WGS84 range.
pub open spec fn lon_udeg_of(t: Seq<u8>) -> Option<i64> {
    match coord_udeg(t) {
        Some(v) => if -180_000_000 <= v <= 180_000_000 {
            Some(v as i64)
        } else {
            None
        },
        None => None,
    }
}

/// A latitude attribute's value in microdegrees: its decimal reading,
/// accepted only in the valid WGS84 range.
pub open spec fn lat_udeg_of(t: Seq<u8>) -> Option<i64> {
    match coord_udeg(t) {
        Some(v) => if -90_000_000 <= v <= 90_000_000 {
            Some(v as i64)
        } else {
            None
        },
        None => None,
    }
}

/// Read a coordinate pair from the longitude and latitude texts of a
/// detail page. The longitude is checked first, as the sites' pages name
/// it first.
pub fn coord_from_texts(lon_text: &[u8], lat_text: &[u8]) -> (r: Result<GeoPoint, ScrapeError>)
    ensures
        match (lon_udeg_of(lon_text@), lat_udeg_of(lat_text@)) {
            (Some(x), Some(y)) => r == Result::<GeoPoint, ScrapeError>::Ok(
                GeoPoint { lon_udeg: x, lat_udeg: y },
            ) && r->Ok_0.wf(),
            (None, _) => r == Result::<GeoPoint, ScrapeError>::Err(
                ScrapeError::Parse(ParseField::Longitude),
            ),
            (Some(_), None) => r == Result::<GeoPoint, ScrapeError>::Err(
                ScrapeError::Parse(ParseField::Latitude),
            ),
        },
{
    let lon: i64 = match parse_coord_udeg(lon_text) {
        Some(v) => {
            if v < -180_000_000 || v > 180_000_000 {
                return Err(ScrapeError::Parse(ParseField::Longitude));
            }
            v
        },
        None => {
            return Err(ScrapeError::Parse(ParseField::Longitude));
        },
    };
    let lat: i64 = match parse_coord_udeg(lat_text) {
        Some(v) => {
            if v < -90_000_000 || v > 90_000_000 {
                return Err(ScrapeError::Parse(ParseField::Latitude));
            }
            v
        },
        None => {
            return Err(ScrapeError::Parse(ParseField::Latitude));
        },
    };
    Ok(GeoPoint { lon_udeg: lon, lat_udeg: lat })
}

/// The capability interface every site adapter implements. The pipeline
/// is written once against it and never learns which site it holds.
pub trait WebsiteScraper {
    /// The fixed, site-specific URL of the listing index, sorted newest
    /// first by the site itself.
    fn index_url(&self) -> &'static str;

    /// Turn a fetched index page into one result per listing found, in
    /// site order. A single malformed listing fails the whole page:
    /// extraction is fail-fast, with no partial success within one page.
    fn list_from_index(&self, body: &str) -> (r: Result<Vec<ScrapeResult>, ScrapeError>)
        ensures
            r is Ok ==> forall|i: int|
                0 <= i < r->Ok_0.deep_view().len() ==> (#[trigger] r->Ok_0.deep_view()[i]).wf(),
    ;

    /// Turn a fetched detail page into the full listing: the partial
    /// listing's fields unchanged, plus valid coordinates. Adapters
    /// without a detail page fail with `Unsupported`, which callers must
    /// never retry.
    fn detail_from_page(&self, partial: PartialScrapeResult, body: &str) -> (r: Result<
        FullScrapeResult,
        ScrapeError,
    >)
        ensures
            r is Ok ==> r->Ok_0@.partial == partial@ && r->Ok_0@.location.wf(),
    ;
}

} // verus!
