//! The Verra Makelaars adapter: the agency's live-listings feed. The feed
//! is a JSON document; the caller decodes it into plain records and hands
//! them here. Every record's coordinates arrive with the index data, so
//! the kept listings are `Full` right away and the adapter has no detail
//! page: its detail operation is a declared capability gap.

use crate::bytes::copy_bytes;
use crate::model::{
    FullScrapeResult, FullScrapeView, GeoPoint, ParseField, PartialScrapeResult,
    PartialScrapeView, ScrapeError, ScrapeResult, ScrapeView,
};
use vstd::prelude::*;

verus! {

/// One record of the feed, as plain values: the fields the policy reads,
/// with the coordinates already in microdegrees.
#[derive(Debug)]
pub struct VerraListing {
    pub address: Vec<u8>,
    pub price: usize,
    pub area: u32,
    pub is_rentals: bool,
    pub status: Vec<u8>,
    pub url: Vec<u8>,
    pub lon_udeg: i64,
    pub lat_udeg: i64,
}

/// Ghost value of a `VerraListing`.
pub ghost struct VerraListingView {
    pub address: Seq<u8>,
    pub price: usize,
    pub area: u32,
    pub is_rentals: bool,
    pub status: Seq<u8>,
    pub url: Seq<u8>,
    pub lon_udeg: i64,
    pub lat_udeg: i64,
}

impl View for VerraListing {
    type V = VerraListingView;

    open spec fn view(&self) -> VerraListingView {
        VerraListingView {
            address: self.address@,
            price: self.price,
            area: self.area,
            is_rentals: self.is_rentals,
            status: self.status@,
            url: self.url@,
            lon_udeg: self.lon_udeg,
            lat_udeg: self.lat_udeg,
        }
    }
}

impl DeepView for VerraListing {
    type V = VerraListingView;

    open spec fn deep_view(&self) -> VerraListingView {
        self@
    }
}

/// The origin against which the feed's relative listing paths resolve:
/// the bytes of "https://www.verra.nl".
pub open spec fn verra_base() -> Seq<u8> {
    seq![
        0x68u8, 0x74, 0x74, 0x70, 0x73, 0x3a, 0x2f, 0x2f, 0x77, 0x77, 0x77, 0x2e, 0x76, 0x65,
        0x72, 0x72, 0x61, 0x2e, 0x6e, 0x6c,
    ]
}

/// The feed's "available" status, byte for byte: "Beschikbaar".
pub open spec fn beschikbaar() -> Seq<u8> {
    seq![0x42u8, 0x65, 0x73, 0x63, 0x68, 0x69, 0x6b, 0x62, 0x61, 0x61, 0x72]
}

/// Keep policy: a record is a listing only when it is a rental and its
/// status is exactly "Beschikbaar" (available).
pub open spec fn verra_keep(rec: VerraListingView) -> bool {
    rec.is_rentals && rec.status == beschikbaar()
}

/// The full listing a kept record yields: its address as the title, its
/// path resolved against the site's origin with a trailing slash, and its
/// embedded coordinates.
pub open spec fn verra_full(rec: VerraListingView) -> FullScrapeView {
    FullScrapeView {
        partial: PartialScrapeView {
            title: rec.address,
            price: rec.price,
            url: verra_base() + rec.url + seq![0x2fu8],
            area: rec.area,
        },
        location: GeoPoint { lon_udeg: rec.lon_udeg, lat_udeg: rec.lat_udeg },
    }
}

/// The whole feed's reading: kept records become `Full` results in feed
/// order; a kept record whose coordinates are not valid WGS84 fails the
/// feed (fail-fast, like the HTML adapters' extraction).
pub open spec fn verra_results(recs: Seq<VerraListingView>) -> Result<Seq<ScrapeView>, ScrapeError>
    decreases recs.len(),
{
    if recs.len() == 0 {
        Ok(seq![])
    } else {
        let r0 = recs[0];
        if !verra_keep(r0) {
            verra_results(recs.drop_first())
        } else if !(-180_000_000 <= r0.lon_udeg <= 180_000_000) {
            Err(ScrapeError::Parse(ParseField::Longitude))
        } else if !(-90_000_000 <= r0.lat_udeg <= 90_000_000) {
            Err(ScrapeError::Parse(ParseField::Latitude))
        } else {
            match verra_results(recs.drop_first()) {
                Err(e) => Err(e),
                Ok(rest) => Ok(seq![ScrapeView::Full(verra_full(r0))] + rest),
            }
        }
    }
}

/// Scrapes the Verra Makelaars live-listings feed.
#[derive(Default, Debug)]
pub struct VerraMakelaarsScraper;

impl VerraMakelaarsScraper {
    /// The fixed URL of the live-listings feed.
    pub fn index_url(&self) -> &'static str {
        "https://www.verra.nl/nl/realtime-listings/consumer"
    }

    /// Turn the decoded feed records into results: exactly the kept
    /// records, as full listings, in feed order.
    #[verifier::loop_isolation(false)]
    pub fn listings_from_records(&self, records: &Vec<VerraListing>) -> (r: Result<
        Vec<ScrapeResult>,
        ScrapeError,
    >)
        ensures
            match verra_results(records.deep_view()) {
                Ok(views) => r is Ok && r->Ok_0.deep_view() == views,
                Err(e) => r is Err && r->Err_0 == e,
            },
            r is Ok ==> forall|i: int|
                0 <= i < r->Ok_0.deep_view().len() ==> (#[trigger] r->Ok_0.deep_view()[i]).wf(),
    {
        let ghost rv = records.deep_view();
        let mut out: Vec<ScrapeResult> = Vec::new();
        let mut i: usize = 0;
        proof {
            assert(rv.skip(0) =~= rv);
            if verra_results(rv) is Ok {
                assert(out.deep_view() + verra_results(rv)->Ok_0 =~= verra_results(rv)->Ok_0);
            }
        }
        while i < records.len()
            invariant
                i <= rv.len(),
                verra_results(rv) == (match verra_results(rv.skip(i as int)) {
                    Ok(rest) => Ok::<Seq<ScrapeView>, ScrapeError>(out.deep_view() + rest),
                    Err(e) => Err(e),
                }),
                forall|j: int|
                    0 <= j < out.deep_view().len() ==> (#[trigger] out.deep_view()[j]).wf()
                        && out.deep_view()[j].url().len() > 0,
            decreases rv.len() - i,
        {
            let rec = &records[i];
            proof {
                assert(rv.skip(i as int)[0] == rv[i as int]);
                assert(rv.skip(i as int).drop_first() =~= rv.skip(i + 1));
            }
            let status_ok: bool = {
                let avail: [u8; 11] = [
                    0x42, 0x65, 0x73, 0x63, 0x68, 0x69, 0x6b, 0x62, 0x61, 0x61, 0x72,
                ];
                proof {
                    assert(avail@ =~= beschikbaar());
                }
                crate::bytes::bytes_eq(rec.status.as_slice(), avail.as_slice())
            };
            if rec.is_rentals && status_ok {
                if rec.lon_udeg < -180_000_000 || rec.lon_udeg > 180_000_000 {
                    return Err(ScrapeError::Parse(ParseField::Longitude));
                }
                if rec.lat_udeg < -90_000_000 || rec.lat_udeg > 90_000_000 {
                    return Err(ScrapeError::Parse(ParseField::Latitude));
                }
                let base: [u8; 20] = [
                    0x68, 0x74, 0x74, 0x70, 0x73, 0x3a, 0x2f, 0x2f, 0x77, 0x77, 0x77, 0x2e, 0x76,
                    0x65, 0x72, 0x72, 0x61, 0x2e, 0x6e, 0x6c,
                ];
                proof {
                    assert(base@ =~= verra_base());
                }
                let mut url = crate::bytes::concat_bytes(base.as_slice(), rec.url.as_slice());
                url.push(0x2f);
                proof {
                    assert(url@ =~= verra_base() + rv[i as int].url + seq![0x2fu8]);
                }
                let full = FullScrapeResult {
                    partial: PartialScrapeResult {
                        title: copy_bytes(rec.address.as_slice()),
                        price: rec.price,
                        url,
                        area: rec.area,
                    },
                    location: GeoPoint { lon_udeg: rec.lon_udeg, lat_udeg: rec.lat_udeg },
                };
                let ghost pre = out.deep_view();
                out.push(ScrapeResult::Full(full));
                proof {
                    assert(full@ == verra_full(rv[i as int]));
                    assert(out.deep_view() =~= pre + seq![ScrapeView::Full(verra_full(rv[i as int]))]);
                    if verra_results(rv.skip(i + 1)) is Ok {
                        assert((pre + seq![ScrapeView::Full(verra_full(rv[i as int]))])
                            + verra_results(rv.skip(i + 1))->Ok_0 =~= pre + (seq![
                            ScrapeView::Full(verra_full(rv[i as int])),
                        ] + verra_results(rv.skip(i + 1))->Ok_0));
                    }
                }
            }
            i = i + 1;
        }
        proof {
            assert(rv.skip(rv.len() as int) =~= Seq::<VerraListingView>::empty());
            assert(out.deep_view() + Seq::<ScrapeView>::empty() =~= out.deep_view());
        }
        Ok(out)
    }

    /// No per-listing detail page: a declared capability gap, distinct
    /// from transient fetch failures, and never to be retried.
    pub fn detail_from_page(&self, _partial: PartialScrapeResult, _body: &str) -> (r: Result<
        FullScrapeResult,
        ScrapeError,
    >)
        ensures
            r == Result::<FullScrapeResult, ScrapeError>::Err(ScrapeError::Unsupported),
    {
        Err(ScrapeError::Unsupported)
    }
}

} // verus!
