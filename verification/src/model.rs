//! The shared result model: a listing as produced by the index-page scan
//! (`PartialScrapeResult`), a listing enriched with coordinates
//! (`FullScrapeResult`), and the tagged union an adapter returns
//! (`ScrapeResult`). Each executable type has a ghost view that the
//! contracts of the pipeline speak about.

use crate::bytes::copy_bytes;
use vstd::prelude::*;

verus! {

/// A geographic position in integer microdegrees (WGS84). One microdegree
/// is 1/1_000_000 of a degree, so every valid longitude lies in
/// [-180_000_000, 180_000_000] and every valid latitude in
/// [-90_000_000, 90_000_000].
#[derive(Clone, Copy, PartialEq, Eq, Structural, Debug)]
pub struct GeoPoint {
    pub lon_udeg: i64,
    pub lat_udeg: i64,
}

impl GeoPoint {
    /// Valid WGS84 coordinates.
    pub open spec fn wf(self) -> bool {
        &&& -180_000_000 <= self.lon_udeg <= 180_000_000
        &&& -90_000_000 <= self.lat_udeg <= 90_000_000
    }
}

/// Ghost value of a `PartialScrapeResult`.
pub ghost struct PartialScrapeView {
    pub title: Seq<u8>,
    pub price: usize,
    pub url: Seq<u8>,
    pub area: u32,
}

impl PartialScrapeView {
    /// The dedup key must be non-empty.
    pub open spec fn wf(self) -> bool {
        self.url.len() > 0
    }
}

/// Ghost value of a `FullScrapeResult`.
pub ghost struct FullScrapeView {
    pub partial: PartialScrapeView,
    pub location: GeoPoint,
}

impl FullScrapeView {
    /// The shared fields are valid and the coordinates are valid WGS84.
    pub open spec fn wf(self) -> bool {
        self.partial.wf() && self.location.wf()
    }
}

/// Ghost value of a `ScrapeResult`.
pub ghost enum ScrapeView {
    Partial(PartialScrapeView),
    Full(FullScrapeView),
}

impl ScrapeView {
    /// The shared fields of either variant ("widening" read access).
    pub open spec fn partial(self) -> PartialScrapeView {
        match self {
            ScrapeView::Partial(p) => p,
            ScrapeView::Full(f) => f.partial,
        }
    }

    /// The dedup key of either variant.
    pub open spec fn url(self) -> Seq<u8> {
        self.partial().url
    }

    /// Well-formed in either variant; coordinates, when present, are valid.
    pub open spec fn wf(self) -> bool {
        match self {
            ScrapeView::Partial(p) => p.wf(),
            ScrapeView::Full(f) => f.wf(),
        }
    }
}

/// Index-page data of one listing: the shared fields every downstream
/// stage can read. `url` is the stable dedup key.
#[derive(Debug)]
pub struct PartialScrapeResult {
    pub title: Vec<u8>,
    pub price: usize,
    pub url: Vec<u8>,
    pub area: u32,
}

impl View for PartialScrapeResult {
    type V = PartialScrapeView;

    open spec fn view(&self) -> PartialScrapeView {
        PartialScrapeView { title: self.title@, price: self.price, url: self.url@, area: self.area }
    }
}

impl DeepView for PartialScrapeResult {
    type V = PartialScrapeView;

    open spec fn deep_view(&self) -> PartialScrapeView {
        self@
    }
}

impl Clone for PartialScrapeResult {
    fn clone(&self) -> (r: Self)
        ensures
            r@ == self@,
    {
        PartialScrapeResult {
            title: copy_bytes(self.title.as_slice()),
            price: self.price,
            url: copy_bytes(self.url.as_slice()),
            area: self.area,
        }
    }
}

/// A listing enriched with its geographic position.
#[derive(Debug)]
pub struct FullScrapeResult {
    pub partial: PartialScrapeResult,
    pub location: GeoPoint,
}

impl View for FullScrapeResult {
    type V = FullScrapeView;

    open spec fn view(&self) -> FullScrapeView {
        FullScrapeView { partial: self.partial@, location: self.location }
    }
}

impl DeepView for FullScrapeResult {
    type V = FullScrapeView;

    open spec fn deep_view(&self) -> FullScrapeView {
        self@
    }
}

impl Clone for FullScrapeResult {
    fn clone(&self) -> (r: Self)
        ensures
            r@ == self@,
    {
        FullScrapeResult { partial: self.partial.clone(), location: self.location }
    }
}

/// What an adapter returns for one listing: adapters that find coordinates
/// on the index page produce `Full` right away; the others produce
/// `Partial` and defer enrichment to a detail fetch.
#[derive(Debug)]
pub enum ScrapeResult {
    Partial(PartialScrapeResult),
    Full(FullScrapeResult),
}

impl View for ScrapeResult {
    type V = ScrapeView;

    open spec fn view(&self) -> ScrapeView {
        match self {
            ScrapeResult::Partial(p) => ScrapeView::Partial(p@),
            ScrapeResult::Full(f) => ScrapeView::Full(f@),
        }
    }
}

impl DeepView for ScrapeResult {
    type V = ScrapeView;

    open spec fn deep_view(&self) -> ScrapeView {
        self@
    }
}

impl Clone for ScrapeResult {
    fn clone(&self) -> (r: Self)
        ensures
            r@ == self@,
    {
        match self {
            ScrapeResult::Partial(p) => ScrapeResult::Partial(p.clone()),
            ScrapeResult::Full(f) => ScrapeResult::Full(f.clone()),
        }
    }
}

impl ScrapeResult {
    /// Read the shared fields regardless of variant.
    pub fn partial(&self) -> (r: &PartialScrapeResult)
        ensures
            r@ == self@.partial(),
    {
        match self {
            ScrapeResult::Partial(p) => p,
            ScrapeResult::Full(f) => &f.partial,
        }
    }

    /// The enrichment accessor, as a decision: a result that is already
    /// `Full` is handed back unchanged and no detail fetch is requested;
    /// a `Partial` result names the listing whose detail page must be
    /// fetched. This is the idempotent-enrichment contract: the pipeline
    /// treats every adapter uniformly, and an already-enriched listing
    /// never costs a second request.
    pub fn enrich_step(self) -> (s: EnrichmentStep)
        ensures
            self@ is Full ==> s is AlreadyFull && s->AlreadyFull_0@ == self@->Full_0,
            self@ is Partial ==> s is NeedsFetch && s->NeedsFetch_0@ == self@->Partial_0,
    {
        match self {
            ScrapeResult::Full(f) => EnrichmentStep::AlreadyFull(f),
            ScrapeResult::Partial(p) => EnrichmentStep::NeedsFetch(p),
        }
    }
}

/// The two outcomes of asking for a full listing: it was already full
/// (no network call), or a detail fetch of the named listing is needed.
#[derive(Debug)]
pub enum EnrichmentStep {
    AlreadyFull(FullScrapeResult),
    NeedsFetch(PartialScrapeResult),
}

/// The field whose extraction failed, named in a `ScrapeError::Parse`.
#[derive(Clone, Copy, PartialEq, Eq, Structural, Debug)]
pub enum ParseField {
    Title,
    Url,
    Price,
    Area,
    Longitude,
    Latitude,
    /// A selector for a required element did not compile or match.
    Element,
}

/// The error taxonomy of the acquisition side.
#[derive(Clone, Copy, PartialEq, Eq, Structural, Debug)]
pub enum ScrapeError {
    /// The HTTP request did not succeed (network error or non-2xx status).
    /// Retryable by the next cycle only.
    Fetch,
    /// Structural extraction failed: the named field was missing or
    /// malformed. Page-layout drift; not retryable within a cycle.
    Parse(ParseField),
    /// The adapter has no per-listing detail page. A declared capability
    /// gap; must never be retried.
    Unsupported,
}

} // verus!
