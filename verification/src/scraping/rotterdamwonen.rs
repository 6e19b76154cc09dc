//! The RotterdamWonen adapter: the agency's own offer page, newest first.
//! The index page embeds coordinates in each listing's data attributes, so
//! this adapter short-circuits straight to `Full` results and has no
//! detail page: its detail operation is a declared capability gap.

use crate::bytes::{
    all_digits, copy_bytes, dec_val, parse_u64_digits, trim_bytes, trim_ws, ws_tokens,
};
use crate::model::{
    FullScrapeResult, FullScrapeView, GeoPoint, ParseField, PartialScrapeResult,
    PartialScrapeView, ScrapeError, ScrapeResult, ScrapeView,
};
use super::html::{
    attr_bytes, attr_of, first_text, matches_within, page_matches, select_all,
    select_first_within, selector_ok, text_of, PageDoc, Sel,
};
use super::{coord_from_texts, lat_udeg_of, lon_udeg_of, WebsiteScraper};
use vstd::prelude::*;

verus! {

/// Price policy: the amount is the last whitespace-separated token of the
/// listing's price attribute, read as a decimal numeral.
pub open spec fn rotterdamwonen_price(raw: Seq<u8>) -> Option<usize> {
    let toks = ws_tokens(raw);
    if toks.len() > 0 {
        let lastt = toks[toks.len() - 1];
        if lastt.len() > 0 && all_digits(lastt) && dec_val(lastt) <= usize::MAX {
            Some(dec_val(lastt) as usize)
        } else {
            None
        }
    } else {
        None
    }
}

/// Area policy: the whole (trimmed) text, read as a decimal numeral of
/// square meters.
pub open spec fn rotterdamwonen_area(raw: Seq<u8>) -> Option<u32> {
    if raw.len() > 0 && all_digits(raw) && dec_val(raw) <= u32::MAX {
        Some(dec_val(raw) as u32)
    } else {
        None
    }
}

/// One full listing from the attributes and texts extracted on the index
/// page: the listing's URL comes from an attribute and must be non-empty;
/// the coordinates come from the index page itself.
pub open spec fn rotterdamwonen_listing(
    title: Seq<u8>,
    url: Seq<u8>,
    price_raw: Seq<u8>,
    area_raw: Seq<u8>,
    lon_text: Seq<u8>,
    lat_text: Seq<u8>,
) -> Result<FullScrapeView, ScrapeError> {
    let price = rotterdamwonen_price(price_raw);
    let area = rotterdamwonen_area(trim_ws(area_raw));
    if price is None {
        Err(ScrapeError::Parse(ParseField::Price))
    } else if area is None {
        Err(ScrapeError::Parse(ParseField::Area))
    } else if url.len() == 0 {
        Err(ScrapeError::Parse(ParseField::Url))
    } else {
        match (lon_udeg_of(lon_text), lat_udeg_of(lat_text)) {
            (None, _) => Err(ScrapeError::Parse(ParseField::Longitude)),
            (Some(_), None) => Err(ScrapeError::Parse(ParseField::Latitude)),
            (Some(x), Some(y)) => Ok(
                FullScrapeView {
                    partial: PartialScrapeView {
                        title,
                        price: price->Some_0,
                        url,
                        area: area->Some_0,
                    },
                    location: GeoPoint { lon_udeg: x, lat_udeg: y },
                },
            ),
        }
    }
}

/// One listing element of the index page, read through the named
/// selection outcomes: its data attributes (a missing title defaults to
/// empty) and the area text of its first meta item, then the per-listing
/// policy.
pub open spec fn rotterdamwonen_house(body: Seq<char>, house: int) -> Result<
    ScrapeView,
    ScrapeError,
> {
    let title = match attr_of(body, house, "data-title"@) {
        Some(t) => t,
        None => Seq::<u8>::empty(),
    };
    match attr_of(body, house, "data-price"@) {
        None => Err(ScrapeError::Parse(ParseField::Price)),
        Some(price_raw) => {
            let area_els = matches_within(
                body,
                house,
                ".property-meta-item.first-item > .property-meta-number"@,
            );
            if area_els.len() == 0 {
                Err(ScrapeError::Parse(ParseField::Area))
            } else {
                match text_of(body, area_els[0]) {
                    None => Err(ScrapeError::Parse(ParseField::Area)),
                    Some(area_raw) => match attr_of(body, house, "data-link"@) {
                        None => Err(ScrapeError::Parse(ParseField::Url)),
                        Some(url) => match attr_of(body, house, "data-lat"@) {
                            None => Err(ScrapeError::Parse(ParseField::Latitude)),
                            Some(lat_text) => match attr_of(body, house, "data-long"@) {
                                None => Err(ScrapeError::Parse(ParseField::Longitude)),
                                Some(lon_text) => match rotterdamwonen_listing(
                                    title,
                                    url,
                                    price_raw,
                                    area_raw,
                                    lon_text,
                                    lat_text,
                                ) {
                                    Ok(f) => Ok(ScrapeView::Full(f)),
                                    Err(e) => Err(e),
                                },
                            },
                        },
                    },
                }
            }
        },
    }
}

/// The listing elements read in order, fail-fast: one malformed listing
/// makes the whole page an error, and no partial result survives.
pub open spec fn rotterdamwonen_houses(body: Seq<char>, ids: Seq<int>) -> Result<
    Seq<ScrapeView>,
    ScrapeError,
>
    decreases ids.len(),
{
    if ids.len() == 0 {
        Ok(seq![])
    } else {
        match rotterdamwonen_house(body, ids[0]) {
            Err(e) => Err(e),
            Ok(v) => match rotterdamwonen_houses(body, ids.drop_first()) {
                Err(e) => Err(e),
                Ok(rest) => Ok(seq![v] + rest),
            },
        }
    }
}

/// Fail-fast: a malformed listing anywhere in the batch makes the whole
/// page an error — the well-formed neighbors yield no partial result.
pub proof fn lemma_rotterdamwonen_fail_fast(body: Seq<char>, ids: Seq<int>, k: int)
    requires
        0 <= k < ids.len(),
        rotterdamwonen_house(body, ids[k]) is Err,
    ensures
        rotterdamwonen_houses(body, ids) is Err,
    decreases k,
{
    if !(rotterdamwonen_house(body, ids[0]) is Err) {
        assert(ids.drop_first()[k - 1] == ids[k]);
        lemma_rotterdamwonen_fail_fast(body, ids.drop_first(), k - 1);
    }
}

/// The whole index page: every matched listing element, in document
/// order, under the fail-fast rule.
pub open spec fn rotterdamwonen_page(body: Seq<char>) -> Result<Seq<ScrapeView>, ScrapeError> {
    if !selector_ok("div.property-list-item"@) || !selector_ok(
        ".property-meta-item.first-item > .property-meta-number"@,
    ) {
        Err(ScrapeError::Parse(ParseField::Element))
    } else {
        rotterdamwonen_houses(body, page_matches(body, "div.property-list-item"@))
    }
}

/// Scrapes the RotterdamWonen offer page, newest first.
#[derive(Default, Debug)]
pub struct RotterdamWonenScraper;

impl RotterdamWonenScraper {
    /// Assemble one full listing from the attributes and texts extracted
    /// on the index page, exactly as `rotterdamwonen_listing` states.
    pub fn listing_from_parts(
        title_text: &[u8],
        url_text: &[u8],
        price_text: &[u8],
        area_text: &[u8],
        lon_text: &[u8],
        lat_text: &[u8],
    ) -> (r: Result<FullScrapeResult, ScrapeError>)
        ensures
            match rotterdamwonen_listing(
                title_text@,
                url_text@,
                price_text@,
                area_text@,
                lon_text@,
                lat_text@,
            ) {
                Ok(f) => r is Ok && r->Ok_0@ == f && f.wf(),
                Err(e) => r is Err && r->Err_0 == e,
            },
    {
        let price: usize = match last_ws_token_value(price_text) {
            Some(v) => v,
            None => {
                return Err(ScrapeError::Parse(ParseField::Price));
            },
        };
        let area_trim = trim_bytes(area_text);
        let area: u32 = match parse_u64_digits(area_trim.as_slice()) {
            Some(v) => {
                if v <= u32::MAX as u64 {
                    v as u32
                } else {
                    return Err(ScrapeError::Parse(ParseField::Area));
                }
            },
            None => {
                return Err(ScrapeError::Parse(ParseField::Area));
            },
        };
        if url_text.len() == 0 {
            return Err(ScrapeError::Parse(ParseField::Url));
        }
        let location = match coord_from_texts(lon_text, lat_text) {
            Ok(g) => g,
            Err(e) => {
                return Err(e);
            },
        };
        let partial = PartialScrapeResult {
            title: copy_bytes(title_text),
            price,
            url: copy_bytes(url_text),
            area,
        };
        Ok(FullScrapeResult { partial, location })
    }
}

/// The last whitespace-separated token of the price attribute, read as a
/// decimal numeral.
fn last_ws_token_value(price_text: &[u8]) -> (r: Option<usize>)
    ensures
        r == rotterdamwonen_price(price_text@),
{
    let toks = crate::bytes::split_ws(price_text);
    if toks.len() == 0 {
        return None;
    }
    let lastt = &toks[toks.len() - 1];
    proof {
        assert(lastt@ == ws_tokens(price_text@)[ws_tokens(price_text@).len() - 1]);
    }
    match parse_u64_digits(lastt.as_slice()) {
        Some(v) => {
            if v <= usize::MAX as u64 {
                Some(v as usize)
            } else {
                None
            }
        },
        None => None,
    }
}

impl WebsiteScraper for RotterdamWonenScraper {
    fn index_url(&self) -> &'static str {
        "https://www.rotterdamwonen.nl/aanbod/?sortby=date-desc"
    }

    #[verifier::loop_isolation(false)]
    fn list_from_index(&self, body: &str) -> (r: Result<Vec<ScrapeResult>, ScrapeError>)
        ensures
            match rotterdamwonen_page(body@) {
                Ok(views) => r is Ok && r->Ok_0.deep_view() == views,
                Err(e) => r is Err && r->Err_0 == e,
            },
    {
        let sel_houses = match Sel::new("div.property-list-item") {
            Some(s) => s,
            None => {
                return Err(ScrapeError::Parse(ParseField::Element));
            },
        };
        // The first meta item carries the surface area on every listing
        // currently served; the order is assumed stable.
        let sel_area = match Sel::new(".property-meta-item.first-item > .property-meta-number") {
            Some(s) => s,
            None => {
                return Err(ScrapeError::Parse(ParseField::Element));
            },
        };
        let doc = PageDoc::new(body);
        let houses = select_all(&doc, &sel_houses);
        let ghost ids = page_matches(body@, "div.property-list-item"@);
        let mut out: Vec<ScrapeResult> = Vec::new();
        let mut i: usize = 0;
        proof {
            assert(ids.skip(0) =~= ids);
            if rotterdamwonen_houses(body@, ids) is Ok {
                assert(out.deep_view() + rotterdamwonen_houses(body@, ids)->Ok_0
                    =~= rotterdamwonen_houses(body@, ids)->Ok_0);
            }
        }
        while i < houses.len()
            invariant
                i <= houses@.len(),
                houses@.len() == ids.len(),
                rotterdamwonen_houses(body@, ids) == (match rotterdamwonen_houses(
                    body@,
                    ids.skip(i as int),
                ) {
                    Ok(rest) => Ok::<Seq<ScrapeView>, ScrapeError>(out.deep_view() + rest),
                    Err(e) => Err(e),
                }),
                forall|j: int|
                    0 <= j < out.deep_view().len() ==> (#[trigger] out.deep_view()[j]).wf(),
            decreases houses@.len() - i,
        {
            let house = &houses[i];
            proof {
                assert(house.id@ == ids[i as int]);
                assert(ids.skip(i as int)[0] == ids[i as int]);
                assert(ids.skip(i as int).drop_first() =~= ids.skip(i + 1));
            }
            let title_text: Vec<u8> = match attr_bytes(house, "data-title") {
                Some(t) => t,
                None => Vec::new(),
            };
            proof {
                if attr_of(body@, ids[i as int], "data-title"@) is None {
                    assert(title_text@ =~= Seq::<u8>::empty());
                }
            }
            let price_text = match attr_bytes(house, "data-price") {
                Some(t) => t,
                None => {
                    return Err(ScrapeError::Parse(ParseField::Price));
                },
            };
            let area_el = match select_first_within(house, &sel_area) {
                Some(e) => e,
                None => {
                    return Err(ScrapeError::Parse(ParseField::Area));
                },
            };
            let area_text = match first_text(&area_el) {
                Some(t) => t,
                None => {
                    return Err(ScrapeError::Parse(ParseField::Area));
                },
            };
            let url_text = match attr_bytes(house, "data-link") {
                Some(t) => t,
                None => {
                    return Err(ScrapeError::Parse(ParseField::Url));
                },
            };
            let lat_text = match attr_bytes(house, "data-lat") {
                Some(t) => t,
                None => {
                    return Err(ScrapeError::Parse(ParseField::Latitude));
                },
            };
            let lon_text = match attr_bytes(house, "data-long") {
                Some(t) => t,
                None => {
                    return Err(ScrapeError::Parse(ParseField::Longitude));
                },
            };
            let built = match Self::listing_from_parts(
                title_text.as_slice(),
                url_text.as_slice(),
                price_text.as_slice(),
                area_text.as_slice(),
                lon_text.as_slice(),
                lat_text.as_slice(),
            ) {
                Ok(f) => f,
                Err(e) => {
                    return Err(e);
                },
            };
            let ghost pre = out.deep_view();
            out.push(ScrapeResult::Full(built));
            proof {
                assert(rotterdamwonen_house(body@, ids[i as int]) == Ok::<ScrapeView, ScrapeError>(
                    ScrapeView::Full(built@),
                ));
                assert(out.deep_view() =~= pre + seq![ScrapeView::Full(built@)]);
                if rotterdamwonen_houses(body@, ids.skip(i + 1)) is Ok {
                    assert((pre + seq![ScrapeView::Full(built@)]) + rotterdamwonen_houses(
                        body@,
                        ids.skip(i + 1),
                    )->Ok_0 =~= pre + (seq![ScrapeView::Full(built@)] + rotterdamwonen_houses(
                        body@,
                        ids.skip(i + 1),
                    )->Ok_0));
                }
            }
            i = i + 1;
        }
        proof {
            assert(ids.skip(ids.len() as int) =~= Seq::<int>::empty());
            assert(out.deep_view() + Seq::<ScrapeView>::empty() =~= out.deep_view());
        }
        Ok(out)
    }

    fn detail_from_page(&self, _partial: PartialScrapeResult, _body: &str) -> (r: Result<
        FullScrapeResult,
        ScrapeError,
    >)
        ensures
            r == Result::<FullScrapeResult, ScrapeError>::Err(ScrapeError::Unsupported),
    {
        // No per-listing detail page: a declared capability gap, distinct
        // from transient fetch failures, and never to be retried.
        Err(ScrapeError::Unsupported)
    }
}

} // verus!
