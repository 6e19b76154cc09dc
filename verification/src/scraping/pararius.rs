//! The Pararius adapter: apartment listings for Rotterdam. Produces
//! `Partial` results from the index page; coordinates come from a second
//! fetch of the listing's own page.

use crate::bytes::{
    after_first, all_digits, bytes_eq, concat_bytes, dec_val, parse_u64_digits, piece_after,
    piece_before, prefix_to, remove_pat, remove_pattern, trim_bytes, trim_ws,
};
use crate::model::{
    FullScrapeResult, FullScrapeView, GeoPoint, ParseField, PartialScrapeResult,
    PartialScrapeView, ScrapeError, ScrapeResult, ScrapeView,
};
use super::html::{
    attr_bytes, attr_of, first_text, matches_within, page_matches, select_all,
    select_first_within, selector_ok, text_of, PageDoc, Sel,
};
use super::{lat_udeg_of, lon_udeg_of, WebsiteScraper};
use vstd::prelude::*;

verus! {

/// The origin against which the site's relative listing links resolve:
/// the bytes of "https://pararius.com".
pub open spec fn pararius_base() -> Seq<u8> {
    seq![
        0x68u8, 0x74, 0x74, 0x70, 0x73, 0x3a, 0x2f, 0x2f, 0x70, 0x61, 0x72, 0x61, 0x72, 0x69,
        0x75, 0x73, 0x2e, 0x63, 0x6f, 0x6d,
    ]
}

/// The site's "price on request" sentinel string, byte for byte.
pub open spec fn price_on_request() -> Seq<u8> {
    seq![
        0x50u8, 0x72, 0x69, 0x63, 0x65, 0x20, 0x6f, 0x6e, 0x20, 0x72, 0x65, 0x71, 0x75, 0x65,
        0x73, 0x74,
    ]
}

/// The UTF-8 euro sign.
pub open spec fn euro_sign() -> Seq<u8> {
    seq![0xe2u8, 0x82, 0xac]
}

/// The sentinel price for a listing offered "price on request": large, so
/// such listings sort last under any price filter instead of failing the
/// page.
pub const PRICE_ON_REQUEST_SENTINEL: usize = 9999;

/// Price policy: the exact sentinel string maps to the sentinel value;
/// any other text is cut at the first space, euro signs and thousands
/// commas are removed, and the rest is read as a decimal numeral.
pub open spec fn pararius_price(raw: Seq<u8>) -> Option<usize> {
    if raw == price_on_request() {
        Some(PRICE_ON_REQUEST_SENTINEL)
    } else {
        let cleaned = remove_pat(remove_pat(prefix_to(raw, 0x20), euro_sign()), seq![0x2cu8]);
        if cleaned.len() > 0 && all_digits(cleaned) && dec_val(cleaned) <= usize::MAX {
            Some(dec_val(cleaned) as usize)
        } else {
            None
        }
    }
}

/// Area policy: the text up to the first space, read as a decimal numeral
/// of square meters.
pub open spec fn pararius_area(raw: Seq<u8>) -> Option<u32> {
    let first = prefix_to(raw, 0x20);
    if first.len() > 0 && all_digits(first) && dec_val(first) <= u32::MAX {
        Some(dec_val(first) as u32)
    } else {
        None
    }
}

/// Title policy: the listing's address without its leading house-number
/// word (everything after the first space of the trimmed title; the whole
/// trimmed title when it has no space).
pub open spec fn pararius_title(raw: Seq<u8>) -> Seq<u8> {
    let t = trim_ws(raw);
    match after_first(t, 0x20) {
        Some(rest) => rest,
        None => t,
    }
}

/// One listing from the texts extracted on the index page: the whole
/// per-listing policy, with the price read before the area.
pub open spec fn pararius_listing(
    title: Seq<u8>,
    href: Seq<u8>,
    price_raw: Seq<u8>,
    area_raw: Seq<u8>,
) -> Result<PartialScrapeView, ScrapeError> {
    let price = pararius_price(trim_ws(price_raw));
    let area = pararius_area(trim_ws(area_raw));
    if price is None {
        Err(ScrapeError::Parse(ParseField::Price))
    } else if area is None {
        Err(ScrapeError::Parse(ParseField::Area))
    } else {
        Ok(
            PartialScrapeView {
                title: pararius_title(title),
                price: price->Some_0,
                url: pararius_base() + href,
                area: area->Some_0,
            },
        )
    }
}

/// One listing element of the index page, read through the named
/// selection outcomes: its title link's text and href, its price text and
/// its area text, each required in that order, then the per-listing
/// policy.
pub open spec fn pararius_house(body: Seq<char>, house: int) -> Result<ScrapeView, ScrapeError> {
    let title_els = matches_within(body, house, "a.listing-search-item__link--title"@);
    if title_els.len() == 0 {
        Err(ScrapeError::Parse(ParseField::Title))
    } else {
        match text_of(body, title_els[0]) {
            None => Err(ScrapeError::Parse(ParseField::Title)),
            Some(title) => match attr_of(body, title_els[0], "href"@) {
                None => Err(ScrapeError::Parse(ParseField::Url)),
                Some(href) => {
                    let price_els = matches_within(body, house, "div.listing-search-item__price"@);
                    if price_els.len() == 0 {
                        Err(ScrapeError::Parse(ParseField::Price))
                    } else {
                        match text_of(body, price_els[0]) {
                            None => Err(ScrapeError::Parse(ParseField::Price)),
                            Some(price_raw) => {
                                let area_els = matches_within(
                                    body,
                                    house,
                                    ".illustrated-features__item--surface-area"@,
                                );
                                if area_els.len() == 0 {
                                    Err(ScrapeError::Parse(ParseField::Area))
                                } else {
                                    match text_of(body, area_els[0]) {
                                        None => Err(ScrapeError::Parse(ParseField::Area)),
                                        Some(area_raw) => match pararius_listing(
                                            title,
                                            href,
                                            price_raw,
                                            area_raw,
                                        ) {
                                            Ok(v) => Ok(ScrapeView::Partial(v)),
                                            Err(e) => Err(e),
                                        },
                                    }
                                }
                            },
                        }
                    }
                },
            },
        }
    }
}

/// The listing elements read in order, fail-fast: one malformed listing
/// makes the whole page an error, and no partial result survives.
pub open spec fn pararius_houses(body: Seq<char>, ids: Seq<int>) -> Result<
    Seq<ScrapeView>,
    ScrapeError,
>
    decreases ids.len(),
{
    if ids.len() == 0 {
        Ok(seq![])
    } else {
        match pararius_house(body, ids[0]) {
            Err(e) => Err(e),
            Ok(v) => match pararius_houses(body, ids.drop_first()) {
                Err(e) => Err(e),
                Ok(rest) => Ok(seq![v] + rest),
            },
        }
    }
}

/// Fail-fast: a malformed listing anywhere in the batch makes the whole
/// page an error — the well-formed neighbors yield no partial result.
pub proof fn lemma_pararius_fail_fast(body: Seq<char>, ids: Seq<int>, k: int)
    requires
        0 <= k < ids.len(),
        pararius_house(body, ids[k]) is Err,
    ensures
        pararius_houses(body, ids) is Err,
    decreases k,
{
    if !(pararius_house(body, ids[0]) is Err) {
        assert(ids.drop_first()[k - 1] == ids[k]);
        lemma_pararius_fail_fast(body, ids.drop_first(), k - 1);
    }
}

/// The whole index page: every matched listing element, in document
/// order, under the fail-fast rule.
pub open spec fn pararius_page(body: Seq<char>) -> Result<Seq<ScrapeView>, ScrapeError> {
    if !selector_ok("section.listing-search-item--for-rent"@) || !selector_ok(
        "a.listing-search-item__link--title"@,
    ) || !selector_ok("div.listing-search-item__price"@) || !selector_ok(
        ".illustrated-features__item--surface-area"@,
    ) {
        Err(ScrapeError::Parse(ParseField::Element))
    } else {
        pararius_houses(body, page_matches(body, "section.listing-search-item--for-rent"@))
    }
}

/// The detail page: the map element's longitude and latitude attributes,
/// read as microdegrees and range-checked, attached to the given partial
/// listing.
pub open spec fn pararius_detail(partial: PartialScrapeView, body: Seq<char>) -> Result<
    FullScrapeView,
    ScrapeError,
> {
    if !selector_ok("wc-detail-map"@) {
        Err(ScrapeError::Parse(ParseField::Element))
    } else {
        let maps = page_matches(body, "wc-detail-map"@);
        if maps.len() == 0 {
            Err(ScrapeError::Parse(ParseField::Element))
        } else {
            match attr_of(body, maps[0], "data-longitude"@) {
                None => Err(ScrapeError::Parse(ParseField::Longitude)),
                Some(lon) => match attr_of(body, maps[0], "data-latitude"@) {
                    None => Err(ScrapeError::Parse(ParseField::Latitude)),
                    Some(lat) => match (lon_udeg_of(lon), lat_udeg_of(lat)) {
                        (None, _) => Err(ScrapeError::Parse(ParseField::Longitude)),
                        (Some(_), None) => Err(ScrapeError::Parse(ParseField::Latitude)),
                        (Some(x), Some(y)) => Ok(
                            FullScrapeView {
                                partial,
                                location: GeoPoint { lon_udeg: x, lat_udeg: y },
                            },
                        ),
                    },
                },
            }
        }
    }
}

/// Scrapes the Pararius apartment index for Rotterdam.
#[derive(Default, Debug)]
pub struct ParariusScraper;

impl ParariusScraper {
    /// Assemble one listing from the texts extracted on the index page,
    /// exactly as `pararius_listing` states.
    pub fn listing_from_parts(
        title_text: &[u8],
        href: &[u8],
        price_text: &[u8],
        area_text: &[u8],
    ) -> (r: Result<PartialScrapeResult, ScrapeError>)
        ensures
            match pararius_listing(title_text@, href@, price_text@, area_text@) {
                Ok(v) => r is Ok && r->Ok_0@ == v && v.wf(),
                Err(e) => r is Err && r->Err_0 == e,
            },
    {
        let price_trim = trim_bytes(price_text);
        let sentinel: [u8; 16] = [
            0x50, 0x72, 0x69, 0x63, 0x65, 0x20, 0x6f, 0x6e, 0x20, 0x72, 0x65, 0x71, 0x75, 0x65,
            0x73, 0x74,
        ];
        proof {
            assert(sentinel@ =~= price_on_request());
        }
        let price: usize = if bytes_eq(price_trim.as_slice(), sentinel.as_slice()) {
            PRICE_ON_REQUEST_SENTINEL
        } else {
            let first = piece_before(price_trim.as_slice(), 0x20);
            let euro: [u8; 3] = [0xe2, 0x82, 0xac];
            proof {
                assert(euro@ =~= euro_sign());
            }
            let no_euro = remove_pattern(first.as_slice(), euro.as_slice());
            let comma: [u8; 1] = [0x2c];
            proof {
                assert(comma@ =~= seq![0x2cu8]);
            }
            let cleaned = remove_pattern(no_euro.as_slice(), comma.as_slice());
            match parse_u64_digits(cleaned.as_slice()) {
                Some(v) => {
                    if v <= usize::MAX as u64 {
                        v as usize
                    } else {
                        return Err(ScrapeError::Parse(ParseField::Price));
                    }
                },
                None => {
                    return Err(ScrapeError::Parse(ParseField::Price));
                },
            }
        };
        let area_trim = trim_bytes(area_text);
        let area_first = piece_before(area_trim.as_slice(), 0x20);
        let area: u32 = match parse_u64_digits(area_first.as_slice()) {
            Some(v) => {
                if v <= u32::MAX as u64 {
                    v as u32
                } else {
                    return Err(ScrapeError::Parse(ParseField::Area));
                }
            },
            None => {
                return Err(ScrapeError::Parse(ParseField::Area));
            },
        };
        let title_trim = trim_bytes(title_text);
        let title: Vec<u8> = match piece_after(title_trim.as_slice(), 0x20) {
            Some(rest) => rest,
            None => title_trim,
        };
        let base: [u8; 20] = [
            0x68, 0x74, 0x74, 0x70, 0x73, 0x3a, 0x2f, 0x2f, 0x70, 0x61, 0x72, 0x61, 0x72, 0x69,
            0x75, 0x73, 0x2e, 0x63, 0x6f, 0x6d,
        ];
        proof {
            assert(base@ =~= pararius_base());
        }
        let url = concat_bytes(base.as_slice(), href);
        Ok(PartialScrapeResult { title, price, url, area })
    }
}

impl WebsiteScraper for ParariusScraper {
    fn index_url(&self) -> &'static str {
        // Queried this way the results come sorted newest first.
        "https://www.pararius.com/apartments/rotterdam"
    }

    #[verifier::loop_isolation(false)]
    fn list_from_index(&self, body: &str) -> (r: Result<Vec<ScrapeResult>, ScrapeError>)
        ensures
            match pararius_page(body@) {
                Ok(views) => r is Ok && r->Ok_0.deep_view() == views,
                Err(e) => r is Err && r->Err_0 == e,
            },
    {
        let sel_houses = match Sel::new("section.listing-search-item--for-rent") {
            Some(s) => s,
            None => {
                return Err(ScrapeError::Parse(ParseField::Element));
            },
        };
        let sel_title = match Sel::new("a.listing-search-item__link--title") {
            Some(s) => s,
            None => {
                return Err(ScrapeError::Parse(ParseField::Element));
            },
        };
        let sel_price = match Sel::new("div.listing-search-item__price") {
            Some(s) => s,
            None => {
                return Err(ScrapeError::Parse(ParseField::Element));
            },
        };
        let sel_area = match Sel::new(".illustrated-features__item--surface-area") {
            Some(s) => s,
            None => {
                return Err(ScrapeError::Parse(ParseField::Element));
            },
        };
        let doc = PageDoc::new(body);
        let houses = select_all(&doc, &sel_houses);
        let ghost ids = page_matches(body@, "section.listing-search-item--for-rent"@);
        let mut out: Vec<ScrapeResult> = Vec::new();
        let mut i: usize = 0;
        proof {
            assert(ids.skip(0) =~= ids);
            if pararius_houses(body@, ids) is Ok {
                assert(out.deep_view() + pararius_houses(body@, ids)->Ok_0 =~= pararius_houses(
                    body@,
                    ids,
                )->Ok_0);
            }
        }
        while i < houses.len()
            invariant
                i <= houses@.len(),
                houses@.len() == ids.len(),
                pararius_houses(body@, ids) == (match pararius_houses(body@, ids.skip(i as int)) {
                    Ok(rest) => Ok::<Seq<ScrapeView>, ScrapeError>(out.deep_view() + rest),
                    Err(e) => Err(e),
                }),
                forall|j: int|
                    0 <= j < out.deep_view().len() ==> (#[trigger] out.deep_view()[j]).wf(),
            decreases houses@.len() - i,
        {
            let house = &houses[i];
            proof {
                assert(house.id@ == ids[i as int]);
                assert(ids.skip(i as int)[0] == ids[i as int]);
                assert(ids.skip(i as int).drop_first() =~= ids.skip(i + 1));
            }
            let title_el = match select_first_within(house, &sel_title) {
                Some(e) => e,
                None => {
                    return Err(ScrapeError::Parse(ParseField::Title));
                },
            };
            let title_text = match first_text(&title_el) {
                Some(t) => t,
                None => {
                    return Err(ScrapeError::Parse(ParseField::Title));
                },
            };
            let href = match attr_bytes(&title_el, "href") {
                Some(u) => u,
                None => {
                    return Err(ScrapeError::Parse(ParseField::Url));
                },
            };
            let price_el = match select_first_within(house, &sel_price) {
                Some(e) => e,
                None => {
                    return Err(ScrapeError::Parse(ParseField::Price));
                },
            };
            let price_text = match first_text(&price_el) {
                Some(t) => t,
                None => {
                    return Err(ScrapeError::Parse(ParseField::Price));
                },
            };
            let area_el = match select_first_within(house, &sel_area) {
                Some(e) => e,
                None => {
                    return Err(ScrapeError::Parse(ParseField::Area));
                },
            };
            let area_text = match first_text(&area_el) {
                Some(t) => t,
                None => {
                    return Err(ScrapeError::Parse(ParseField::Area));
                },
            };
            let listing = match Self::listing_from_parts(
                title_text.as_slice(),
                href.as_slice(),
                price_text.as_slice(),
                area_text.as_slice(),
            ) {
                Ok(l) => l,
                Err(e) => {
                    return Err(e);
                },
            };
            let ghost pre = out.deep_view();
            out.push(ScrapeResult::Partial(listing));
            proof {
                assert(pararius_house(body@, ids[i as int]) == Ok::<ScrapeView, ScrapeError>(
                    ScrapeView::Partial(listing@),
                ));
                assert(out.deep_view() =~= pre + seq![ScrapeView::Partial(listing@)]);
                if pararius_houses(body@, ids.skip(i + 1)) is Ok {
                    assert((pre + seq![ScrapeView::Partial(listing@)]) + pararius_houses(
                        body@,
                        ids.skip(i + 1),
                    )->Ok_0 =~= pre + (seq![ScrapeView::Partial(listing@)] + pararius_houses(
                        body@,
                        ids.skip(i + 1),
                    )->Ok_0));
                }
            }
            i = i + 1;
        }
        proof {
            assert(ids.skip(ids.len() as int) =~= Seq::<int>::empty());
            assert(out.deep_view() + Seq::<ScrapeView>::empty() =~= out.deep_view());
        }
        Ok(out)
    }

    fn detail_from_page(&self, partial: PartialScrapeResult, body: &str) -> (r: Result<
        FullScrapeResult,
        ScrapeError,
    >)
        ensures
            match pararius_detail(partial@, body@) {
                Ok(f) => r is Ok && r->Ok_0@ == f,
                Err(e) => r is Err && r->Err_0 == e,
            },
    {
        let sel_map = match Sel::new("wc-detail-map") {
            Some(s) => s,
            None => {
                return Err(ScrapeError::Parse(ParseField::Element));
            },
        };
        let doc = PageDoc::new(body);
        let maps = select_all(&doc, &sel_map);
        if maps.len() == 0 {
            return Err(ScrapeError::Parse(ParseField::Element));
        }
        let map_el = &maps[0];
        let lon_text = match attr_bytes(map_el, "data-longitude") {
            Some(t) => t,
            None => {
                return Err(ScrapeError::Parse(ParseField::Longitude));
            },
        };
        let lat_text = match attr_bytes(map_el, "data-latitude") {
            Some(t) => t,
            None => {
                return Err(ScrapeError::Parse(ParseField::Latitude));
            },
        };
        let location = match super::coord_from_texts(lon_text.as_slice(), lat_text.as_slice()) {
            Ok(g) => g,
            Err(e) => {
                return Err(e);
            },
        };
        Ok(FullScrapeResult { partial, location })
    }
}

} // verus!
