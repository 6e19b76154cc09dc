//! The Huurwoningen adapter: rental listings for Rotterdam, newest first.
//! Produces `Partial` results from the index page (the title is unknown at
//! that stage); coordinates come from a second fetch of the listing page.

use crate::bytes::{
    all_digits, concat_bytes, dec_val, parse_u64_digits, remove_pat, remove_pattern, split_ws,
    strip_suf, strip_suffix_bytes, trim_bytes, trim_ws, ws_tokens,
};
use crate::model::{
    FullScrapeResult, FullScrapeView, GeoPoint, ParseField, PartialScrapeResult,
    PartialScrapeView, ScrapeError, ScrapeResult, ScrapeView,
};
use super::html::{
    attr_bytes, attr_of, first_text, matches_within, page_matches, select_all,
    select_first_within, selector_ok, text_of, PageDoc, Sel,
};
use super::{coord_from_texts, lat_udeg_of, lon_udeg_of, WebsiteScraper};
use vstd::prelude::*;

verus! {

/// The origin against which the site's relative listing links resolve:
/// the bytes of "https://www.huurwoningen.nl".
pub open spec fn huurwoningen_base() -> Seq<u8> {
    seq![
        0x68u8, 0x74, 0x74, 0x70, 0x73, 0x3a, 0x2f, 0x2f, 0x77, 0x77, 0x77, 0x2e, 0x68, 0x75,
        0x75, 0x72, 0x77, 0x6f, 0x6e, 0x69, 0x6e, 0x67, 0x65, 0x6e, 0x2e, 0x6e, 0x6c,
    ]
}

/// Price policy: the text opens with a euro sign and a no-break space, so
/// the second whitespace-separated token is the amount; its thousands
/// dots are removed and the rest is read as a decimal numeral.
pub open spec fn huurwoningen_price(raw: Seq<u8>) -> Option<usize> {
    let toks = ws_tokens(raw);
    if toks.len() >= 2 {
        let cleaned = remove_pat(toks[1], seq![0x2eu8]);
        if cleaned.len() > 0 && all_digits(cleaned) && dec_val(cleaned) <= usize::MAX {
            Some(dec_val(cleaned) as usize)
        } else {
            None
        }
    } else {
        None
    }
}

/// Area policy: the text without its " m²" unit suffix (when present),
/// read as a decimal numeral of square meters.
pub open spec fn huurwoningen_area(raw: Seq<u8>) -> Option<u32> {
    let s = strip_suf(raw, seq![0x20u8, 0x6d, 0xc2, 0xb2]);
    if s.len() > 0 && all_digits(s) && dec_val(s) <= u32::MAX {
        Some(dec_val(s) as u32)
    } else {
        None
    }
}

/// One listing from the texts extracted on the index page: the title is
/// unknown at this stage and stays empty; the price is read before the
/// area.
pub open spec fn huurwoningen_listing(
    href: Seq<u8>,
    price_raw: Seq<u8>,
    area_raw: Seq<u8>,
) -> Result<PartialScrapeView, ScrapeError> {
    let price = huurwoningen_price(trim_ws(price_raw));
    let area = huurwoningen_area(trim_ws(area_raw));
    if price is None {
        Err(ScrapeError::Parse(ParseField::Price))
    } else if area is None {
        Err(ScrapeError::Parse(ParseField::Area))
    } else {
        Ok(
            PartialScrapeView {
                title: Seq::<u8>::empty(),
                price: price->Some_0,
                url: huurwoningen_base() + href,
                area: area->Some_0,
            },
        )
    }
}

/// One listing element of the index page, read through the named
/// selection outcomes: its price text, its title link's href, and its
/// area text, each required in that order, then the per-listing policy.
pub open spec fn huurwoningen_house(body: Seq<char>, house: int) -> Result<
    ScrapeView,
    ScrapeError,
> {
    let price_els = matches_within(body, house, "div.listing-search-item__price"@);
    if price_els.len() == 0 {
        Err(ScrapeError::Parse(ParseField::Price))
    } else {
        match text_of(body, price_els[0]) {
            None => Err(ScrapeError::Parse(ParseField::Price)),
            Some(price_raw) => {
                let title_els = matches_within(
                    body,
                    house,
                    "a.listing-search-item__link--title"@,
                );
                if title_els.len() == 0 {
                    Err(ScrapeError::Parse(ParseField::Title))
                } else {
                    match attr_of(body, title_els[0], "href"@) {
                        None => Err(ScrapeError::Parse(ParseField::Url)),
                        Some(href) => {
                            let area_els = matches_within(
                                body,
                                house,
                                "li.illustrated-features__item--surface-area"@,
                            );
                            if area_els.len() == 0 {
                                Err(ScrapeError::Parse(ParseField::Area))
                            } else {
                                match text_of(body, area_els[0]) {
                                    None => Err(ScrapeError::Parse(ParseField::Area)),
                                    Some(area_raw) => match huurwoningen_listing(
                                        href,
                                        price_raw,
                                        area_raw,
                                    ) {
                                        Ok(v) => Ok(ScrapeView::Partial(v)),
                                        Err(e) => Err(e),
                                    },
                                }
                            }
                        },
                    }
                }
            },
        }
    }
}

/// The listing elements read in order, fail-fast: one malformed listing
/// makes the whole page an error, and no partial result survives.
pub open spec fn huurwoningen_houses(body: Seq<char>, ids: Seq<int>) -> Result<
    Seq<ScrapeView>,
    ScrapeError,
>
    decreases ids.len(),
{
    if ids.len() == 0 {
        Ok(seq![])
    } else {
        match huurwoningen_house(body, ids[0]) {
            Err(e) => Err(e),
            Ok(v) => match huurwoningen_houses(body, ids.drop_first()) {
                Err(e) => Err(e),
                Ok(rest) => Ok(seq![v] + rest),
            },
        }
    }
}

/// Fail-fast: a malformed listing anywhere in the batch makes the whole
/// page an error — the well-formed neighbors yield no partial result.
pub proof fn lemma_huurwoningen_fail_fast(body: Seq<char>, ids: Seq<int>, k: int)
    requires
        0 <= k < ids.len(),
        huurwoningen_house(body, ids[k]) is Err,
    ensures
        huurwoningen_houses(body, ids) is Err,
    decreases k,
{
    if !(huurwoningen_house(body, ids[0]) is Err) {
        assert(ids.drop_first()[k - 1] == ids[k]);
        lemma_huurwoningen_fail_fast(body, ids.drop_first(), k - 1);
    }
}

/// The whole index page: every matched listing element, in document
/// order, under the fail-fast rule.
pub open spec fn huurwoningen_page(body: Seq<char>) -> Result<Seq<ScrapeView>, ScrapeError> {
    if !selector_ok("li.search-list__item--listing"@) || !selector_ok(
        "div.listing-search-item__price"@,
    ) || !selector_ok("a.listing-search-item__link--title"@) || !selector_ok(
        "li.illustrated-features__item--surface-area"@,
    ) {
        Err(ScrapeError::Parse(ParseField::Element))
    } else {
        huurwoningen_houses(body, page_matches(body, "li.search-list__item--listing"@))
    }
}

/// The detail page: the map element's longitude and latitude attributes,
/// read as microdegrees and range-checked, attached to the given partial
/// listing.
pub open spec fn huurwoningen_detail(partial: PartialScrapeView, body: Seq<char>) -> Result<
    FullScrapeView,
    ScrapeError,
> {
    if !selector_ok("wc-detail-map"@) {
        Err(ScrapeError::Parse(ParseField::Element))
    } else {
        let maps = page_matches(body, "wc-detail-map"@);
        if maps.len() == 0 {
            Err(ScrapeError::Parse(ParseField::Element))
        } else {
            match attr_of(body, maps[0], "data-longitude"@) {
                None => Err(ScrapeError::Parse(ParseField::Longitude)),
                Some(lon) => match attr_of(body, maps[0], "data-latitude"@) {
                    None => Err(ScrapeError::Parse(ParseField::Latitude)),
                    Some(lat) => match (lon_udeg_of(lon), lat_udeg_of(lat)) {
                        (None, _) => Err(ScrapeError::Parse(ParseField::Longitude)),
                        (Some(_), None) => Err(ScrapeError::Parse(ParseField::Latitude)),
                        (Some(x), Some(y)) => Ok(
                            FullScrapeView {
                                partial,
                                location: GeoPoint { lon_udeg: x, lat_udeg: y },
                            },
                        ),
                    },
                },
            }
        }
    }
}

/// Scrapes the Huurwoningen index for Rotterdam, newest first.
#[derive(Default, Debug)]
pub struct HuurwoningenScraper;

impl HuurwoningenScraper {
    /// Assemble one listing from the texts extracted on the index page,
    /// exactly as `huurwoningen_listing` states.
    pub fn listing_from_parts(href: &[u8], price_text: &[u8], area_text: &[u8]) -> (r: Result<
        PartialScrapeResult,
        ScrapeError,
    >)
        ensures
            match huurwoningen_listing(href@, price_text@, area_text@) {
                Ok(v) => r is Ok && r->Ok_0@ == v && v.wf(),
                Err(e) => r is Err && r->Err_0 == e,
            },
    {
        let price_trim = trim_bytes(price_text);
        let toks = split_ws(price_trim.as_slice());
        if toks.len() < 2 {
            return Err(ScrapeError::Parse(ParseField::Price));
        }
        let dot: [u8; 1] = [0x2e];
        proof {
            assert(dot@ =~= seq![0x2eu8]);
            assert(toks@[1]@ == ws_tokens(trim_ws(price_text@))[1]);
        }
        let cleaned = remove_pattern(toks[1].as_slice(), dot.as_slice());
        let price: usize = match parse_u64_digits(cleaned.as_slice()) {
            Some(v) => {
                if v <= usize::MAX as u64 {
                    v as usize
                } else {
                    return Err(ScrapeError::Parse(ParseField::Price));
                }
            },
            None => {
                return Err(ScrapeError::Parse(ParseField::Price));
            },
        };
        let area_trim = trim_bytes(area_text);
        let unit: [u8; 4] = [0x20, 0x6d, 0xc2, 0xb2];
        proof {
            assert(unit@ =~= seq![0x20u8, 0x6d, 0xc2, 0xb2]);
        }
        let stripped = strip_suffix_bytes(area_trim.as_slice(), unit.as_slice());
        let area: u32 = match parse_u64_digits(stripped.as_slice()) {
            Some(v) => {
                if v <= u32::MAX as u64 {
                    v as u32
                } else {
                    return Err(ScrapeError::Parse(ParseField::Area));
                }
            },
            None => {
                return Err(ScrapeError::Parse(ParseField::Area));
            },
        };
        let base: [u8; 27] = [
            0x68, 0x74, 0x74, 0x70, 0x73, 0x3a, 0x2f, 0x2f, 0x77, 0x77, 0x77, 0x2e, 0x68, 0x75,
            0x75, 0x72, 0x77, 0x6f, 0x6e, 0x69, 0x6e, 0x67, 0x65, 0x6e, 0x2e, 0x6e, 0x6c,
        ];
        proof {
            assert(base@ =~= huurwoningen_base());
        }
        let url = concat_bytes(base.as_slice(), href);
        let title: Vec<u8> = Vec::new();
        proof {
            assert(title@ =~= Seq::<u8>::empty());
        }
        Ok(PartialScrapeResult { title, price, url, area })
    }
}

impl WebsiteScraper for HuurwoningenScraper {
    fn index_url(&self) -> &'static str {
        "https://www.huurwoningen.nl/in/rotterdam/?sort=published_at&direction=desc"
    }

    #[verifier::loop_isolation(false)]
    fn list_from_index(&self, body: &str) -> (r: Result<Vec<ScrapeResult>, ScrapeError>)
        ensures
            match huurwoningen_page(body@) {
                Ok(views) => r is Ok && r->Ok_0.deep_view() == views,
                Err(e) => r is Err && r->Err_0 == e,
            },
    {
        let sel_houses = match Sel::new("li.search-list__item--listing") {
            Some(s) => s,
            None => {
                return Err(ScrapeError::Parse(ParseField::Element));
            },
        };
        let sel_price = match Sel::new("div.listing-search-item__price") {
            Some(s) => s,
            None => {
                return Err(ScrapeError::Parse(ParseField::Element));
            },
        };
        let sel_title = match Sel::new("a.listing-search-item__link--title") {
            Some(s) => s,
            None => {
                return Err(ScrapeError::Parse(ParseField::Element));
            },
        };
        let sel_area = match Sel::new("li.illustrated-features__item--surface-area") {
            Some(s) => s,
            None => {
                return Err(ScrapeError::Parse(ParseField::Element));
            },
        };
        let doc = PageDoc::new(body);
        let houses = select_all(&doc, &sel_houses);
        let ghost ids = page_matches(body@, "li.search-list__item--listing"@);
        let mut out: Vec<ScrapeResult> = Vec::new();
        let mut i: usize = 0;
        proof {
            assert(ids.skip(0) =~= ids);
            if huurwoningen_houses(body@, ids) is Ok {
                assert(out.deep_view() + huurwoningen_houses(body@, ids)->Ok_0
                    =~= huurwoningen_houses(body@, ids)->Ok_0);
            }
        }
        while i < houses.len()
            invariant
                i <= houses@.len(),
                houses@.len() == ids.len(),
                huurwoningen_houses(body@, ids) == (match huurwoningen_houses(
                    body@,
                    ids.skip(i as int),
                ) {
                    Ok(rest) => Ok::<Seq<ScrapeView>, ScrapeError>(out.deep_view() + rest),
                    Err(e) => Err(e),
                }),
                forall|j: int|
                    0 <= j < out.deep_view().len() ==> (#[trigger] out.deep_view()[j]).wf(),
            decreases houses@.len() - i,
        {
            let house = &houses[i];
            proof {
                assert(house.id@ == ids[i as int]);
                assert(ids.skip(i as int)[0] == ids[i as int]);
                assert(ids.skip(i as int).drop_first() =~= ids.skip(i + 1));
            }
            let price_el = match select_first_within(house, &sel_price) {
                Some(e) => e,
                None => {
                    return Err(ScrapeError::Parse(ParseField::Price));
                },
            };
            let price_text = match first_text(&price_el) {
                Some(t) => t,
                None => {
                    return Err(ScrapeError::Parse(ParseField::Price));
                },
            };
            let title_el = match select_first_within(house, &sel_title) {
                Some(e) => e,
                None => {
                    return Err(ScrapeError::Parse(ParseField::Title));
                },
            };
            let href = match attr_bytes(&title_el, "href") {
                Some(u) => u,
                None => {
                    return Err(ScrapeError::Parse(ParseField::Url));
                },
            };
            let area_el = match select_first_within(house, &sel_area) {
                Some(e) => e,
                None => {
                    return Err(ScrapeError::Parse(ParseField::Area));
                },
            };
            let area_text = match first_text(&area_el) {
                Some(t) => t,
                None => {
                    return Err(ScrapeError::Parse(ParseField::Area));
                },
            };
            let listing = match Self::listing_from_parts(
                href.as_slice(),
                price_text.as_slice(),
                area_text.as_slice(),
            ) {
                Ok(l) => l,
                Err(e) => {
                    return Err(e);
                },
            };
            let ghost pre = out.deep_view();
            out.push(ScrapeResult::Partial(listing));
            proof {
                assert(huurwoningen_house(body@, ids[i as int]) == Ok::<ScrapeView, ScrapeError>(
                    ScrapeView::Partial(listing@),
                ));
                assert(out.deep_view() =~= pre + seq![ScrapeView::Partial(listing@)]);
                if huurwoningen_houses(body@, ids.skip(i + 1)) is Ok {
                    assert((pre + seq![ScrapeView::Partial(listing@)]) + huurwoningen_houses(
                        body@,
                        ids.skip(i + 1),
                    )->Ok_0 =~= pre + (seq![ScrapeView::Partial(listing@)] + huurwoningen_houses(
                        body@,
                        ids.skip(i + 1),
                    )->Ok_0));
                }
            }
            i = i + 1;
        }
        proof {
            assert(ids.skip(ids.len() as int) =~= Seq::<int>::empty());
            assert(out.deep_view() + Seq::<ScrapeView>::empty() =~= out.deep_view());
        }
        Ok(out)
    }

    fn detail_from_page(&self, partial: PartialScrapeResult, body: &str) -> (r: Result<
        FullScrapeResult,
        ScrapeError,
    >)
        ensures
            match huurwoningen_detail(partial@, body@) {
                Ok(f) => r is Ok && r->Ok_0@ == f,
                Err(e) => r is Err && r->Err_0 == e,
            },
    {
        let sel_map = match Sel::new("wc-detail-map") {
            Some(s) => s,
            None => {
                return Err(ScrapeError::Parse(ParseField::Element));
            },
        };
        let doc = PageDoc::new(body);
        let maps = select_all(&doc, &sel_map);
        if maps.len() == 0 {
            return Err(ScrapeError::Parse(ParseField::Element));
        }
        let map_el = &maps[0];
        let lon_text = match attr_bytes(map_el, "data-longitude") {
            Some(t) => t,
            None => {
                return Err(ScrapeError::Parse(ParseField::Longitude));
            },
        };
        let lat_text = match attr_bytes(map_el, "data-latitude") {
            Some(t) => t,
            None => {
                return Err(ScrapeError::Parse(ParseField::Latitude));
            },
        };
        let location = match coord_from_texts(lon_text.as_slice(), lat_text.as_slice()) {
            Ok(g) => g,
            Err(e) => {
                return Err(e);
            },
        };
        Ok(FullScrapeResult { partial, location })
    }
}

} // verus!
