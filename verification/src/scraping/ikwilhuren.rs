//! The Ikwilhuren adapter: the national rental index, newest first.
//! Produces `Partial` results from the index page; coordinates come from a
//! second fetch of the listing page.

use crate::bytes::{
    after_first, all_digits, concat_bytes, dec_val, parse_u64_digits, piece_after, piece_before,
    prefix_to, remove_pat, remove_pattern, trim_bytes, trim_ws,
};
use crate::model::{
    FullScrapeResult, FullScrapeView, GeoPoint, ParseField, PartialScrapeResult,
    PartialScrapeView, ScrapeError, ScrapeResult, ScrapeView,
};
use super::html::{
    attr_bytes, attr_of, first_text, matches_within, page_matches, parent_element, parent_of,
    select_all, select_first_within, selector_ok, text_of, PageDoc, Sel,
};
use super::{coord_from_texts, lat_udeg_of, lon_udeg_of, WebsiteScraper};
use vstd::prelude::*;

verus! {

/// The origin against which the site's relative listing links resolve:
/// the bytes of "https://ikwilhuren.nu".
pub open spec fn ikwilhuren_base() -> Seq<u8> {
    seq![
        0x68u8, 0x74, 0x74, 0x70, 0x73, 0x3a, 0x2f, 0x2f, 0x69, 0x6b, 0x77, 0x69, 0x6c, 0x68,
        0x75, 0x72, 0x65, 0x6e, 0x2e, 0x6e, 0x75,
    ]
}

/// Price policy: the amount is the second space-separated piece of the
/// raw text; its thousands dots, decimal commas and trailing dash are
/// removed and the rest is read as a decimal numeral. A text without a
/// second piece is malformed.
pub open spec fn ikwilhuren_price(raw: Seq<u8>) -> Option<usize> {
    match after_first(raw, 0x20) {
        Some(rest) => {
            let piece = prefix_to(rest, 0x20);
            let cleaned = remove_pat(
                remove_pat(remove_pat(piece, seq![0x2eu8]), seq![0x2cu8]),
                seq![0x2du8],
            );
            if cleaned.len() > 0 && all_digits(cleaned) && dec_val(cleaned) <= usize::MAX {
                Some(dec_val(cleaned) as usize)
            } else {
                None
            }
        },
        None => None,
    }
}

/// Area policy: the text up to the first space, read as a decimal numeral
/// of square meters.
pub open spec fn ikwilhuren_area(raw: Seq<u8>) -> Option<u32> {
    let first = prefix_to(raw, 0x20);
    if first.len() > 0 && all_digits(first) && dec_val(first) <= u32::MAX {
        Some(dec_val(first) as u32)
    } else {
        None
    }
}

/// One listing from the texts extracted on the index page: the raw price
/// text is read as the site serves it (untrimmed); the price is read
/// before the area.
pub open spec fn ikwilhuren_listing(
    title: Seq<u8>,
    href: Seq<u8>,
    price_raw: Seq<u8>,
    area_raw: Seq<u8>,
) -> Result<PartialScrapeView, ScrapeError> {
    let price = ikwilhuren_price(price_raw);
    let area = ikwilhuren_area(trim_ws(area_raw));
    if price is None {
        Err(ScrapeError::Parse(ParseField::Price))
    } else if area is None {
        Err(ScrapeError::Parse(ParseField::Area))
    } else {
        Ok(
            PartialScrapeView {
                title: trim_ws(title),
                price: price->Some_0,
                url: ikwilhuren_base() + href,
                area: area->Some_0,
            },
        )
    }
}

/// One card of the index page, read through the named selection outcomes:
/// the title link's href and text, the price text, and the area text found
/// beside the price (in the price element's parent), each required in that
/// order, then the per-listing policy.
pub open spec fn ikwilhuren_house(body: Seq<char>, house: int) -> Result<ScrapeView, ScrapeError> {
    let title_els = matches_within(body, house, ".card-title a"@);
    if title_els.len() == 0 {
        Err(ScrapeError::Parse(ParseField::Title))
    } else {
        match attr_of(body, title_els[0], "href"@) {
            None => Err(ScrapeError::Parse(ParseField::Url)),
            Some(href) => match text_of(body, title_els[0]) {
                None => Err(ScrapeError::Parse(ParseField::Title)),
                Some(title) => {
                    let price_els = matches_within(body, house, ".fw-bold"@);
                    if price_els.len() == 0 {
                        Err(ScrapeError::Parse(ParseField::Price))
                    } else {
                        match text_of(body, price_els[0]) {
                            None => Err(ScrapeError::Parse(ParseField::Price)),
                            Some(price_raw) => match parent_of(body, price_els[0]) {
                                None => Err(ScrapeError::Parse(ParseField::Element)),
                                Some(par) => {
                                    let area_els = matches_within(body, par, "span:nth-child(2)"@);
                                    if area_els.len() == 0 {
                                        Err(ScrapeError::Parse(ParseField::Area))
                                    } else {
                                        match text_of(body, area_els[0]) {
                                            None => Err(ScrapeError::Parse(ParseField::Area)),
                                            Some(area_raw) => match ikwilhuren_listing(
                                                title,
                                                href,
                                                price_raw,
                                                area_raw,
                                            ) {
                                                Ok(v) => Ok(ScrapeView::Partial(v)),
                                                Err(e) => Err(e),
                                            },
                                        }
                                    }
                                },
                            },
                        }
                    }
                },
            },
        }
    }
}

/// The cards read in order, fail-fast: one malformed card makes the whole
/// page an error, and no partial result survives.
pub open spec fn ikwilhuren_houses(body: Seq<char>, ids: Seq<int>) -> Result<
    Seq<ScrapeView>,
    ScrapeError,
>
    decreases ids.len(),
{
    if ids.len() == 0 {
        Ok(seq![])
    } else {
        match ikwilhuren_house(body, ids[0]) {
            Err(e) => Err(e),
            Ok(v) => match ikwilhuren_houses(body, ids.drop_first()) {
                Err(e) => Err(e),
                Ok(rest) => Ok(seq![v] + rest),
            },
        }
    }
}

/// Fail-fast: a malformed card anywhere in the batch makes the whole page
/// an error — the well-formed neighbors yield no partial result.
pub proof fn lemma_ikwilhuren_fail_fast(body: Seq<char>, ids: Seq<int>, k: int)
    requires
        0 <= k < ids.len(),
        ikwilhuren_house(body, ids[k]) is Err,
    ensures
        ikwilhuren_houses(body, ids) is Err,
    decreases k,
{
    if !(ikwilhuren_house(body, ids[0]) is Err) {
        assert(ids.drop_first()[k - 1] == ids[k]);
        lemma_ikwilhuren_fail_fast(body, ids.drop_first(), k - 1);
    }
}

/// The whole index page: every matched card, in document order, under the
/// fail-fast rule.
pub open spec fn ikwilhuren_page(body: Seq<char>) -> Result<Seq<ScrapeView>, ScrapeError> {
    if !selector_ok(".card-woning"@) || !selector_ok(".card-title a"@) || !selector_ok(".fw-bold"@)
        || !selector_ok("span:nth-child(2)"@) {
        Err(ScrapeError::Parse(ParseField::Element))
    } else {
        ikwilhuren_houses(body, page_matches(body, ".card-woning"@))
    }
}

/// The detail page: the map element's longitude and latitude attributes,
/// read as microdegrees and range-checked, attached to the given partial
/// listing.
pub open spec fn ikwilhuren_detail(partial: PartialScrapeView, body: Seq<char>) -> Result<
    FullScrapeView,
    ScrapeError,
> {
    if !selector_ok("#maplibre-object"@) {
        Err(ScrapeError::Parse(ParseField::Element))
    } else {
        let maps = page_matches(body, "#maplibre-object"@);
        if maps.len() == 0 {
            Err(ScrapeError::Parse(ParseField::Element))
        } else {
            match attr_of(body, maps[0], "data-lng"@) {
                None => Err(ScrapeError::Parse(ParseField::Longitude)),
                Some(lon) => match attr_of(body, maps[0], "data-lat"@) {
                    None => Err(ScrapeError::Parse(ParseField::Latitude)),
                    Some(lat) => match (lon_udeg_of(lon), lat_udeg_of(lat)) {
                        (None, _) => Err(ScrapeError::Parse(ParseField::Longitude)),
                        (Some(_), None) => Err(ScrapeError::Parse(ParseField::Latitude)),
                        (Some(x), Some(y)) => Ok(
                            FullScrapeView {
                                partial,
                                location: GeoPoint { lon_udeg: x, lat_udeg: y },
                            },
                        ),
                    },
                },
            }
        }
    }
}

/// Scrapes the Ikwilhuren rental index, newest first.
#[derive(Default, Debug)]
pub struct IkwilhurenScraper;

impl IkwilhurenScraper {
    /// Assemble one listing from the texts extracted on the index page,
    /// exactly as `ikwilhuren_listing` states.
    pub fn listing_from_parts(
        title_text: &[u8],
        href: &[u8],
        price_text: &[u8],
        area_text: &[u8],
    ) -> (r: Result<PartialScrapeResult, ScrapeError>)
        ensures
            match ikwilhuren_listing(title_text@, href@, price_text@, area_text@) {
                Ok(v) => r is Ok && r->Ok_0@ == v && v.wf(),
                Err(e) => r is Err && r->Err_0 == e,
            },
    {
        let second: Vec<u8> = match piece_after(price_text, 0x20) {
            Some(rest) => piece_before(rest.as_slice(), 0x20),
            None => {
                return Err(ScrapeError::Parse(ParseField::Price));
            },
        };
        let dot: [u8; 1] = [0x2e];
        let comma: [u8; 1] = [0x2c];
        let dash: [u8; 1] = [0x2d];
        proof {
            assert(dot@ =~= seq![0x2eu8]);
            assert(comma@ =~= seq![0x2cu8]);
            assert(dash@ =~= seq![0x2du8]);
        }
        let cleaned = remove_pattern(
            remove_pattern(
                remove_pattern(second.as_slice(), dot.as_slice()).as_slice(),
                comma.as_slice(),
            ).as_slice(),
            dash.as_slice(),
        );
        let price: usize = match parse_u64_digits(cleaned.as_slice()) {
            Some(v) => {
                if v <= usize::MAX as u64 {
                    v as usize
                } else {
                    return Err(ScrapeError::Parse(ParseField::Price));
                }
            },
            None => {
                return Err(ScrapeError::Parse(ParseField::Price));
            },
        };
        let area_trim = trim_bytes(area_text);
        let area_first = piece_before(area_trim.as_slice(), 0x20);
        let area: u32 = match parse_u64_digits(area_first.as_slice()) {
            Some(v) => {
                if v <= u32::MAX as u64 {
                    v as u32
                } else {
                    return Err(ScrapeError::Parse(ParseField::Area));
                }
            },
            None => {
                return Err(ScrapeError::Parse(ParseField::Area));
            },
        };
        let title = trim_bytes(title_text);
        let base: [u8; 21] = [
            0x68, 0x74, 0x74, 0x70, 0x73, 0x3a, 0x2f, 0x2f, 0x69, 0x6b, 0x77, 0x69, 0x6c, 0x68,
            0x75, 0x72, 0x65, 0x6e, 0x2e, 0x6e, 0x75,
        ];
        proof {
            assert(base@ =~= ikwilhuren_base());
        }
        let url = concat_bytes(base.as_slice(), href);
        Ok(PartialScrapeResult { title, price, url, area })
    }
}

impl WebsiteScraper for IkwilhurenScraper {
    fn index_url(&self) -> &'static str {
        "https://ikwilhuren.nu/aanbod/?sort=aanbodDESC"
    }

    #[verifier::loop_isolation(false)]
    fn list_from_index(&self, body: &str) -> (r: Result<Vec<ScrapeResult>, ScrapeError>)
        ensures
            match ikwilhuren_page(body@) {
                Ok(views) => r is Ok && r->Ok_0.deep_view() == views,
                Err(e) => r is Err && r->Err_0 == e,
            },
    {
        let sel_listing = match Sel::new(".card-woning") {
            Some(s) => s,
            None => {
                return Err(ScrapeError::Parse(ParseField::Element));
            },
        };
        let sel_title = match Sel::new(".card-title a") {
            Some(s) => s,
            None => {
                return Err(ScrapeError::Parse(ParseField::Element));
            },
        };
        let sel_price = match Sel::new(".fw-bold") {
            Some(s) => s,
            None => {
                return Err(ScrapeError::Parse(ParseField::Element));
            },
        };
        let sel_area = match Sel::new("span:nth-child(2)") {
            Some(s) => s,
            None => {
                return Err(ScrapeError::Parse(ParseField::Element));
            },
        };
        let doc = PageDoc::new(body);
        let cards = select_all(&doc, &sel_listing);
        let ghost ids = page_matches(body@, ".card-woning"@);
        let mut out: Vec<ScrapeResult> = Vec::new();
        let mut i: usize = 0;
        proof {
            assert(ids.skip(0) =~= ids);
            if ikwilhuren_houses(body@, ids) is Ok {
                assert(out.deep_view() + ikwilhuren_houses(body@, ids)->Ok_0 =~= ikwilhuren_houses(
                    body@,
                    ids,
                )->Ok_0);
            }
        }
        while i < cards.len()
            invariant
                i <= cards@.len(),
                cards@.len() == ids.len(),
                ikwilhuren_houses(body@, ids) == (match ikwilhuren_houses(
                    body@,
                    ids.skip(i as int),
                ) {
                    Ok(rest) => Ok::<Seq<ScrapeView>, ScrapeError>(out.deep_view() + rest),
                    Err(e) => Err(e),
                }),
                forall|j: int|
                    0 <= j < out.deep_view().len() ==> (#[trigger] out.deep_view()[j]).wf(),
            decreases cards@.len() - i,
        {
            let card = &cards[i];
            proof {
                assert(card.id@ == ids[i as int]);
                assert(ids.skip(i as int)[0] == ids[i as int]);
                assert(ids.skip(i as int).drop_first() =~= ids.skip(i + 1));
            }
            let title_el = match select_first_within(card, &sel_title) {
                Some(e) => e,
                None => {
                    return Err(ScrapeError::Parse(ParseField::Title));
                },
            };
            let href = match attr_bytes(&title_el, "href") {
                Some(u) => u,
                None => {
                    return Err(ScrapeError::Parse(ParseField::Url));
                },
            };
            let title_text = match first_text(&title_el) {
                Some(t) => t,
                None => {
                    return Err(ScrapeError::Parse(ParseField::Title));
                },
            };
            let price_el = match select_first_within(card, &sel_price) {
                Some(e) => e,
                None => {
                    return Err(ScrapeError::Parse(ParseField::Price));
                },
            };
            let price_text = match first_text(&price_el) {
                Some(t) => t,
                None => {
                    return Err(ScrapeError::Parse(ParseField::Price));
                },
            };
            let price_parent = match parent_element(&price_el) {
                Some(e) => e,
                None => {
                    return Err(ScrapeError::Parse(ParseField::Element));
                },
            };
            let area_el = match select_first_within(&price_parent, &sel_area) {
                Some(e) => e,
                None => {
                    return Err(ScrapeError::Parse(ParseField::Area));
                },
            };
            let area_text = match first_text(&area_el) {
                Some(t) => t,
                None => {
                    return Err(ScrapeError::Parse(ParseField::Area));
                },
            };
            let built = match Self::listing_from_parts(
                title_text.as_slice(),
                href.as_slice(),
                price_text.as_slice(),
                area_text.as_slice(),
            ) {
                Ok(l) => l,
                Err(e) => {
                    return Err(e);
                },
            };
            let ghost pre = out.deep_view();
            out.push(ScrapeResult::Partial(built));
            proof {
                assert(ikwilhuren_house(body@, ids[i as int]) == Ok::<ScrapeView, ScrapeError>(
                    ScrapeView::Partial(built@),
                ));
                assert(out.deep_view() =~= pre + seq![ScrapeView::Partial(built@)]);
                if ikwilhuren_houses(body@, ids.skip(i + 1)) is Ok {
                    assert((pre + seq![ScrapeView::Partial(built@)]) + ikwilhuren_houses(
                        body@,
                        ids.skip(i + 1),
                    )->Ok_0 =~= pre + (seq![ScrapeView::Partial(built@)] + ikwilhuren_houses(
                        body@,
                        ids.skip(i + 1),
                    )->Ok_0));
                }
            }
            i = i + 1;
        }
        proof {
            assert(ids.skip(ids.len() as int) =~= Seq::<int>::empty());
            assert(out.deep_view() + Seq::<ScrapeView>::empty() =~= out.deep_view());
        }
        Ok(out)
    }

    fn detail_from_page(&self, partial: PartialScrapeResult, body: &str) -> (r: Result<
        FullScrapeResult,
        ScrapeError,
    >)
        ensures
            match ikwilhuren_detail(partial@, body@) {
                Ok(f) => r is Ok && r->Ok_0@ == f,
                Err(e) => r is Err && r->Err_0 == e,
            },
    {
        let sel_map = match Sel::new("#maplibre-object") {
            Some(s) => s,
            None => {
                return Err(ScrapeError::Parse(ParseField::Element));
            },
        };
        let doc = PageDoc::new(body);
        let maps = select_all(&doc, &sel_map);
        if maps.len() == 0 {
            return Err(ScrapeError::Parse(ParseField::Element));
        }
        let map_el = &maps[0];
        let lon_text = match attr_bytes(map_el, "data-lng") {
            Some(t) => t,
            None => {
                return Err(ScrapeError::Parse(ParseField::Longitude));
            },
        };
        let lat_text = match attr_bytes(map_el, "data-lat") {
            Some(t) => t,
            None => {
                return Err(ScrapeError::Parse(ParseField::Latitude));
            },
        };
        let location = match coord_from_texts(lon_text.as_slice(), lat_text.as_slice()) {
            Ok(g) => g,
            Err(e) => {
                return Err(e);
            },
        };
        Ok(FullScrapeResult { partial, location })
    }
}

} // verus!
