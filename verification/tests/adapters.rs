//! The adapters against real HTML documents: index pages and detail
//! pages, built with the same parser the adapters use in production.

use nlhousefinder::model::{PartialScrapeResult, ScrapeError, ScrapeResult};
use nlhousefinder::scraping::huurwoningen::HuurwoningenScraper;
use nlhousefinder::scraping::ikwilhuren::IkwilhurenScraper;
use nlhousefinder::scraping::pararius::ParariusScraper;
use nlhousefinder::scraping::rotterdamwonen::RotterdamWonenScraper;
use nlhousefinder::scraping::verra::{VerraListing, VerraMakelaarsScraper};
use nlhousefinder::scraping::WebsiteScraper;

fn partial(title: &[u8], price: usize, url: &[u8], area: u32) -> PartialScrapeResult {
    PartialScrapeResult {
        title: title.to_vec(),
        price,
        url: url.to_vec(),
        area,
    }
}

#[test]
fn pararius_index_page_yields_partial_listings() {
    let body = r#"<html><body>
      <section class="listing-search-item--for-rent">
        <a class="listing-search-item__link--title" href="/apartment-x"> Flat Coolhaven 12 </a>
        <div class="listing-search-item__price">€1,650 per month</div>
        <ul><li class="illustrated-features__item--surface-area">60 m²</li></ul>
      </section>
      <section class="listing-search-item--for-rent">
        <a class="listing-search-item__link--title" href="/apartment-y">Huis Westzeedijk 5</a>
        <div class="listing-search-item__price">Price on request</div>
        <ul><li class="illustrated-features__item--surface-area">100 m²</li></ul>
      </section>
    </body></html>"#;
    let results = ParariusScraper.list_from_index(body).unwrap();
    assert_eq!(results.len(), 2);
    match &results[0] {
        ScrapeResult::Partial(l) => {
            assert_eq!(l.title, b"Coolhaven 12".to_vec());
            assert_eq!(l.price, 1650);
            assert_eq!(l.url, b"https://pararius.com/apartment-x".to_vec());
            assert_eq!(l.area, 60);
        }
        ScrapeResult::Full(_) => panic!("pararius index results must be partial"),
    }
    match &results[1] {
        ScrapeResult::Partial(l) => assert_eq!(l.price, 9999),
        ScrapeResult::Full(_) => panic!("pararius index results must be partial"),
    }
}

#[test]
fn pararius_malformed_listing_fails_the_whole_page() {
    // Fail-fast extraction: one bad listing is a hard error for the call,
    // even when its neighbors are fine.
    let body = r#"<html><body>
      <section class="listing-search-item--for-rent">
        <a class="listing-search-item__link--title" href="/ok">A B</a>
        <div class="listing-search-item__price">€1,000 pm</div>
        <ul><li class="illustrated-features__item--surface-area">60 m²</li></ul>
      </section>
      <section class="listing-search-item--for-rent">
        <a class="listing-search-item__link--title" href="/bad">C D</a>
        <div class="listing-search-item__price">soon</div>
        <ul><li class="illustrated-features__item--surface-area">60 m²</li></ul>
      </section>
    </body></html>"#;
    assert!(ParariusScraper.list_from_index(body).is_err());
}

#[test]
fn huurwoningen_malformed_listing_fails_the_whole_page() {
    // Fail-fast at page level for this site too: the well-formed first
    // listing yields no partial result once the second is malformed.
    let body = "<html><body><ul>\
      <li class=\"search-list__item--listing\">\
        <div class=\"listing-search-item__price\">€\u{a0}1.500 per maand</div>\
        <a class=\"listing-search-item__link--title\" href=\"/ok\">A</a>\
        <ul><li class=\"illustrated-features__item--surface-area\">75 m²</li></ul>\
      </li>\
      <li class=\"search-list__item--listing\">\
        <div class=\"listing-search-item__price\">binnenkort</div>\
        <a class=\"listing-search-item__link--title\" href=\"/bad\">B</a>\
        <ul><li class=\"illustrated-features__item--surface-area\">75 m²</li></ul>\
      </li>\
    </ul></body></html>";
    assert!(HuurwoningenScraper.list_from_index(body).is_err());
}

#[test]
fn ikwilhuren_detail_without_map_element_fails() {
    let p = partial(b"T", 1234, b"https://ikwilhuren.nu/woning/z", 58);
    let r = IkwilhurenScraper.detail_from_page(p, "<html><body></body></html>");
    assert!(r.is_err());
}

#[test]
fn pararius_detail_page_yields_coordinates() {
    let body = r#"<html><body>
      <wc-detail-map data-longitude="4.47917" data-latitude="51.9225"></wc-detail-map>
    </body></html>"#;
    let p = partial(b"T", 1500, b"https://pararius.com/apartment-x", 60);
    let f = ParariusScraper.detail_from_page(p, body).unwrap();
    assert_eq!(f.location.lon_udeg, 4_479_170);
    assert_eq!(f.location.lat_udeg, 51_922_500);
    assert_eq!(f.partial.url, b"https://pararius.com/apartment-x".to_vec());
    assert_eq!(f.partial.price, 1500);
}

#[test]
fn huurwoningen_index_page_yields_partial_listings() {
    let body = "<html><body>\
      <ul><li class=\"search-list__item--listing\">\
        <div class=\"listing-search-item__price\">€\u{a0}1.500 per maand</div>\
        <a class=\"listing-search-item__link--title\" href=\"/woning-y\">Y</a>\
        <ul><li class=\"illustrated-features__item--surface-area\">75 m²</li></ul>\
      </li></ul>\
    </body></html>";
    let results = HuurwoningenScraper.list_from_index(body).unwrap();
    assert_eq!(results.len(), 1);
    match &results[0] {
        ScrapeResult::Partial(l) => {
            assert_eq!(l.title, b"".to_vec());
            assert_eq!(l.price, 1500);
            assert_eq!(l.url, b"https://www.huurwoningen.nl/woning-y".to_vec());
            assert_eq!(l.area, 75);
        }
        ScrapeResult::Full(_) => panic!("huurwoningen index results must be partial"),
    }
}

#[test]
fn ikwilhuren_index_page_yields_partial_listings() {
    let body = r#"<html><body>
      <div class="card-woning">
        <div class="card-title"><a href="/woning/z">  Nice Flat  </a></div>
        <div><span class="fw-bold">€ 1.234,- p/m</span><span>58 m²</span></div>
      </div>
    </body></html>"#;
    let results = IkwilhurenScraper.list_from_index(body).unwrap();
    assert_eq!(results.len(), 1);
    match &results[0] {
        ScrapeResult::Partial(l) => {
            assert_eq!(l.title, b"Nice Flat".to_vec());
            assert_eq!(l.price, 1234);
            assert_eq!(l.url, b"https://ikwilhuren.nu/woning/z".to_vec());
            assert_eq!(l.area, 58);
        }
        ScrapeResult::Full(_) => panic!("ikwilhuren index results must be partial"),
    }
}

#[test]
fn ikwilhuren_detail_page_yields_coordinates() {
    let body = r#"<html><body>
      <div id="maplibre-object" data-lng="4.5" data-lat="51.9"></div>
    </body></html>"#;
    let p = partial(b"T", 1234, b"https://ikwilhuren.nu/woning/z", 58);
    let f = IkwilhurenScraper.detail_from_page(p, body).unwrap();
    assert_eq!(f.location.lon_udeg, 4_500_000);
    assert_eq!(f.location.lat_udeg, 51_900_000);
}

#[test]
fn rotterdamwonen_index_short_circuits_to_full() {
    // Coordinates are embedded in the index page, so no detail fetch is
    // ever needed for this site.
    let body = r#"<html><body>
      <div class="property-list-item" data-title="Huis" data-price="€ 950"
           data-link="https://www.rotterdamwonen.nl/woning/a"
           data-lat="51.92" data-long="4.48">
        <div class="property-meta-item first-item"><span class="property-meta-number">80</span></div>
      </div>
    </body></html>"#;
    let results = RotterdamWonenScraper.list_from_index(body).unwrap();
    assert_eq!(results.len(), 1);
    match &results[0] {
        ScrapeResult::Full(f) => {
            assert_eq!(f.partial.title, b"Huis".to_vec());
            assert_eq!(f.partial.price, 950);
            assert_eq!(f.partial.url, b"https://www.rotterdamwonen.nl/woning/a".to_vec());
            assert_eq!(f.partial.area, 80);
            assert_eq!(f.location.lon_udeg, 4_480_000);
            assert_eq!(f.location.lat_udeg, 51_920_000);
        }
        ScrapeResult::Partial(_) => panic!("rotterdamwonen results must be full"),
    }
}

#[test]
fn rotterdamwonen_detail_is_unsupported() {
    let p = partial(b"T", 950, b"https://www.rotterdamwonen.nl/woning/a", 80);
    let r = RotterdamWonenScraper.detail_from_page(p, "<html></html>");
    assert_eq!(r.unwrap_err(), ScrapeError::Unsupported);
}

fn verra_record(
    is_rentals: bool,
    status: &[u8],
    url: &[u8],
    lon_udeg: i64,
    lat_udeg: i64,
) -> VerraListing {
    VerraListing {
        address: b"Laan 1".to_vec(),
        price: 1200,
        area: 70,
        is_rentals,
        status: status.to_vec(),
        url: url.to_vec(),
        lon_udeg,
        lat_udeg,
    }
}

#[test]
fn verra_keeps_available_rentals_only() {
    let records = vec![
        verra_record(true, b"Beschikbaar", b"/huis-1", 4_480_000, 51_920_000),
        verra_record(false, b"Beschikbaar", b"/koop-2", 4_480_000, 51_920_000),
        verra_record(true, b"Verhuurd", b"/huis-3", 4_480_000, 51_920_000),
    ];
    let results = VerraMakelaarsScraper.listings_from_records(&records).unwrap();
    assert_eq!(results.len(), 1);
    match &results[0] {
        ScrapeResult::Full(f) => {
            assert_eq!(f.partial.title, b"Laan 1".to_vec());
            assert_eq!(f.partial.url, b"https://www.verra.nl/huis-1/".to_vec());
            assert_eq!(f.location.lon_udeg, 4_480_000);
        }
        ScrapeResult::Partial(_) => panic!("verra results must be full"),
    }
}

#[test]
fn verra_detail_is_unsupported() {
    let p = partial(b"T", 1200, b"https://www.verra.nl/huis-1/", 70);
    let r = VerraMakelaarsScraper.detail_from_page(p, "{}");
    assert_eq!(r.unwrap_err(), ScrapeError::Unsupported);
}
