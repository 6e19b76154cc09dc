//! Byte-level extraction policy: prices, areas, titles, URLs and
//! coordinates, site by site.

use nlhousefinder::bytes::{parse_coord_udeg, parse_u64_digits};
use nlhousefinder::model::{ParseField, PartialScrapeResult, ScrapeError};
use nlhousefinder::scraping::coord_from_texts;
use nlhousefinder::scraping::huurwoningen::HuurwoningenScraper;
use nlhousefinder::scraping::ikwilhuren::IkwilhurenScraper;
use nlhousefinder::scraping::pararius::ParariusScraper;
use nlhousefinder::scraping::rotterdamwonen::RotterdamWonenScraper;

#[test]
fn digits_parse_exact_values() {
    assert_eq!(parse_u64_digits(b"0"), Some(0));
    assert_eq!(parse_u64_digits(b"007"), Some(7));
    assert_eq!(parse_u64_digits(b"1650"), Some(1650));
    assert_eq!(parse_u64_digits(b"18446744073709551615"), Some(u64::MAX));
}

#[test]
fn digits_parse_rejects_bad_input() {
    assert_eq!(parse_u64_digits(b""), None);
    assert_eq!(parse_u64_digits(b"12a"), None);
    assert_eq!(parse_u64_digits(b"-5"), None);
    assert_eq!(parse_u64_digits(b"18446744073709551616"), None);
}

#[test]
fn coordinates_parse_to_microdegrees() {
    assert_eq!(parse_coord_udeg(b"4.47917"), Some(4_479_170));
    assert_eq!(parse_coord_udeg(b"51.9225"), Some(51_922_500));
    assert_eq!(parse_coord_udeg(b"51"), Some(51_000_000));
    assert_eq!(parse_coord_udeg(b"51."), Some(51_000_000));
    assert_eq!(parse_coord_udeg(b"-0.5"), Some(-500_000));
    assert_eq!(parse_coord_udeg(b"4.1234567"), Some(4_123_456));
}

#[test]
fn coordinates_reject_bad_input() {
    assert_eq!(parse_coord_udeg(b""), None);
    assert_eq!(parse_coord_udeg(b"abc"), None);
    assert_eq!(parse_coord_udeg(b"1e5"), None);
    assert_eq!(parse_coord_udeg(b"4.47.917"), None);
    assert_eq!(parse_coord_udeg(b".5"), None);
    assert_eq!(parse_coord_udeg(b"-"), None);
}

#[test]
fn coordinate_pair_is_range_checked() {
    let g = coord_from_texts(b"4.48", b"51.92").unwrap();
    assert_eq!(g.lon_udeg, 4_480_000);
    assert_eq!(g.lat_udeg, 51_920_000);
    assert_eq!(
        coord_from_texts(b"200.0", b"51.92"),
        Err(ScrapeError::Parse(ParseField::Longitude))
    );
    assert_eq!(
        coord_from_texts(b"4.48", b"91.0"),
        Err(ScrapeError::Parse(ParseField::Latitude))
    );
}

fn assert_partial(
    l: &PartialScrapeResult,
    title: &[u8],
    price: usize,
    url: &[u8],
    area: u32,
) {
    assert_eq!(l.title, title.to_vec());
    assert_eq!(l.price, price);
    assert_eq!(l.url, url.to_vec());
    assert_eq!(l.area, area);
}

#[test]
fn pararius_price_tolerates_currency_and_commas() {
    let l = ParariusScraper::listing_from_parts(
        b" Flat Coolhaven 12 ",
        b"/apartment-x",
        "€1,500 per month".as_bytes(),
        b"60 m\xc2\xb2",
    )
    .unwrap();
    assert_partial(&l, b"Coolhaven 12", 1500, b"https://pararius.com/apartment-x", 60);
}

#[test]
fn pararius_price_sentinel_parses_to_9999() {
    // The site's "price on request" string must not fail the page: it
    // maps to the fixed sentinel so such listings sort last.
    let l = ParariusScraper::listing_from_parts(
        b"Huis Westzeedijk 5",
        b"/apartment-y",
        b"Price on request",
        b"60",
    )
    .unwrap();
    assert_eq!(l.price, 9999);
}

#[test]
fn pararius_bad_price_is_a_parse_error() {
    let r = ParariusScraper::listing_from_parts(b"T", b"/u", b"on request", b"60");
    assert_eq!(r.unwrap_err(), ScrapeError::Parse(ParseField::Price));
}

#[test]
fn pararius_bad_area_is_a_parse_error() {
    let r =
        ParariusScraper::listing_from_parts(b"T", b"/u", "€1,500".as_bytes(), b"sixty");
    assert_eq!(r.unwrap_err(), ScrapeError::Parse(ParseField::Area));
}

#[test]
fn pararius_title_without_space_is_kept_whole() {
    let l = ParariusScraper::listing_from_parts(b"Coolhaven", b"/u", b"Price on request", b"60")
        .unwrap();
    assert_eq!(l.title, b"Coolhaven".to_vec());
}

#[test]
fn huurwoningen_price_tolerates_nbsp_and_dots() {
    // The price opens with a euro sign and a no-break space.
    let l = HuurwoningenScraper::listing_from_parts(
        b"/woning-y",
        "€\u{a0}1.500 per maand".as_bytes(),
        "75 m²".as_bytes(),
    )
    .unwrap();
    assert_partial(&l, b"", 1500, b"https://www.huurwoningen.nl/woning-y", 75);
}

#[test]
fn huurwoningen_area_without_unit_suffix() {
    let l = HuurwoningenScraper::listing_from_parts(
        b"/woning-y",
        "€\u{a0}950 per maand".as_bytes(),
        b"75",
    )
    .unwrap();
    assert_eq!(l.area, 75);
}

#[test]
fn huurwoningen_price_without_second_token_fails() {
    let r = HuurwoningenScraper::listing_from_parts(b"/w", "€".as_bytes(), b"75");
    assert_eq!(r.unwrap_err(), ScrapeError::Parse(ParseField::Price));
}

#[test]
fn ikwilhuren_price_strips_separators_and_dash() {
    let l = IkwilhurenScraper::listing_from_parts(
        b"  Nice Flat  ",
        b"/woning/z",
        "€ 1.234,- p/m".as_bytes(),
        b"58 m\xc2\xb2",
    )
    .unwrap();
    assert_partial(&l, b"Nice Flat", 1234, b"https://ikwilhuren.nu/woning/z", 58);
}

#[test]
fn ikwilhuren_price_without_second_piece_fails() {
    let r = IkwilhurenScraper::listing_from_parts(b"T", b"/z", b"1234", b"58");
    assert_eq!(r.unwrap_err(), ScrapeError::Parse(ParseField::Price));
}

#[test]
fn rotterdamwonen_price_takes_last_token() {
    let f = RotterdamWonenScraper::listing_from_parts(
        b"Huis",
        b"https://www.rotterdamwonen.nl/woning/a",
        "€ 950".as_bytes(),
        b"80",
        b"4.48",
        b"51.92",
    )
    .unwrap();
    assert_eq!(f.partial.price, 950);
    assert_eq!(f.partial.area, 80);
    assert_eq!(f.location.lon_udeg, 4_480_000);
    assert_eq!(f.location.lat_udeg, 51_920_000);
}

#[test]
fn rotterdamwonen_empty_url_fails() {
    let r = RotterdamWonenScraper::listing_from_parts(
        b"Huis",
        b"",
        b"950",
        b"80",
        b"4.48",
        b"51.92",
    );
    assert_eq!(r.unwrap_err(), ScrapeError::Parse(ParseField::Url));
}
