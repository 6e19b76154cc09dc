//! The acquisition pipeline: filter boundaries, geofence containment, the
//! no-subscriber short-circuit, dedup across cycles, and the full
//! scenario of one cycle.

use nlhousefinder::model::{
    FullScrapeResult, GeoPoint, PartialScrapeResult, ScrapeError, ScrapeResult,
};
use nlhousefinder::pipeline::{
    commit_new, enrich_accepted, enrichment_targets, notify_plan, passes_filter, plan_cycle,
    DetailOutcome, FilterConfig, Message,
};
use nlhousefinder::region::Region;
use nlhousefinder::store::{SeenSet, SubscriberSet};

fn cfg() -> FilterConfig {
    FilterConfig { price_ceiling: 1650, area_floor: 55 }
}

fn listing(url: &[u8], price: usize, area: u32) -> ScrapeResult {
    ScrapeResult::Partial(PartialScrapeResult {
        title: b"T".to_vec(),
        price,
        url: url.to_vec(),
        area,
    })
}

/// A rectangle around Rotterdam, in microdegrees.
fn rotterdam_region() -> Region {
    Region::new(vec![
        GeoPoint { lon_udeg: 4_000_000, lat_udeg: 51_500_000 },
        GeoPoint { lon_udeg: 5_000_000, lat_udeg: 51_500_000 },
        GeoPoint { lon_udeg: 5_000_000, lat_udeg: 52_200_000 },
        GeoPoint { lon_udeg: 4_000_000, lat_udeg: 52_200_000 },
    ])
    .unwrap()
}

fn inside() -> GeoPoint {
    GeoPoint { lon_udeg: 4_480_000, lat_udeg: 51_920_000 }
}

fn outside() -> GeoPoint {
    GeoPoint { lon_udeg: 6_000_000, lat_udeg: 51_920_000 }
}

#[test]
fn filter_boundaries_are_exact() {
    let c = cfg();
    // Exclusive at the price ceiling.
    assert!(!passes_filter(&c, &listing(b"u", 1650, 60)));
    assert!(passes_filter(&c, &listing(b"u", 1649, 60)));
    // Inclusive at the area floor.
    assert!(passes_filter(&c, &listing(b"u", 1000, 55)));
    assert!(!passes_filter(&c, &listing(b"u", 1000, 54)));
}

#[test]
fn default_filter_matches_the_configured_policy() {
    assert_eq!(FilterConfig::default(), cfg());
}

#[test]
fn region_contains_is_exact() {
    let region = rotterdam_region();
    assert!(region.contains(inside()));
    assert!(!region.contains(outside()));
}

#[test]
fn geofence_drops_out_of_region_listings_silently() {
    // A listing that passes the price and area filters but lies outside
    // the region is never passed to the notifier.
    let region = rotterdam_region();
    let mut subs = SubscriberSet::new();
    subs.add_subscriber(7);
    let full = FullScrapeResult {
        partial: PartialScrapeResult {
            title: b"T".to_vec(),
            price: 1600,
            url: b"u".to_vec(),
            area: 60,
        },
        location: outside(),
    };
    let ns = notify_plan(&full, &region, &subs);
    assert_eq!(ns.len(), 0);
}

#[test]
fn enrichment_drops_out_of_region_listings() {
    let region = rotterdam_region();
    let targets = vec![listing(b"a", 1600, 60), listing(b"b", 1600, 60)];
    let outcomes = vec![
        DetailOutcome::Fetched(outside()),
        DetailOutcome::Fetched(inside()),
    ];
    let fulls = enrich_accepted(&targets, &outcomes, &region).unwrap();
    assert_eq!(fulls.len(), 1);
    assert_eq!(fulls[0].partial.url, b"b".to_vec());
}

#[test]
fn enrichment_failure_aborts_the_batch() {
    let region = rotterdam_region();
    let targets = vec![listing(b"a", 1600, 60), listing(b"b", 1600, 60)];
    let outcomes = vec![DetailOutcome::Failed(ScrapeError::Fetch)];
    let r = enrich_accepted(&targets, &outcomes, &region);
    assert_eq!(r.unwrap_err(), ScrapeError::Fetch);
}

#[test]
fn already_full_listings_consume_no_outcome() {
    // Idempotent enrichment: a Full result is taken as it is; only the
    // Partial one needs the single outcome supplied.
    let region = rotterdam_region();
    let full_in = ScrapeResult::Full(FullScrapeResult {
        partial: PartialScrapeResult {
            title: b"T".to_vec(),
            price: 1600,
            url: b"f".to_vec(),
            area: 60,
        },
        location: inside(),
    });
    let targets = vec![full_in, listing(b"p", 1600, 60)];
    let outcomes = vec![DetailOutcome::Fetched(inside())];
    let fulls = enrich_accepted(&targets, &outcomes, &region).unwrap();
    assert_eq!(fulls.len(), 2);
    assert_eq!(fulls[0].partial.url, b"f".to_vec());
    assert_eq!(fulls[1].partial.url, b"p".to_vec());
}

#[test]
fn no_subscribers_skips_enrichment_but_still_commits() {
    let seen = SeenSet::new();
    let listings = vec![listing(b"a", 1600, 60), listing(b"b", 1700, 60)];
    let plan = plan_cycle(&listings, &seen, &cfg());
    assert_eq!(plan.new.len(), 2);
    // With an empty subscriber set there is nothing to enrich: no detail
    // fetch will occur.
    let targets = enrichment_targets(plan.accepted, 0);
    assert_eq!(targets.len(), 0);
    // The cycle still commits the full new set.
    let mut seen = seen;
    commit_new(&mut seen, &plan.commit_urls);
    assert!(seen.contains_url(b"a"));
    assert!(seen.contains_url(b"b"));
}

#[test]
fn scenario_one_cycle_with_one_subscriber() {
    // Adapter returns [{url a, 1600, 60}, {url b, 1700, 60}]; the seen
    // set is empty; one subscriber exists. Expected: b is filtered out
    // (price at or above the ceiling), a is enriched and, being inside
    // the geofence, triggers one text and one location message; the seen
    // set afterwards holds both a and b.
    let region = rotterdam_region();
    let mut seen = SeenSet::new();
    let mut subs = SubscriberSet::new();
    subs.add_subscriber(42);

    let listings = vec![listing(b"a", 1600, 60), listing(b"b", 1700, 60)];
    let plan = plan_cycle(&listings, &seen, &cfg());
    assert_eq!(plan.new.len(), 2);
    assert_eq!(plan.accepted.len(), 1);

    let targets = enrichment_targets(plan.accepted, subs.len());
    assert_eq!(targets.len(), 1);

    // One detail fetch for the one accepted partial listing.
    let outcomes = vec![DetailOutcome::Fetched(inside())];
    let fulls = enrich_accepted(&targets, &outcomes, &region).unwrap();
    assert_eq!(fulls.len(), 1);
    assert_eq!(fulls[0].partial.url, b"a".to_vec());

    let ns = notify_plan(&fulls[0], &region, &subs);
    assert_eq!(ns.len(), 2);
    assert_eq!(ns[0].chat_id, 42);
    match &ns[0].message {
        Message::Text(t) => assert_eq!(t, &b"New property: a".to_vec()),
        Message::Location(_) => panic!("first message must be the text"),
    }
    assert_eq!(ns[1].chat_id, 42);
    match &ns[1].message {
        Message::Location(g) => assert_eq!(*g, inside()),
        Message::Text(_) => panic!("second message must be the location"),
    }

    commit_new(&mut seen, &plan.commit_urls);
    assert!(seen.contains_url(b"a"));
    assert!(seen.contains_url(b"b"));
}

#[test]
fn dedup_is_monotone_across_cycles() {
    // Against a static source page the seen set stabilizes after the
    // first cycle and no listing is reported twice.
    let mut seen = SeenSet::new();
    let listings = vec![listing(b"a", 1600, 60), listing(b"b", 1700, 60)];

    let plan1 = plan_cycle(&listings, &seen, &cfg());
    assert_eq!(plan1.new.len(), 2);
    commit_new(&mut seen, &plan1.commit_urls);

    let plan2 = plan_cycle(&listings, &seen, &cfg());
    assert_eq!(plan2.new.len(), 0);
    assert_eq!(plan2.accepted.len(), 0);
    assert_eq!(plan2.commit_urls.len(), 0);

    commit_new(&mut seen, &plan2.commit_urls);
    let plan3 = plan_cycle(&listings, &seen, &cfg());
    assert_eq!(plan3.new.len(), 0);
}

#[test]
fn known_urls_are_diffed_out_in_order() {
    let mut seen = SeenSet::new();
    seen.record_seen(b"a".to_vec());
    let listings = vec![
        listing(b"a", 1600, 60),
        listing(b"c", 1600, 60),
        listing(b"b", 1600, 60),
    ];
    let plan = plan_cycle(&listings, &seen, &cfg());
    assert_eq!(plan.new.len(), 2);
    assert_eq!(plan.commit_urls, vec![b"c".to_vec(), b"b".to_vec()]);
}
