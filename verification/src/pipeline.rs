//! One polling cycle over a listing batch: diff against the seen set,
//! apply the acceptance filter, enrich survivors with coordinates, test
//! them against the configured region, build the notification batch, and
//! commit the new URLs. Every stage is a pure transformation with an
//! exact contract; the caller performs the fetches and sleeps between
//! them, and hands the outcomes back.

use crate::bytes::copy_bytes;
use crate::model::{
    FullScrapeResult, FullScrapeView, GeoPoint, PartialScrapeView, ScrapeError, ScrapeResult,
    ScrapeView,
};
use crate::region::{in_region, Region};
use crate::store::{SeenSet, SubscriberSet};
use vstd::prelude::*;

verus! {

/// The acceptance predicate's two bounds: a listing is acceptable when its
/// price is strictly below `price_ceiling` and its area is at least
/// `area_floor`.
#[derive(Clone, Copy, PartialEq, Eq, Structural, Debug)]
pub struct FilterConfig {
    pub price_ceiling: usize,
    pub area_floor: u32,
}

impl Default for FilterConfig {
    /// The configured policy: prices up to (excluding) 1650 and areas of
    /// at least 55 square meters.
    fn default() -> (c: FilterConfig)
        ensures
            c == (FilterConfig { price_ceiling: 1650usize, area_floor: 55u32 }),
    {
        FilterConfig { price_ceiling: 1650, area_floor: 55 }
    }
}

/// The acceptance predicate: exclusive at the price ceiling, inclusive at
/// the area floor.
pub open spec fn accepts(cfg: FilterConfig, l: PartialScrapeView) -> bool {
    l.price < cfg.price_ceiling && l.area >= cfg.area_floor
}

/// Whether a listing passes the acceptance filter.
pub fn passes_filter(cfg: &FilterConfig, r: &ScrapeResult) -> (b: bool)
    ensures
        b == accepts(*cfg, r@.partial()),
{
    let p = r.partial();
    p.price < cfg.price_ceiling && p.area >= cfg.area_floor
}

/// The listings whose URL is not in `seen`, in their original order.
pub open spec fn unseen_filter(s: Seq<ScrapeView>, seen: Set<Seq<u8>>) -> Seq<ScrapeView>
    decreases s.len(),
{
    if s.len() == 0 {
        seq![]
    } else {
        let rest = unseen_filter(s.drop_first(), seen);
        if seen.contains(s[0].url()) {
            rest
        } else {
            seq![s[0]] + rest
        }
    }
}

/// The listings passing the acceptance filter, in their original order.
pub open spec fn accept_filter(s: Seq<ScrapeView>, cfg: FilterConfig) -> Seq<ScrapeView>
    decreases s.len(),
{
    if s.len() == 0 {
        seq![]
    } else {
        let rest = accept_filter(s.drop_first(), cfg);
        if accepts(cfg, s[0].partial()) {
            seq![s[0]] + rest
        } else {
            rest
        }
    }
}

/// The dedup keys of a batch, in order.
pub open spec fn urls_seq(s: Seq<ScrapeView>) -> Seq<Seq<u8>> {
    s.map_values(|r: ScrapeView| r.url())
}

/// The set of the given URLs.
pub open spec fn url_set(us: Seq<Seq<u8>>) -> Set<Seq<u8>>
    decreases us.len(),
{
    if us.len() == 0 {
        Set::empty()
    } else {
        url_set(us.drop_last()).insert(us.last())
    }
}

/// `unseen_filter` distributes over concatenation.
pub proof fn lemma_unseen_concat(a: Seq<ScrapeView>, b: Seq<ScrapeView>, seen: Set<Seq<u8>>)
    ensures
        unseen_filter(a + b, seen) == unseen_filter(a, seen) + unseen_filter(b, seen),
    decreases a.len(),
{
    if a.len() == 0 {
        assert(a + b =~= b);
        assert(unseen_filter(a, seen) + unseen_filter(b, seen) =~= unseen_filter(b, seen));
    } else {
        lemma_unseen_concat(a.drop_first(), b, seen);
        assert((a + b).drop_first() =~= a.drop_first() + b);
        assert((a + b)[0] == a[0]);
        if !seen.contains(a[0].url()) {
            assert(seq![a[0]] + (unseen_filter(a.drop_first(), seen) + unseen_filter(b, seen))
                =~= (seq![a[0]] + unseen_filter(a.drop_first(), seen)) + unseen_filter(b, seen));
        }
    }
}

/// `accept_filter` distributes over concatenation.
pub proof fn lemma_accept_concat(a: Seq<ScrapeView>, b: Seq<ScrapeView>, cfg: FilterConfig)
    ensures
        accept_filter(a + b, cfg) == accept_filter(a, cfg) + accept_filter(b, cfg),
    decreases a.len(),
{
    if a.len() == 0 {
        assert(a + b =~= b);
        assert(accept_filter(a, cfg) + accept_filter(b, cfg) =~= accept_filter(b, cfg));
    } else {
        lemma_accept_concat(a.drop_first(), b, cfg);
        assert((a + b).drop_first() =~= a.drop_first() + b);
        assert((a + b)[0] == a[0]);
        if accepts(cfg, a[0].partial()) {
            assert(seq![a[0]] + (accept_filter(a.drop_first(), cfg) + accept_filter(b, cfg)) =~= (
            seq![a[0]] + accept_filter(a.drop_first(), cfg)) + accept_filter(b, cfg));
        }
    }
}

/// The plan of one cycle before any detail fetch: the listings not seen
/// before, the URLs that will be committed (every new listing's URL,
/// whether or not it passes the filter), and the new listings that pass
/// the acceptance filter.
#[derive(Debug)]
pub struct CyclePlan {
    pub new: Vec<ScrapeResult>,
    pub commit_urls: Vec<Vec<u8>>,
    pub accepted: Vec<ScrapeResult>,
}

/// Diff a listing batch against the seen set and apply the acceptance
/// filter. Order follows the adapter's returned order throughout. The
/// commit set covers every new listing, filtered out or not, so that a
/// rejected listing is not reconsidered every cycle.
#[verifier::loop_isolation(false)]
pub fn plan_cycle(listings: &Vec<ScrapeResult>, seen: &SeenSet, cfg: &FilterConfig) -> (p:
    CyclePlan)
    ensures
        p.new.deep_view() == unseen_filter(listings.deep_view(), seen@),
        p.commit_urls.deep_view() == urls_seq(unseen_filter(listings.deep_view(), seen@)),
        p.accepted.deep_view() == accept_filter(unseen_filter(listings.deep_view(), seen@), *cfg),
{
    let ghost tv = listings.deep_view();
    let mut new: Vec<ScrapeResult> = Vec::new();
    let mut commit_urls: Vec<Vec<u8>> = Vec::new();
    let mut accepted: Vec<ScrapeResult> = Vec::new();
    let mut i: usize = 0;
    proof {
        assert(tv.take(0) =~= Seq::<ScrapeView>::empty());
        assert(new.deep_view() =~= unseen_filter(tv.take(0), seen@));
        assert(commit_urls.deep_view() =~= urls_seq(unseen_filter(tv.take(0), seen@)));
        assert(accepted.deep_view() =~= accept_filter(unseen_filter(tv.take(0), seen@), *cfg));
    }
    while i < listings.len()
        invariant
            i <= listings@.len(),
            new.deep_view() == unseen_filter(tv.take(i as int), seen@),
            commit_urls.deep_view() == urls_seq(unseen_filter(tv.take(i as int), seen@)),
            accepted.deep_view() == accept_filter(unseen_filter(tv.take(i as int), seen@), *cfg),
        decreases listings@.len() - i,
    {
        let r = &listings[i];
        proof {
            assert(tv[i as int] == r@);
            assert(tv.take(i + 1) =~= tv.take(i as int) + seq![tv[i as int]]);
            lemma_unseen_concat(tv.take(i as int), seq![tv[i as int]], seen@);
            assert(seq![tv[i as int]].drop_first() =~= Seq::<ScrapeView>::empty());
            lemma_accept_concat(
                unseen_filter(tv.take(i as int), seen@),
                unseen_filter(seq![tv[i as int]], seen@),
                *cfg,
            );
        }
        let url = r.partial();
        if !seen.contains_url(url.url.as_slice()) {
            let ghost pre_new = new.deep_view();
            let ghost pre_urls = commit_urls.deep_view();
            let ghost pre_acc = accepted.deep_view();
            new.push(r.clone());
            commit_urls.push(copy_bytes(r.partial().url.as_slice()));
            proof {
                assert(new.deep_view() =~= pre_new + seq![tv[i as int]]);
                assert(unseen_filter(seq![tv[i as int]], seen@) =~= seq![tv[i as int]]);
                assert(commit_urls.deep_view() =~~= pre_urls + seq![tv[i as int].url()]);
                assert(urls_seq(
                    unseen_filter(tv.take(i as int), seen@) + seq![tv[i as int]],
                ) =~= urls_seq(unseen_filter(tv.take(i as int), seen@)) + seq![tv[i as int].url()]);
            }
            if passes_filter(cfg, r) {
                accepted.push(r.clone());
                proof {
                    assert(accept_filter(seq![tv[i as int]], *cfg) =~= seq![tv[i as int]]);
                    assert(accepted.deep_view() =~= pre_acc + seq![tv[i as int]]);
                }
            } else {
                proof {
                    assert(accept_filter(seq![tv[i as int]], *cfg) =~= Seq::<ScrapeView>::empty());
                    assert(accepted.deep_view() =~= pre_acc + accept_filter(
                        seq![tv[i as int]],
                        *cfg,
                    ));
                }
            }
        } else {
            proof {
                assert(unseen_filter(seq![tv[i as int]], seen@) =~= Seq::<ScrapeView>::empty());
                assert(unseen_filter(tv.take(i + 1), seen@) =~= unseen_filter(
                    tv.take(i as int),
                    seen@,
                ));
                assert(urls_seq(unseen_filter(tv.take(i + 1), seen@)) =~= urls_seq(
                    unseen_filter(tv.take(i as int), seen@),
                ));
            }
        }
        i = i + 1;
    }
    proof {
        assert(tv.take(tv.len() as int) =~= tv);
    }
    CyclePlan { new, commit_urls, accepted }
}

/// The cost-avoidance short-circuit: with no subscribers there is nothing
/// to notify, so no listing is enriched and no detail fetch will occur;
/// with at least one subscriber every accepted listing is a target. The
/// commit set is unaffected either way: it was fixed by `plan_cycle`,
/// which never looks at the subscribers.
pub fn enrichment_targets(accepted: Vec<ScrapeResult>, n_subscribers: usize) -> (t: Vec<
    ScrapeResult,
>)
    ensures
        n_subscribers == 0 ==> t.deep_view() == Seq::<ScrapeView>::empty(),
        n_subscribers > 0 ==> t.deep_view() == accepted.deep_view(),
{
    if n_subscribers == 0 {
        let t: Vec<ScrapeResult> = Vec::new();
        proof {
            assert(t.deep_view() =~= Seq::<ScrapeView>::empty());
        }
        t
    } else {
        accepted
    }
}

/// Append every committed URL to the seen set: the single durable
/// mutation of a cycle, performed once, after all notification attempts.
#[verifier::loop_isolation(false)]
pub fn commit_new(seen: &mut SeenSet, urls: &Vec<Vec<u8>>)
    ensures
        final(seen)@ == old(seen)@ + url_set(urls.deep_view()),
{
    let ghost uv = urls.deep_view();
    let mut i: usize = 0;
    proof {
        assert(uv.take(0) =~= Seq::<Seq<u8>>::empty());
        assert(seen@ =~= old(seen)@ + url_set(uv.take(0)));
    }
    while i < urls.len()
        invariant
            i <= urls@.len(),
            seen@ == old(seen)@ + url_set(uv.take(i as int)),
        decreases urls@.len() - i,
    {
        seen.record_seen(copy_bytes(urls[i].as_slice()));
        proof {
            assert(uv[i as int] =~= urls@[i as int]@);
            assert(uv.take(i + 1).drop_last() =~= uv.take(i as int));
            assert(uv.take(i + 1).last() == uv[i as int]);
            assert((old(seen)@ + url_set(uv.take(i as int))).insert(uv[i as int]) =~= old(seen)@
                + url_set(uv.take(i + 1)));
        }
        i = i + 1;
    }
    proof {
        assert(uv.take(uv.len() as int) =~= uv);
    }
}

/// What one detail fetch produced: the listing's coordinates, or the
/// error that ended it. Supplied by the caller, which performs the
/// fetches strictly in order with the politeness delay between them.
#[derive(Clone, Copy, PartialEq, Eq, Structural, Debug)]
pub enum DetailOutcome {
    Fetched(GeoPoint),
    Failed(ScrapeError),
}

/// A usable outcome carries valid coordinates.
pub open spec fn outcome_wf(o: DetailOutcome) -> bool {
    match o {
        DetailOutcome::Fetched(g) => g.wf(),
        DetailOutcome::Failed(_) => true,
    }
}

/// The enrichment stage as a function of the fetch outcomes: walk the
/// accepted listings in order; a listing that is already `Full` consumes
/// no outcome; a `Partial` listing consumes the next outcome; a missing
/// or failed outcome aborts the whole stage with that error (fail-fast:
/// the remainder of the batch is not enriched). Enriched listings whose
/// coordinates lie outside the region are dropped silently.
pub open spec fn spec_enrich(
    acc: Seq<ScrapeView>,
    fet: Seq<DetailOutcome>,
    region: Seq<GeoPoint>,
) -> Result<Seq<FullScrapeView>, ScrapeError>
    decreases acc.len(),
{
    if acc.len() == 0 {
        Ok(seq![])
    } else {
        match acc[0] {
            ScrapeView::Full(f) => match spec_enrich(acc.drop_first(), fet, region) {
                Err(e) => Err(e),
                Ok(rest) => Ok(
                    if in_region(region, f.location) {
                        seq![f] + rest
                    } else {
                        rest
                    },
                ),
            },
            ScrapeView::Partial(p) => {
                if fet.len() == 0 {
                    Err(ScrapeError::Fetch)
                } else {
                    match fet[0] {
                        DetailOutcome::Failed(e) => Err(e),
                        DetailOutcome::Fetched(g) => match spec_enrich(
                            acc.drop_first(),
                            fet.drop_first(),
                            region,
                        ) {
                            Err(e) => Err(e),
                            Ok(rest) => {
                                let f = FullScrapeView { partial: p, location: g };
                                Ok(
                                    if in_region(region, f.location) {
                                        seq![f] + rest
                                    } else {
                                        rest
                                    },
                                )
                            },
                        },
                    }
                }
            },
        }
    }
}

/// Run the enrichment stage over the accepted listings, consuming the
/// fetch outcomes in order, and keep the listings whose coordinates lie
/// inside the region.
#[verifier::loop_isolation(false)]
pub fn enrich_accepted(
    targets: &Vec<ScrapeResult>,
    outcomes: &Vec<DetailOutcome>,
    region: &Region,
) -> (r: Result<Vec<FullScrapeResult>, ScrapeError>)
    requires
        region.wf(),
        forall|i: int|
            0 <= i < targets.deep_view().len() ==> (#[trigger] targets.deep_view()[i]).wf(),
        forall|i: int| 0 <= i < outcomes@.len() ==> outcome_wf(#[trigger] outcomes@[i]),
    ensures
        match spec_enrich(targets.deep_view(), outcomes@, region@) {
            Ok(fulls) => r is Ok && r->Ok_0.deep_view() == fulls,
            Err(e) => r is Err && r->Err_0 == e,
        },
        r is Ok ==> forall|i: int|
            0 <= i < r->Ok_0.deep_view().len() ==> (#[trigger] r->Ok_0.deep_view()[i]).wf(),
{
    let ghost tv = targets.deep_view();
    let ghost ov = outcomes@;
    let mut out: Vec<FullScrapeResult> = Vec::new();
    let mut i: usize = 0;
    let mut fi: usize = 0;
    proof {
        assert(tv.skip(0) =~= tv);
        assert(ov.skip(0) =~= ov);
        if spec_enrich(tv, ov, region@) is Ok {
            assert(out.deep_view() + spec_enrich(tv, ov, region@)->Ok_0 =~= spec_enrich(
                tv,
                ov,
                region@,
            )->Ok_0);
        }
    }
    while i < targets.len()
        invariant
            i <= tv.len(),
            fi <= ov.len(),
            spec_enrich(tv, ov, region@) == (match spec_enrich(
                tv.skip(i as int),
                ov.skip(fi as int),
                region@,
            ) {
                Ok(rest) => Ok::<Seq<FullScrapeView>, ScrapeError>(out.deep_view() + rest),
                Err(e) => Err(e),
            }),
            forall|j: int| 0 <= j < out.deep_view().len() ==> (#[trigger] out.deep_view()[j]).wf(),
        decreases tv.len() - i,
    {
        proof {
            assert(tv.skip(i as int)[0] == tv[i as int]);
            assert(tv.skip(i as int).drop_first() =~= tv.skip(i + 1));
        }
        let ghost pre_out = out.deep_view();
        match &targets[i] {
            ScrapeResult::Full(f) => {
                proof {
                    assert(tv[i as int].wf());
                }
                if region.contains(f.location) {
                    out.push(f.clone());
                    proof {
                        assert(out.deep_view() =~= pre_out + seq![f@]);
                        if spec_enrich(tv.skip(i + 1), ov.skip(fi as int), region@) is Ok {
                            assert((pre_out + seq![f@]) + spec_enrich(
                                tv.skip(i + 1),
                                ov.skip(fi as int),
                                region@,
                            )->Ok_0 =~= pre_out + (seq![f@] + spec_enrich(
                                tv.skip(i + 1),
                                ov.skip(fi as int),
                                region@,
                            )->Ok_0));
                        }
                    }
                }
            },
            ScrapeResult::Partial(p) => {
                if fi == outcomes.len() {
                    proof {
                        assert(ov.skip(fi as int).len() == 0);
                    }
                    return Err(ScrapeError::Fetch);
                }
                let o = outcomes[fi];
                proof {
                    assert(ov.skip(fi as int)[0] == ov[fi as int]);
                    assert(ov.skip(fi as int).drop_first() =~= ov.skip(fi + 1));
                    assert(outcome_wf(ov[fi as int]));
                }
                match o {
                    DetailOutcome::Failed(e) => {
                        return Err(e);
                    },
                    DetailOutcome::Fetched(g) => {
                        let full = FullScrapeResult { partial: p.clone(), location: g };
                        if region.contains(full.location) {
                            out.push(full);
                            proof {
                                assert(out.deep_view() =~= pre_out + seq![
                                    FullScrapeView { partial: p@, location: g },
                                ]);
                                if spec_enrich(tv.skip(i + 1), ov.skip(fi + 1), region@) is Ok {
                                    assert((pre_out + seq![
                                        FullScrapeView { partial: p@, location: g },
                                    ]) + spec_enrich(tv.skip(i + 1), ov.skip(fi + 1), region@)->Ok_0
                                        =~= pre_out + (seq![
                                        FullScrapeView { partial: p@, location: g },
                                    ] + spec_enrich(tv.skip(i + 1), ov.skip(fi + 1), region@)->Ok_0));
                                }
                            }
                        }
                        fi = fi + 1;
                    },
                }
            },
        }
        i = i + 1;
    }
    proof {
        assert(tv.skip(tv.len() as int) =~= Seq::<ScrapeView>::empty());
        assert(out.deep_view() + Seq::<FullScrapeView>::empty() =~= out.deep_view());
    }
    Ok(out)
}

/// Idempotent enrichment: a listing that is already full passes through
/// the enrichment stage unchanged and consumes no fetch outcome, whatever
/// outcomes are supplied — no detail fetch is ever spent on it.
pub proof fn lemma_enrich_full_consumes_nothing(
    f: FullScrapeView,
    rest: Seq<ScrapeView>,
    fet: Seq<DetailOutcome>,
    region: Seq<GeoPoint>,
)
    ensures
        spec_enrich(seq![ScrapeView::Full(f)] + rest, fet, region) == (match spec_enrich(
            rest,
            fet,
            region,
        ) {
            Err(e) => Err::<Seq<FullScrapeView>, ScrapeError>(e),
            Ok(tail) => Ok(
                if in_region(region, f.location) {
                    seq![f] + tail
                } else {
                    tail
                },
            ),
        }),
{
    assert((seq![ScrapeView::Full(f)] + rest).drop_first() =~= rest);
    assert((seq![ScrapeView::Full(f)] + rest)[0] == ScrapeView::Full(f));
}

/// Ghost value of a `Message`.
pub ghost enum MessageView {
    Text(Seq<u8>),
    Location(GeoPoint),
}

/// Ghost value of a `Notification`.
pub ghost struct NotificationView {
    pub chat_id: i64,
    pub message: MessageView,
}

/// One message of the notification fan-out: the listing's URL as text, or
/// its position.
#[derive(Debug)]
pub enum Message {
    Text(Vec<u8>),
    Location(GeoPoint),
}

impl View for Message {
    type V = MessageView;

    open spec fn view(&self) -> MessageView {
        match self {
            Message::Text(t) => MessageView::Text(t@),
            Message::Location(g) => MessageView::Location(*g),
        }
    }
}

impl DeepView for Message {
    type V = MessageView;

    open spec fn deep_view(&self) -> MessageView {
        self@
    }
}

/// One message addressed to one subscriber.
#[derive(Debug)]
pub struct Notification {
    pub chat_id: i64,
    pub message: Message,
}

impl View for Notification {
    type V = NotificationView;

    open spec fn view(&self) -> NotificationView {
        NotificationView { chat_id: self.chat_id, message: self.message@ }
    }
}

impl DeepView for Notification {
    type V = NotificationView;

    open spec fn deep_view(&self) -> NotificationView {
        self@
    }
}

/// The text sent for a new listing: a fixed prefix followed by its URL.
pub open spec fn text_prefix() -> Seq<u8> {
    seq![0x4eu8, 0x65, 0x77, 0x20, 0x70, 0x72, 0x6f, 0x70, 0x65, 0x72, 0x74, 0x79, 0x3a, 0x20]
}

/// The announcement text for one listing.
pub open spec fn notify_text(url: Seq<u8>) -> Seq<u8> {
    text_prefix() + url
}

/// The fan-out for one in-region listing: for every subscriber in order,
/// a text message naming the listing's URL, then a location message with
/// its coordinates.
pub open spec fn notify_batch(f: FullScrapeView, subs: Seq<i64>) -> Seq<NotificationView>
    decreases subs.len(),
{
    if subs.len() == 0 {
        seq![]
    } else {
        seq![
            NotificationView { chat_id: subs[0], message: MessageView::Text(notify_text(f.partial.url)) },
            NotificationView { chat_id: subs[0], message: MessageView::Location(f.location) },
        ] + notify_batch(f, subs.drop_first())
    }
}

/// The notifications owed for one enriched listing: none at all when its
/// coordinates lie outside the region (dropped silently), the full
/// fan-out otherwise.
pub open spec fn spec_notify_plan(
    f: FullScrapeView,
    region: Seq<GeoPoint>,
    subs: Seq<i64>,
) -> Seq<NotificationView> {
    if in_region(region, f.location) {
        notify_batch(f, subs)
    } else {
        seq![]
    }
}

/// Build the announcement text for a listing URL.
pub fn notification_text(url: &[u8]) -> (t: Vec<u8>)
    ensures
        t@ == notify_text(url@),
{
    let mut p: Vec<u8> = Vec::new();
    p.push(0x4e);
    p.push(0x65);
    p.push(0x77);
    p.push(0x20);
    p.push(0x70);
    p.push(0x72);
    p.push(0x6f);
    p.push(0x70);
    p.push(0x65);
    p.push(0x72);
    p.push(0x74);
    p.push(0x79);
    p.push(0x3a);
    p.push(0x20);
    proof {
        assert(p@ =~= text_prefix());
    }
    crate::bytes::concat_bytes(p.as_slice(), url)
}

/// Build the notification batch for one enriched listing: a listing
/// outside the region is never passed to the notifier, whatever the
/// filters said; one inside yields a text and a location message per
/// subscriber, in subscriber order.
#[verifier::loop_isolation(false)]
pub fn notify_plan(full: &FullScrapeResult, region: &Region, subscribers: &SubscriberSet) -> (ns:
    Vec<Notification>)
    requires
        region.wf(),
        full.location.wf(),
    ensures
        ns.deep_view() == spec_notify_plan(full@, region@, subscribers@),
        !in_region(region@, full.location) ==> ns@.len() == 0,
{
    let mut ns: Vec<Notification> = Vec::new();
    if !region.contains(full.location) {
        proof {
            assert(ns.deep_view() =~= spec_notify_plan(full@, region@, subscribers@));
        }
        return ns;
    }
    let ghost fv = full@;
    let ghost subs = subscribers@;
    let n = subscribers.len();
    let mut i: usize = 0;
    proof {
        assert(subs.skip(0) =~= subs);
        assert(ns.deep_view() + notify_batch(fv, subs) =~= notify_batch(fv, subs));
    }
    while i < n
        invariant
            i <= subs.len(),
            notify_batch(fv, subs) == ns.deep_view() + notify_batch(fv, subs.skip(i as int)),
        decreases subs.len() - i,
    {
        let sid = subscribers.subscriber_at(i);
        let ghost pre = ns.deep_view();
        ns.push(
            Notification {
                chat_id: sid,
                message: Message::Text(notification_text(full.partial.url.as_slice())),
            },
        );
        ns.push(Notification { chat_id: sid, message: Message::Location(full.location) });
        proof {
            assert(subs.skip(i as int)[0] == subs[i as int]);
            assert(subs.skip(i as int).drop_first() =~= subs.skip(i + 1));
            assert(ns.deep_view() =~= pre + seq![
                NotificationView {
                    chat_id: subs[i as int],
                    message: MessageView::Text(notify_text(fv.partial.url)),
                },
                NotificationView { chat_id: subs[i as int], message: MessageView::Location(fv.location) },
            ]);
            assert(pre + (seq![
                NotificationView {
                    chat_id: subs[i as int],
                    message: MessageView::Text(notify_text(fv.partial.url)),
                },
                NotificationView { chat_id: subs[i as int], message: MessageView::Location(fv.location) },
            ] + notify_batch(fv, subs.skip(i + 1))) =~= ns.deep_view() + notify_batch(
                fv,
                subs.skip(i + 1),
            ));
        }
        i = i + 1;
    }
    proof {
        assert(subs.skip(subs.len() as int) =~= Seq::<i64>::empty());
        assert(ns.deep_view() + Seq::<NotificationView>::empty() =~= ns.deep_view());
    }
    ns
}

/// Every listing the diff keeps comes from the input batch.
pub proof fn lemma_unseen_subset(s: Seq<ScrapeView>, seen: Set<Seq<u8>>)
    ensures
        forall|i: int|
            0 <= i < unseen_filter(s, seen).len() ==> s.contains(
                #[trigger] unseen_filter(s, seen)[i],
            ),
    decreases s.len(),
{
    if s.len() > 0 {
        lemma_unseen_subset(s.drop_first(), seen);
        let rest = unseen_filter(s.drop_first(), seen);
        let u = unseen_filter(s, seen);
        assert forall|i: int| 0 <= i < u.len() implies s.contains(u[i]) by {
            if !seen.contains(s[0].url()) && i == 0 {
                assert(u[i] == s[0]);
                assert(s.contains(s[0]));
            } else {
                let k = if seen.contains(s[0].url()) {
                    i
                } else {
                    i - 1
                };
                assert(u[i] == rest[k]);
                assert(s.drop_first().contains(rest[k]));
                let j = choose|j: int|
                    0 <= j < s.drop_first().len() && s.drop_first()[j] == rest[k];
                assert(s[j + 1] == rest[k]);
            }
        }
    }
}

/// Every listing the acceptance filter keeps comes from the input batch.
pub proof fn lemma_accept_subset(s: Seq<ScrapeView>, cfg: FilterConfig)
    ensures
        forall|i: int|
            0 <= i < accept_filter(s, cfg).len() ==> s.contains(#[trigger] accept_filter(s, cfg)[i]),
    decreases s.len(),
{
    if s.len() > 0 {
        lemma_accept_subset(s.drop_first(), cfg);
        let rest = accept_filter(s.drop_first(), cfg);
        let u = accept_filter(s, cfg);
        assert forall|i: int| 0 <= i < u.len() implies s.contains(u[i]) by {
            if accepts(cfg, s[0].partial()) && i == 0 {
                assert(u[i] == s[0]);
                assert(s.contains(s[0]));
            } else {
                let k = if accepts(cfg, s[0].partial()) {
                    i - 1
                } else {
                    i
                };
                assert(u[i] == rest[k]);
                assert(s.drop_first().contains(rest[k]));
                let j = choose|j: int|
                    0 <= j < s.drop_first().len() && s.drop_first()[j] == rest[k];
                assert(s[j + 1] == rest[k]);
            }
        }
    }
}

/// `url_set` distributes over concatenation.
pub proof fn lemma_url_set_concat(a: Seq<Seq<u8>>, b: Seq<Seq<u8>>)
    ensures
        url_set(a + b) == url_set(a) + url_set(b),
    decreases b.len(),
{
    if b.len() == 0 {
        assert(a + b =~= a);
        assert(url_set(a) + url_set(b) =~= url_set(a));
    } else {
        lemma_url_set_concat(a, b.drop_last());
        assert((a + b).drop_last() =~= a + b.drop_last());
        assert((a + b).last() == b.last());
        assert((url_set(a) + url_set(b.drop_last())).insert(b.last()) =~= url_set(a) + url_set(
            b.drop_last(),
        ).insert(b.last()));
    }
}

/// Every URL of a batch is in the batch's URL set.
pub proof fn lemma_url_set_covers(us: Seq<Seq<u8>>)
    ensures
        forall|i: int| 0 <= i < us.len() ==> url_set(us).contains(#[trigger] us[i]),
    decreases us.len(),
{
    if us.len() > 0 {
        lemma_url_set_covers(us.drop_last());
        assert(forall|i: int| 0 <= i < us.len() - 1 ==> us.drop_last()[i] == #[trigger] us[i]);
    }
}

/// After a cycle commits, every URL the adapter listed is in the seen
/// set: it either was there already or stood in the committed batch.
pub proof fn lemma_commit_covers(listings: Seq<ScrapeView>, seen: Set<Seq<u8>>)
    ensures
        forall|i: int|
            0 <= i < listings.len() ==> (seen + url_set(
                urls_seq(unseen_filter(listings, seen)),
            )).contains((#[trigger] listings[i]).url()),
    decreases listings.len(),
{
    if listings.len() > 0 {
        let rest = listings.drop_first();
        lemma_commit_covers(rest, seen);
        let u = unseen_filter(listings, seen);
        let ur = unseen_filter(rest, seen);
        if seen.contains(listings[0].url()) {
            assert(u == ur);
            assert(forall|i: int| 1 <= i < listings.len() ==> rest[i - 1] == #[trigger] listings[i]);
        } else {
            assert(u == seq![listings[0]] + ur);
            assert(urls_seq(u) =~= seq![listings[0].url()] + urls_seq(ur));
            lemma_url_set_concat(seq![listings[0].url()], urls_seq(ur));
            assert(url_set(seq![listings[0].url()]).contains(listings[0].url())) by {
                assert(seq![listings[0].url()].drop_last() =~= Seq::<Seq<u8>>::empty());
            }
            assert(forall|i: int| 1 <= i < listings.len() ==> rest[i - 1] == #[trigger] listings[i]);
        }
    }
}

/// A cycle against a page whose every URL is already seen finds nothing:
/// the diff is empty, so nothing is filtered, enriched or notified, and
/// the commit leaves the seen set unchanged.
pub proof fn lemma_cycle_stable(listings: Seq<ScrapeView>, seen: Set<Seq<u8>>, cfg: FilterConfig)
    requires
        forall|i: int| 0 <= i < listings.len() ==> seen.contains((#[trigger] listings[i]).url()),
    ensures
        unseen_filter(listings, seen) == Seq::<ScrapeView>::empty(),
        accept_filter(unseen_filter(listings, seen), cfg) == Seq::<ScrapeView>::empty(),
        seen + url_set(urls_seq(unseen_filter(listings, seen))) == seen,
    decreases listings.len(),
{
    if listings.len() == 0 {
        assert(unseen_filter(listings, seen) =~= Seq::<ScrapeView>::empty());
    } else {
        assert(forall|i: int|
            1 <= i < listings.len() ==> listings.drop_first()[i - 1] == #[trigger] listings[i]);
        lemma_cycle_stable(listings.drop_first(), seen, cfg);
    }
    assert(urls_seq(unseen_filter(listings, seen)) =~= Seq::<Seq<u8>>::empty());
    assert(seen + url_set(urls_seq(unseen_filter(listings, seen))) =~= seen);
}

/// Dedup monotonicity: after one cycle against a static page commits, the
/// seen set covers the page; every later cycle against the same page
/// finds no new listing, sends no notification, and leaves the seen set
/// exactly as it was. The seen set therefore stabilizes after the first
/// cycle and no URL is ever reported twice.
pub proof fn lemma_dedup_monotone(listings: Seq<ScrapeView>, seen0: Set<Seq<u8>>, cfg: FilterConfig)
    ensures
        ({
            let seen1 = seen0 + url_set(urls_seq(unseen_filter(listings, seen0)));
            &&& unseen_filter(listings, seen1) == Seq::<ScrapeView>::empty()
            &&& accept_filter(unseen_filter(listings, seen1), cfg) == Seq::<ScrapeView>::empty()
            &&& seen1 + url_set(urls_seq(unseen_filter(listings, seen1))) == seen1
        }),
{
    let seen1 = seen0 + url_set(urls_seq(unseen_filter(listings, seen0)));
    lemma_commit_covers(listings, seen0);
    lemma_cycle_stable(listings, seen1, cfg);
}

} // verus!
