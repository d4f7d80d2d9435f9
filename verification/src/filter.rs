//! Per-subscription visibility rules: scope, self-tuning freshness window,
//! and static-advertisement suppression.

use vstd::prelude::*;
use vstd::string::StringExecFns;
use crate::listing::{ListingView, PFListing};
use crate::timeparse::{parse_time_remaining, parse_time_remaining_spec};

verus! {

/// A persisted configuration binding a displayed posting to a
/// (data-center, duty) filter.
#[derive(Debug)]
pub struct Subscription {
    pub message_id: u64,
    pub channel_id: u64,
    pub guild_id: u64,
    pub data_center: String,
    pub duty_name: String,
    pub allow_statics: bool,
}

/// The mathematical value of a [`Subscription`].
#[verifier::ext_equal]
pub struct SubscriptionView {
    pub message_id: u64,
    pub channel_id: u64,
    pub guild_id: u64,
    pub data_center: Seq<char>,
    pub duty_name: Seq<char>,
    pub allow_statics: bool,
}

impl View for Subscription {
    type V = SubscriptionView;

    open spec fn view(&self) -> SubscriptionView {
        SubscriptionView {
            message_id: self.message_id,
            channel_id: self.channel_id,
            guild_id: self.guild_id,
            data_center: self.data_center@,
            duty_name: self.duty_name@,
            allow_statics: self.allow_statics,
        }
    }
}

impl DeepView for Subscription {
    type V = SubscriptionView;

    open spec fn deep_view(&self) -> SubscriptionView {
        self@
    }
}

impl Clone for Subscription {
    /// A cloned subscription has the same value.
    fn clone(&self) -> (r: Self)
        ensures
            r@ == self@,
    {
        let r = Subscription {
            message_id: self.message_id,
            channel_id: self.channel_id,
            guild_id: self.guild_id,
            data_center: self.data_center.clone(),
            duty_name: self.duty_name.clone(),
            allow_statics: self.allow_statics,
        };
        proof {
            assert(r@ =~= self@);
        }
        r
    }
}

/// The options the filter engine consumes.
#[derive(Debug)]
pub struct FilterConfig {
    /// The freshness window never narrows below this many minutes.
    pub min_minutes: i32,
    /// Listings with fewer slots are classified as static advertisements.
    pub min_slots: usize,
    /// Listings whose description matches this pattern are classified as
    /// static advertisements.
    pub static_pattern: String,
}

/// The mathematical value of a [`FilterConfig`].
#[verifier::ext_equal]
pub struct FilterConfigView {
    pub min_minutes: int,
    pub min_slots: nat,
    pub static_pattern: Seq<char>,
}

impl View for FilterConfig {
    type V = FilterConfigView;

    open spec fn view(&self) -> FilterConfigView {
        FilterConfigView {
            min_minutes: self.min_minutes as int,
            min_slots: self.min_slots as nat,
            static_pattern: self.static_pattern@,
        }
    }
}

/// The configuration used when no option is set: a three-minute lower bound,
/// five slots, and a pattern recognizing a short handle followed by a
/// four-digit discriminator.
pub open spec fn default_filter_config() -> FilterConfigView {
    FilterConfigView { min_minutes: 3, min_slots: 5, static_pattern: ".{3,32}#[0-9]{4}"@ }
}

impl Default for FilterConfig {
    /// The default options.
    fn default() -> (c: Self)
        ensures
            c@ == default_filter_config(),
    {
        let c = FilterConfig {
            min_minutes: 3,
            min_slots: 5,
            static_pattern: String::from_str(".{3,32}#[0-9]{4}"),
        };
        proof {
            assert(c@ =~= default_filter_config());
        }
        c
    }
}

/// Whether a text matches a regular-expression pattern.  A pattern that does
/// not compile matches nothing.
pub uninterp spec fn pattern_matches(pattern: Seq<char>, text: Seq<char>) -> bool;

/// Relies on `regex::Regex::new` and `regex::Regex::is_match`: whether a text
/// matches a pattern is a function of the two strings alone, and a pattern
/// that does not compile is treated as matching nothing.
#[verifier::external_body]
fn regex_is_match(pattern: &str, text: &str) -> (r: bool)
    ensures
        r == pattern_matches(pattern@, text@),
{
    match regex::Regex::new(pattern) {
        Ok(re) => re.is_match(text),
        Err(_) => false,
    }
}

/// A listing is a static advertisement when its description matches the
/// configured pattern or it has fewer than the configured number of slots.
pub open spec fn is_static_ad_spec(l: ListingView, pattern: Seq<char>, min_slots: nat) -> bool {
    pattern_matches(pattern, l.description) || l.slots.len() < min_slots
}

/// Classifies a listing as a static advertisement or an active group.
pub fn is_static_ad(l: &PFListing, cfg: &FilterConfig) -> (r: bool)
    ensures
        r == is_static_ad_spec(l@, cfg@.static_pattern, cfg@.min_slots),
{
    let by_description = regex_is_match(cfg.static_pattern.as_str(), l.description.as_str());
    by_description || l.slots.len() < cfg.min_slots
}

/// A listing is in a subscription's scope when data-center and duty both
/// match.
pub open spec fn scope_matches(l: ListingView, dc: Seq<char>, duty: Seq<char>) -> bool {
    l.data_center == dc && l.title == duty
}

/// Some listing of the snapshot is in scope.
pub open spec fn has_scope_match(s: Seq<ListingView>, dc: Seq<char>, duty: Seq<char>) -> bool {
    exists|i: int| 0 <= i < s.len() && scope_matches(#[trigger] s[i], dc, duty)
}

/// The minimum elapsed-minutes value over the in-scope listings, or the
/// default of five where none is in scope.
pub open spec fn min_scope_elapsed(s: Seq<ListingView>, dc: Seq<char>, duty: Seq<char>) -> int
    decreases s.len(),
{
    if s.len() == 0 {
        5
    } else if scope_matches(s.last(), dc, duty) {
        let v = parse_time_remaining_spec(s.last().last_updated);
        if has_scope_match(s.drop_last(), dc, duty) {
            let r = min_scope_elapsed(s.drop_last(), dc, duty);
            if v < r {
                v
            } else {
                r
            }
        } else {
            v
        }
    } else {
        min_scope_elapsed(s.drop_last(), dc, duty)
    }
}

/// The self-tuning freshness threshold: the smallest elapsed time among
/// in-scope listings (five where none), never below the configured lower
/// bound, clipped to fifteen minutes.
pub open spec fn threshold_spec(
    s: Seq<ListingView>,
    dc: Seq<char>,
    duty: Seq<char>,
    lower: int,
) -> int {
    let m = min_scope_elapsed(s, dc, duty);
    let lo = if m > lower {
        m
    } else {
        lower
    };
    if lo < 15 {
        lo
    } else {
        15
    }
}

/// The freshness threshold always lies within the configured lower bound and
/// fifteen minutes, and it never falls below the minimum elapsed time among
/// in-scope listings when that minimum exceeds the lower bound (clipped to
/// fifteen).
pub proof fn lemma_threshold_bounds(s: Seq<ListingView>, dc: Seq<char>, duty: Seq<char>, lower: int)
    requires
        0 <= lower <= 15,
    ensures
        lower <= threshold_spec(s, dc, duty, lower) <= 15,
        min_scope_elapsed(s, dc, duty) > lower ==> threshold_spec(s, dc, duty, lower) == (
        if min_scope_elapsed(s, dc, duty) < 15 {
            min_scope_elapsed(s, dc, duty)
        } else {
            15
        }),
{
}

/// Where no listing is in scope, the minimum elapsed value is the default.
proof fn lemma_min_scope_no_match(s: Seq<ListingView>, dc: Seq<char>, duty: Seq<char>)
    requires
        !has_scope_match(s, dc, duty),
    ensures
        min_scope_elapsed(s, dc, duty) == 5,
    decreases s.len(),
{
    if s.len() > 0 {
        assert(!scope_matches(s.last(), dc, duty)) by {
            if scope_matches(s.last(), dc, duty) {
                assert(scope_matches(s[s.len() - 1], dc, duty));
            }
        }
        assert(!has_scope_match(s.drop_last(), dc, duty)) by {
            if has_scope_match(s.drop_last(), dc, duty) {
                let w = choose|w: int|
                    0 <= w < s.drop_last().len() && scope_matches(
                        #[trigger] s.drop_last()[w],
                        dc,
                        duty,
                    );
                assert(scope_matches(s[w], dc, duty));
            }
        }
        lemma_min_scope_no_match(s.drop_last(), dc, duty);
    }
}

/// Extending the snapshot prefix by one listing extends the in-scope test by
/// exactly that listing.
proof fn lemma_scope_match_take_step(s: Seq<ListingView>, dc: Seq<char>, duty: Seq<char>, i: int)
    requires
        0 < i <= s.len(),
    ensures
        has_scope_match(s.take(i), dc, duty) == (has_scope_match(s.take(i - 1), dc, duty)
            || scope_matches(s[i - 1], dc, duty)),
{
    let pre = s.take(i - 1);
    let cur = s.take(i);
    if has_scope_match(cur, dc, duty) {
        let w = choose|w: int| 0 <= w < cur.len() && scope_matches(#[trigger] cur[w], dc, duty);
        if w < i - 1 {
            assert(pre[w] == cur[w]);
            assert(has_scope_match(pre, dc, duty));
        } else {
            assert(cur[w] == s[i - 1]);
        }
    }
    if has_scope_match(pre, dc, duty) {
        let w = choose|w: int| 0 <= w < pre.len() && scope_matches(#[trigger] pre[w], dc, duty);
        assert(cur[w] == pre[w]);
        assert(has_scope_match(cur, dc, duty));
    }
    if scope_matches(s[i - 1], dc, duty) {
        assert(cur[i - 1] == s[i - 1]);
        assert(has_scope_match(cur, dc, duty));
    }
}

/// Computes the freshness threshold a subscription applies to the snapshot.
pub fn compute_threshold(sub: &Subscription, cfg: &FilterConfig, listings: &Vec<PFListing>) -> (t:
    i32)
    ensures
        t as int == threshold_spec(
            listings.deep_view(),
            sub@.data_center,
            sub@.duty_name,
            cfg@.min_minutes,
        ),
{
    let ghost lv = listings.deep_view();
    let ghost dc = sub@.data_center;
    let ghost duty = sub@.duty_name;
    let n = listings.len();
    let mut have: bool = false;
    let mut mval: i32 = 0;
    let mut i: usize = 0;
    while i < n
        invariant
            lv == listings.deep_view(),
            n == lv.len(),
            dc == sub@.data_center,
            duty == sub@.duty_name,
            i <= n,
            have == has_scope_match(lv.take(i as int), dc, duty),
            have ==> mval as int == min_scope_elapsed(lv.take(i as int), dc, duty),
        decreases n - i,
    {
        let ghost pre = lv.take(i as int);
        let in_scope = listings[i].data_center == sub.data_center && listings[i].title
            == sub.duty_name;
        proof {
            assert(lv[i as int] == listings@[i as int]@);
            assert(in_scope == scope_matches(lv[i as int], dc, duty));
            lemma_scope_match_take_step(lv, dc, duty, i as int + 1);
            let cur = lv.take(i as int + 1);
            assert(cur.drop_last() =~= pre);
            assert(cur.last() == lv[i as int]);
        }
        if in_scope {
            let e = parse_time_remaining(listings[i].last_updated.as_str());
            if !have || e < mval {
                mval = e;
            }
            have = true;
        }
        i = i + 1;
    }
    proof {
        assert(lv.take(n as int) =~= lv);
        if !have {
            lemma_min_scope_no_match(lv, dc, duty);
        }
    }
    let filtermax: i32 = if have {
        mval
    } else {
        5
    };
    let lo: i32 = if filtermax > cfg.min_minutes {
        filtermax
    } else {
        cfg.min_minutes
    };
    if lo < 15 {
        lo
    } else {
        15
    }
}

/// Whether the filter keeps a listing for a subscription, at a given
/// freshness threshold.
pub open spec fn keep_listing(
    l: ListingView,
    sub: SubscriptionView,
    cfg: FilterConfigView,
    threshold: int,
) -> bool {
    &&& scope_matches(l, sub.data_center, sub.duty_name)
    &&& parse_time_remaining_spec(l.last_updated) <= threshold
    &&& (sub.allow_statics || !is_static_ad_spec(l, cfg.static_pattern, cfg.min_slots))
}

/// The ordered subset of the snapshot a subscription displays: in scope,
/// within the self-tuning freshness window, and — unless the subscription
/// allows statics — not a static advertisement, in snapshot order.
pub open spec fn filter_spec(
    s: Seq<ListingView>,
    sub: SubscriptionView,
    cfg: FilterConfigView,
) -> Seq<ListingView> {
    s.filter(
        |l: ListingView|
            keep_listing(
                l,
                sub,
                cfg,
                threshold_spec(s, sub.data_center, sub.duty_name, cfg.min_minutes),
            ),
    )
}

/// Applies a subscription's visibility rules to the current snapshot.
pub fn filter_listings(sub: &Subscription, cfg: &FilterConfig, listings: &Vec<PFListing>) -> (out:
    Vec<PFListing>)
    ensures
        out.deep_view() == filter_spec(listings.deep_view(), sub@, cfg@),
{
    let ghost lv = listings.deep_view();
    let ghost pred = |l: ListingView|
        keep_listing(
            l,
            sub@,
            cfg@,
            threshold_spec(lv, sub@.data_center, sub@.duty_name, cfg@.min_minutes),
        );
    let threshold = compute_threshold(sub, cfg, listings);
    let n = listings.len();
    let mut out: Vec<PFListing> = Vec::new();
    let mut i: usize = 0;
    while i < n
        invariant
            lv == listings.deep_view(),
            n == lv.len(),
            threshold as int == threshold_spec(
                lv,
                sub@.data_center,
                sub@.duty_name,
                cfg@.min_minutes,
            ),
            pred == (|l: ListingView|
                keep_listing(
                    l,
                    sub@,
                    cfg@,
                    threshold_spec(lv, sub@.data_center, sub@.duty_name, cfg@.min_minutes),
                )),
            i <= n,
            out.deep_view() == lv.take(i as int).filter(pred),
        decreases n - i,
    {
        let ghost pre = lv.take(i as int);
        let ghost old_out = out@;
        let in_scope = listings[i].data_center == sub.data_center && listings[i].title
            == sub.duty_name;
        let fresh = parse_time_remaining(listings[i].last_updated.as_str()) <= threshold;
        let keep = in_scope && fresh && (sub.allow_statics || !is_static_ad(&listings[i], cfg));
        proof {
            assert(lv[i as int] == listings@[i as int]@);
            assert(keep == pred(lv[i as int]));
        }
        if keep {
            let l = listings[i].clone();
            proof {
                assert(l@ == lv[i as int]);
            }
            out.push(l);
        }
        i = i + 1;
        proof {
            let cur = lv.take(i as int);
            assert(cur.drop_last() =~= pre);
            assert(cur.last() == lv[i - 1]);
            reveal(Seq::filter);
            if keep {
                assert(out@ == old_out.push(out@[out@.len() - 1]));
                assert(out.deep_view() =~= cur.filter(pred));
            } else {
                assert(out.deep_view() =~= cur.filter(pred));
            }
        }
    }
    proof {
        assert(lv.take(n as int) =~= lv);
    }
    out
}

} // verus!
