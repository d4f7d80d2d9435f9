//! The per-tick reconciliation decisions: what each subscription's posting
//! should become, and how the subscription store evolves.  The surrounding
//! loop performs the external work — resolving, updating and deleting
//! postings — and hands the outcomes back as plain values.

use vstd::prelude::*;
use crate::filter::{filter_listings, filter_spec, FilterConfig, FilterConfigView, Subscription, SubscriptionView};
use crate::listing::{ListingView, PFListing};
use crate::render::{embed_spec, get_embed, Embed, EmbedView};

verus! {

/// The outcome of resolving a subscription's posting by its stored
/// identifiers.
#[derive(Debug, Clone, Copy, PartialEq, Eq, Structural)]
pub enum Resolution {
    /// The posting exists and can be updated.
    Found,
    /// The posting is missing or deleted; a missing target is not retried.
    NotFound,
}

/// What one tick does for one subscription.
#[derive(Debug)]
pub enum SyncAction {
    /// Delete the subscription record; no update is attempted.
    Tombstone,
    /// Request an update of the posting to this payload.  A failed update is
    /// logged and the subscription is retained.
    UpdatePosting(Embed),
}

/// The mathematical value of a [`SyncAction`].
pub enum SyncActionView {
    Tombstone,
    UpdatePosting(EmbedView),
}

impl View for SyncAction {
    type V = SyncActionView;

    open spec fn view(&self) -> SyncActionView {
        match self {
            SyncAction::Tombstone => SyncActionView::Tombstone,
            SyncAction::UpdatePosting(e) => SyncActionView::UpdatePosting(e@),
        }
    }
}

impl DeepView for SyncAction {
    type V = SyncActionView;

    open spec fn deep_view(&self) -> SyncActionView {
        self@
    }
}

/// The action a tick plans for one subscription: a missing posting is
/// tombstoned; a resolved one is updated to the rendered view of the filtered
/// snapshot.
pub open spec fn plan_spec(
    sub: SubscriptionView,
    cfg: FilterConfigView,
    max: nat,
    snapshot: Seq<ListingView>,
    res: Resolution,
) -> SyncActionView {
    match res {
        Resolution::NotFound => SyncActionView::Tombstone,
        Resolution::Found => SyncActionView::UpdatePosting(
            embed_spec(sub.data_center, sub.duty_name, filter_spec(snapshot, sub, cfg), max),
        ),
    }
}

/// Decides what one tick does for one subscription, given how its posting
/// resolved.
pub fn plan_subscription_sync(
    sub: &Subscription,
    cfg: &FilterConfig,
    max_listings: usize,
    snapshot: &Vec<PFListing>,
    resolution: Resolution,
) -> (a: SyncAction)
    ensures
        a@ == plan_spec(sub@, cfg@, max_listings as nat, snapshot.deep_view(), resolution),
{
    match resolution {
        Resolution::NotFound => SyncAction::Tombstone,
        Resolution::Found => {
            let filtered = filter_listings(sub, cfg, snapshot);
            let e = get_embed(
                sub.data_center.as_str(),
                sub.duty_name.as_str(),
                &filtered,
                max_listings,
            );
            SyncAction::UpdatePosting(e)
        },
    }
}

/// Plans one whole tick: every subscription sequentially, each action a
/// function of that subscription, its own resolution, and the shared
/// snapshot alone.
pub fn plan_tick(
    subs: &Vec<Subscription>,
    resolutions: &Vec<Resolution>,
    cfg: &FilterConfig,
    max_listings: usize,
    snapshot: &Vec<PFListing>,
) -> (actions: Vec<SyncAction>)
    requires
        resolutions@.len() == subs@.len(),
    ensures
        actions.deep_view().len() == subs@.len(),
        forall|j: int|
            0 <= j < subs@.len() ==> (#[trigger] actions.deep_view()[j]) == plan_spec(
                subs.deep_view()[j],
                cfg@,
                max_listings as nat,
                snapshot.deep_view(),
                resolutions@[j],
            ),
{
    let mut actions: Vec<SyncAction> = Vec::new();
    let mut i: usize = 0;
    while i < subs.len()
        invariant
            resolutions@.len() == subs@.len(),
            i <= subs@.len(),
            actions.deep_view().len() == i,
            forall|j: int|
                0 <= j < i ==> (#[trigger] actions.deep_view()[j]) == plan_spec(
                    subs.deep_view()[j],
                    cfg@,
                    max_listings as nat,
                    snapshot.deep_view(),
                    resolutions@[j],
                ),
        decreases subs@.len() - i,
    {
        let ghost old_actions = actions@;
        let ghost old_dv = actions.deep_view();
        let a = plan_subscription_sync(&subs[i], cfg, max_listings, snapshot, resolutions[i]);
        actions.push(a);
        i = i + 1;
        proof {
            assert(subs.deep_view()[i - 1] == subs@[i - 1]@);
            assert forall|j: int| 0 <= j < i implies (#[trigger] actions.deep_view()[j])
                == plan_spec(
                subs.deep_view()[j],
                cfg@,
                max_listings as nat,
                snapshot.deep_view(),
                resolutions@[j],
            ) by {
                if j < i - 1 {
                    assert(actions@[j] == old_actions[j]);
                    assert(actions.deep_view()[j] == actions@[j]@);
                    assert(old_dv[j] == old_actions[j]@);
                } else {
                    assert(actions@[j] == a);
                    assert(actions.deep_view()[j] == a@);
                }
            }
        }
    }
    actions
}

/// Some subscription of the tick tombstones this message id.
pub open spec fn tombstoned(
    subs: Seq<SubscriptionView>,
    actions: Seq<SyncActionView>,
    mid: u64,
) -> bool {
    exists|j: int|
        0 <= j < subs.len() && (#[trigger] subs[j]).message_id == mid && actions[j]
            == SyncActionView::Tombstone
}

/// Whether the tick tombstones this message id.
fn is_tombstoned(subs: &Vec<Subscription>, actions: &Vec<SyncAction>, mid: u64) -> (r: bool)
    requires
        actions@.len() == subs@.len(),
    ensures
        r == tombstoned(subs.deep_view(), actions.deep_view(), mid),
{
    let ghost sv = subs.deep_view();
    let ghost av = actions.deep_view();
    let mut j: usize = 0;
    while j < subs.len()
        invariant
            sv == subs.deep_view(),
            av == actions.deep_view(),
            av.len() == sv.len(),
            sv.len() == subs@.len(),
            j <= sv.len(),
            forall|m: int|
                0 <= m < j ==> !((#[trigger] sv[m]).message_id == mid && av[m]
                    == SyncActionView::Tombstone),
        decreases sv.len() - j,
    {
        let hit = match &actions[j] {
            SyncAction::Tombstone => subs[j].message_id == mid,
            _ => false,
        };
        proof {
            assert(sv[j as int] == subs@[j as int]@);
            assert(av[j as int] == actions@[j as int]@);
            assert(hit == (sv[j as int].message_id == mid && av[j as int]
                == SyncActionView::Tombstone));
        }
        if hit {
            return true;
        }
        j = j + 1;
    }
    proof {
        assert(!tombstoned(sv, av, mid)) by {
            if tombstoned(sv, av, mid) {
                let w = choose|w: int|
                    0 <= w < sv.len() && (#[trigger] sv[w]).message_id == mid && av[w]
                        == SyncActionView::Tombstone;
            }
        }
    }
    false
}

/// Applies one tick's planned actions to the subscription store: rows whose
/// message id a tombstone names are removed; every other row — including
/// those whose content update failed — is retained, in order.
pub fn apply_tick_to_store(
    store: &Vec<Subscription>,
    subs: &Vec<Subscription>,
    actions: &Vec<SyncAction>,
) -> (out: Vec<Subscription>)
    requires
        actions@.len() == subs@.len(),
    ensures
        out.deep_view() == store.deep_view().filter(
            |s: SubscriptionView| !tombstoned(subs.deep_view(), actions.deep_view(), s.message_id),
        ),
{
    let ghost sv = store.deep_view();
    let ghost pred = |s: SubscriptionView|
        !tombstoned(subs.deep_view(), actions.deep_view(), s.message_id);
    let mut out: Vec<Subscription> = Vec::new();
    let mut i: usize = 0;
    while i < store.len()
        invariant
            sv == store.deep_view(),
            actions@.len() == subs@.len(),
            pred == (|s: SubscriptionView|
                !tombstoned(subs.deep_view(), actions.deep_view(), s.message_id)),
            i <= sv.len(),
            sv.len() == store@.len(),
            out.deep_view() == sv.take(i as int).filter(pred),
        decreases sv.len() - i,
    {
        let ghost pre = sv.take(i as int);
        let ghost old_out = out@;
        let gone = is_tombstoned(subs, actions, store[i].message_id);
        proof {
            assert(sv[i as int] == store@[i as int]@);
            assert(!gone == pred(sv[i as int]));
        }
        if !gone {
            let s = store[i].clone();
            proof {
                assert(s@ == sv[i as int]);
            }
            out.push(s);
        }
        i = i + 1;
        proof {
            let cur = sv.take(i as int);
            assert(cur.drop_last() =~= pre);
            assert(cur.last() == sv[i - 1]);
            reveal(Seq::filter);
            assert(out.deep_view() =~= cur.filter(pred));
        }
    }
    proof {
        assert(sv.take(sv.len() as int) =~= sv);
    }
    out
}

/// Tombstoning: a subscription whose posting resolution is NotFound is
/// planned for removal — no update of its posting is attempted — and after
/// the tick's store update no row with its message id remains.
pub proof fn lemma_tick_tombstones(
    subs: Seq<SubscriptionView>,
    resolutions: Seq<Resolution>,
    actions: Seq<SyncActionView>,
    cfg: FilterConfigView,
    max: nat,
    snapshot: Seq<ListingView>,
    store: Seq<SubscriptionView>,
    store_after: Seq<SubscriptionView>,
    i: int,
)
    requires
        resolutions.len() == subs.len(),
        actions.len() == subs.len(),
        forall|j: int|
            0 <= j < subs.len() ==> (#[trigger] actions[j]) == plan_spec(
                subs[j],
                cfg,
                max,
                snapshot,
                resolutions[j],
            ),
        store_after == store.filter(
            |s: SubscriptionView| !tombstoned(subs, actions, s.message_id),
        ),
        0 <= i < subs.len(),
        resolutions[i] == Resolution::NotFound,
    ensures
        actions[i] == SyncActionView::Tombstone,
        forall|p: int|
            0 <= p < store_after.len() ==> (#[trigger] store_after[p]).message_id
                != subs[i].message_id,
{
    let pred = |s: SubscriptionView| !tombstoned(subs, actions, s.message_id);
    assert forall|p: int| 0 <= p < store_after.len() implies (#[trigger] store_after[p]).message_id
        != subs[i].message_id by {
        store.lemma_filter_pred(pred, p);
        if store_after[p].message_id == subs[i].message_id {
            assert(subs[i].message_id == store_after[p].message_id && actions[i]
                == SyncActionView::Tombstone);
            assert(tombstoned(subs, actions, store_after[p].message_id));
        }
    }
}

/// Retention: a stored subscription that no subscription of the tick
/// tombstones survives the store update — in particular one whose posting
/// resolved but whose content update failed.
pub proof fn lemma_untombstoned_retained(
    subs: Seq<SubscriptionView>,
    resolutions: Seq<Resolution>,
    actions: Seq<SyncActionView>,
    cfg: FilterConfigView,
    max: nat,
    snapshot: Seq<ListingView>,
    store: Seq<SubscriptionView>,
    store_after: Seq<SubscriptionView>,
    p: int,
)
    requires
        resolutions.len() == subs.len(),
        actions.len() == subs.len(),
        forall|j: int|
            0 <= j < subs.len() ==> (#[trigger] actions[j]) == plan_spec(
                subs[j],
                cfg,
                max,
                snapshot,
                resolutions[j],
            ),
        store_after == store.filter(
            |s: SubscriptionView| !tombstoned(subs, actions, s.message_id),
        ),
        0 <= p < store.len(),
        forall|j: int|
            0 <= j < subs.len() && (#[trigger] subs[j]).message_id == store[p].message_id
                ==> resolutions[j] == Resolution::Found,
    ensures
        store_after.contains(store[p]),
{
    let pred = |s: SubscriptionView| !tombstoned(subs, actions, s.message_id);
    assert(pred(store[p])) by {
        if tombstoned(subs, actions, store[p].message_id) {
            let w = choose|w: int|
                0 <= w < subs.len() && (#[trigger] subs[w]).message_id == store[p].message_id
                    && actions[w] == SyncActionView::Tombstone;
            assert(actions[w] == plan_spec(subs[w], cfg, max, snapshot, resolutions[w]));
        }
    }
    store.lemma_filter_contains(pred, p);
}

/// Isolation: the action one tick plans for a subscription is a function of
/// that subscription, its own resolution, and the shared snapshot alone — no
/// other subscription's presence, order, or failure can change it.
pub proof fn lemma_tick_isolation(
    subs_a: Seq<SubscriptionView>,
    res_a: Seq<Resolution>,
    actions_a: Seq<SyncActionView>,
    subs_b: Seq<SubscriptionView>,
    res_b: Seq<Resolution>,
    actions_b: Seq<SyncActionView>,
    cfg: FilterConfigView,
    max: nat,
    snapshot: Seq<ListingView>,
    ja: int,
    jb: int,
)
    requires
        res_a.len() == subs_a.len(),
        actions_a.len() == subs_a.len(),
        res_b.len() == subs_b.len(),
        actions_b.len() == subs_b.len(),
        forall|j: int|
            0 <= j < subs_a.len() ==> (#[trigger] actions_a[j]) == plan_spec(
                subs_a[j],
                cfg,
                max,
                snapshot,
                res_a[j],
            ),
        forall|j: int|
            0 <= j < subs_b.len() ==> (#[trigger] actions_b[j]) == plan_spec(
                subs_b[j],
                cfg,
                max,
                snapshot,
                res_b[j],
            ),
        0 <= ja < subs_a.len(),
        0 <= jb < subs_b.len(),
        subs_a[ja] == subs_b[jb],
        res_a[ja] == res_b[jb],
    ensures
        actions_a[ja] == actions_b[jb],
{
}

} // verus!
