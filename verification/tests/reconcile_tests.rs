use xivpf::filter::{FilterConfig, Subscription};
use xivpf::listing::PFListing;
use xivpf::reconcile::{apply_tick_to_store, plan_subscription_sync, plan_tick, Resolution, SyncAction};

fn subscription(message_id: u64, duty: &str) -> Subscription {
    Subscription {
        message_id,
        channel_id: 10,
        guild_id: 20,
        data_center: "Crystal".to_string(),
        duty_name: duty.to_string(),
        allow_statics: true,
    }
}

fn snapshot() -> Vec<PFListing> {
    Vec::new()
}

#[test]
fn missing_posting_is_tombstoned_and_gets_no_update() {
    let subs = vec![
        subscription(1, "The Epic of Alexander (Ultimate)"),
        subscription(2, "Dragonsong's Reprise (Ultimate)"),
    ];
    let resolutions = vec![Resolution::NotFound, Resolution::Found];
    let cfg = FilterConfig::default();
    let actions = plan_tick(&subs, &resolutions, &cfg, 6, &snapshot());
    assert_eq!(actions.len(), 2);
    assert!(matches!(actions[0], SyncAction::Tombstone));
    assert!(matches!(actions[1], SyncAction::UpdatePosting(_)));

    // After the tick the store no longer holds the tombstoned row.
    let store = vec![
        subscription(1, "The Epic of Alexander (Ultimate)"),
        subscription(2, "Dragonsong's Reprise (Ultimate)"),
    ];
    let after = apply_tick_to_store(&store, &subs, &actions);
    assert_eq!(after.len(), 1);
    assert_eq!(after[0].message_id, 2);
}

#[test]
fn one_subscription_failure_does_not_affect_another() {
    // Subscription A's posting went missing; B, processed after A, still gets
    // its update planned, identical to what it gets when A is healthy.
    let a = subscription(1, "The Epic of Alexander (Ultimate)");
    let b = subscription(2, "Dragonsong's Reprise (Ultimate)");
    let cfg = FilterConfig::default();

    let subs = vec![a.clone(), b.clone()];
    let with_a_failing = plan_tick(
        &subs,
        &vec![Resolution::NotFound, Resolution::Found],
        &cfg,
        6,
        &snapshot(),
    );
    let with_a_healthy = plan_tick(
        &subs,
        &vec![Resolution::Found, Resolution::Found],
        &cfg,
        6,
        &snapshot(),
    );
    let embed_failing = match &with_a_failing[1] {
        SyncAction::UpdatePosting(e) => e,
        SyncAction::Tombstone => panic!("subscription B must be updated"),
    };
    let embed_healthy = match &with_a_healthy[1] {
        SyncAction::UpdatePosting(e) => e,
        SyncAction::Tombstone => panic!("subscription B must be updated"),
    };
    assert_eq!(embed_failing.title, embed_healthy.title);
    assert_eq!(embed_failing.color, embed_healthy.color);
    assert_eq!(embed_failing.fields.len(), embed_healthy.fields.len());
    assert_eq!(embed_failing.title, "Dragonsong's Reprise (Ultimate) - Crystal");
}

#[test]
fn update_failure_retains_the_subscription() {
    // An update failure is a messaging-layer outcome; the planned actions and
    // the store update never remove a resolved subscription.
    let subs = vec![subscription(1, "Some Duty"), subscription(2, "Some Duty")];
    let resolutions = vec![Resolution::Found, Resolution::Found];
    let cfg = FilterConfig::default();
    let actions = plan_tick(&subs, &resolutions, &cfg, 6, &snapshot());
    let store = vec![subscription(1, "Some Duty"), subscription(2, "Some Duty")];
    let after = apply_tick_to_store(&store, &subs, &actions);
    assert_eq!(after.len(), 2);
}

#[test]
fn resolved_posting_is_updated_to_the_rendered_snapshot() {
    let sub = subscription(7, "The Epic of Alexander (Ultimate)");
    let cfg = FilterConfig::default();
    let action = plan_subscription_sync(&sub, &cfg, 6, &snapshot(), Resolution::Found);
    match action {
        SyncAction::UpdatePosting(e) => {
            assert_eq!(e.title, "The Epic of Alexander (Ultimate) - Crystal");
            assert_eq!(e.color, 0xfcaa00);
            assert_eq!(e.description.as_deref(), Some("No listings at this time."));
        },
        SyncAction::Tombstone => panic!("a resolved posting is updated, not tombstoned"),
    }
}
