use xivpf::filter::{
    compute_threshold, filter_listings, is_static_ad, FilterConfig, Subscription,
};
use xivpf::jobs::Job;
use xivpf::listing::{PFListing, Slot};

fn listing(author: &str, last_updated: &str) -> PFListing {
    PFListing {
        title: "The Epic of Alexander (Ultimate)".to_string(),
        author: author.to_string(),
        flags: "".to_string(),
        description: "prog group".to_string(),
        slots: (0..8)
            .map(|_| Slot { available_jobs: vec![Job::Paladin], filled: false })
            .collect(),
        last_updated: last_updated.to_string(),
        expires_in: "in 30 minutes".to_string(),
        min_ilvl: "600".to_string(),
        data_center: "Crystal".to_string(),
        pf_category: "HighEndDuty".to_string(),
    }
}

fn subscription(allow_statics: bool) -> Subscription {
    Subscription {
        message_id: 1,
        channel_id: 2,
        guild_id: 3,
        data_center: "Crystal".to_string(),
        duty_name: "The Epic of Alexander (Ultimate)".to_string(),
        allow_statics,
    }
}

#[test]
fn default_config_values() {
    let cfg = FilterConfig::default();
    assert_eq!(cfg.min_minutes, 3);
    assert_eq!(cfg.min_slots, 5);
    assert_eq!(cfg.static_pattern, ".{3,32}#[0-9]{4}");
}

#[test]
fn threshold_widens_to_the_freshest_cluster() {
    // Lower bound 3, matching listings with elapsed {7, 10, 20}: the window
    // widens to the minimum elapsed, 7.
    let cfg = FilterConfig::default();
    let sub = subscription(true);
    let listings = vec![
        listing("a", "7 minutes ago"),
        listing("b", "10 minutes ago"),
        listing("c", "20 minutes ago"),
    ];
    assert_eq!(compute_threshold(&sub, &cfg, &listings), 7);
    let kept = filter_listings(&sub, &cfg, &listings);
    assert_eq!(kept.len(), 1);
    assert_eq!(kept[0].author, "a");
}

#[test]
fn threshold_is_clipped_to_fifteen() {
    let cfg = FilterConfig::default();
    let sub = subscription(true);
    let listings = vec![listing("a", "20 minutes ago"), listing("b", "40 minutes ago")];
    assert_eq!(compute_threshold(&sub, &cfg, &listings), 15);
    let kept = filter_listings(&sub, &cfg, &listings);
    assert_eq!(kept.len(), 0);
}

#[test]
fn threshold_never_narrows_below_the_lower_bound() {
    let cfg = FilterConfig::default();
    let sub = subscription(true);
    let listings = vec![listing("a", "1 minute ago"), listing("b", "3 minutes ago")];
    assert_eq!(compute_threshold(&sub, &cfg, &listings), 3);
    let kept = filter_listings(&sub, &cfg, &listings);
    assert_eq!(kept.len(), 2);
}

#[test]
fn threshold_defaults_to_five_with_no_matching_listing() {
    let cfg = FilterConfig::default();
    let sub = subscription(true);
    assert_eq!(compute_threshold(&sub, &cfg, &Vec::new()), 5);
}

#[test]
fn scope_filter_requires_data_center_and_duty() {
    let cfg = FilterConfig::default();
    let sub = subscription(true);
    let mut other_dc = listing("a", "1 minute ago");
    other_dc.data_center = "Aether".to_string();
    let mut other_duty = listing("b", "1 minute ago");
    other_duty.title = "Dragonsong's Reprise (Ultimate)".to_string();
    let matching = listing("c", "1 minute ago");
    let kept = filter_listings(&sub, &cfg, &vec![other_dc, other_duty, matching]);
    assert_eq!(kept.len(), 1);
    assert_eq!(kept[0].author, "c");
}

#[test]
fn plain_listing_is_not_a_static_ad() {
    // Six slots and an ordinary tag: not classified static, kept even when
    // the subscription disallows statics.
    let cfg = FilterConfig::default();
    let mut l = listing("a", "1 minute ago");
    l.description = "Totally Real Tag".to_string();
    l.slots.truncate(6);
    assert!(!is_static_ad(&l, &cfg));
    let kept = filter_listings(&subscription(false), &cfg, &vec![l]);
    assert_eq!(kept.len(), 1);
}

#[test]
fn discriminator_description_is_a_static_ad() {
    let cfg = FilterConfig::default();
    let mut l = listing("a", "1 minute ago");
    l.description = "Xeno Raider#1234".to_string();
    assert!(is_static_ad(&l, &cfg));
    let excluded = filter_listings(&subscription(false), &cfg, &vec![l.clone()]);
    assert_eq!(excluded.len(), 0);
    let included = filter_listings(&subscription(true), &cfg, &vec![l]);
    assert_eq!(included.len(), 1);
}

#[test]
fn too_few_slots_is_a_static_ad() {
    let cfg = FilterConfig::default();
    let mut l = listing("a", "1 minute ago");
    l.slots.truncate(4);
    assert!(is_static_ad(&l, &cfg));
    let excluded = filter_listings(&subscription(false), &cfg, &vec![l]);
    assert_eq!(excluded.len(), 0);
}

#[test]
fn filter_preserves_snapshot_order() {
    let cfg = FilterConfig::default();
    let sub = subscription(true);
    let listings = vec![
        listing("first", "2 minutes ago"),
        listing("second", "1 minute ago"),
        listing("third", "3 minutes ago"),
    ];
    let kept = filter_listings(&sub, &cfg, &listings);
    let authors: Vec<&str> = kept.iter().map(|l| l.author.as_str()).collect();
    assert_eq!(authors, vec!["first", "second", "third"]);
}
