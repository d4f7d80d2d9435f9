use xivpf::jobs::Job;
use xivpf::listing::{PFListing, Slot};
use xivpf::render::{get_color_from_duty, get_embed};

fn listing(author: &str, flags: &str) -> PFListing {
    PFListing {
        title: "The Epic of Alexander (Ultimate)".to_string(),
        author: author.to_string(),
        flags: flags.to_string(),
        description: "desc".to_string(),
        slots: vec![
            Slot { available_jobs: vec![Job::Paladin], filled: true },
            Slot { available_jobs: vec![Job::WhiteMage, Job::Ninja], filled: false },
        ],
        last_updated: "5 minutes ago".to_string(),
        expires_in: "in 30 minutes".to_string(),
        min_ilvl: "600".to_string(),
        data_center: "Crystal".to_string(),
        pf_category: "HighEndDuty".to_string(),
    }
}

#[test]
fn duty_colors_are_keyed_by_name() {
    assert_eq!(get_color_from_duty("The Unending Coil of Bahamut (Ultimate)"), 0xfce100);
    assert_eq!(get_color_from_duty("The Weapon's Refrain (Ultimate)"), 0x008bfc);
    assert_eq!(get_color_from_duty("The Epic of Alexander (Ultimate)"), 0xfcaa00);
    assert_eq!(get_color_from_duty("Dragonsong's Reprise (Ultimate)"), 0xf12916);
    assert_eq!(get_color_from_duty("Some Savage Raid"), 0xf0a057);
}

#[test]
fn embed_title_and_color() {
    let e = get_embed("Crystal", "The Epic of Alexander (Ultimate)", &Vec::new(), 6);
    assert_eq!(e.title, "The Epic of Alexander (Ultimate) - Crystal");
    assert_eq!(e.color, 0xfcaa00);
}

#[test]
fn each_listing_contributes_three_fields() {
    let listings = vec![listing("alice", "[Practice]"), listing("bob", "")];
    let e = get_embed("Crystal", "The Epic of Alexander (Ultimate)", &listings, 6);
    assert_eq!(e.fields.len(), 6);
    assert_eq!(e.fields[0].name, "alice");
    assert_eq!(
        e.fields[0].value,
        "<:paladin:985322479318892584> <:healerdps:985322474923233390>"
    );
    assert!(e.fields[0].inline);
    assert_eq!(e.fields[1].name, "[Practice]");
    assert_eq!(e.fields[1].value, "desc");
    assert_eq!(e.fields[2].name, "<:ffxivstopwatch:987141580869730324> 5 minutes ago");
    assert_eq!(e.fields[2].value, "<:ffxivhourglass:987141579879878676> in 30 minutes");
    // Empty flags fall back to a zero-width marker.
    assert_eq!(e.fields[4].name, "\u{200b}");
    assert!(e.description.is_none());
    assert!(e.footer.is_none());
}

#[test]
fn empty_snapshot_gets_an_explanatory_note() {
    let e = get_embed("Crystal", "Some Duty", &Vec::new(), 6);
    assert_eq!(e.fields.len(), 0);
    assert_eq!(e.description.as_deref(), Some("No listings at this time."));
    assert_eq!(
        e.footer.as_deref(),
        Some(
            "Or, there are listings but people on this data center don't have the Remote Party Finder dalamud plugin."
        )
    );
}

#[test]
fn omitted_listings_are_counted_with_singular_wording() {
    let listings = vec![listing("a", ""), listing("b", "")];
    let e = get_embed("Crystal", "Some Duty", &listings, 1);
    assert_eq!(e.fields.len(), 4);
    let last = &e.fields[3];
    assert_eq!(last.name, "\u{200b}");
    assert_eq!(last.value, "[1 Some Duty listing not shown.](https://xivpf.com/listings)");
    assert!(!last.inline);
}

#[test]
fn omitted_listings_are_counted_with_plural_wording() {
    let listings = vec![listing("a", ""), listing("b", ""), listing("c", "")];
    let e = get_embed("Crystal", "Some Duty", &listings, 1);
    assert_eq!(e.fields.len(), 4);
    assert_eq!(
        e.fields[3].value,
        "[2 Some Duty listings not shown.](https://xivpf.com/listings)"
    );
}
