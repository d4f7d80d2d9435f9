use xivpf::dedup::dedup_listings;
use xivpf::jobs::Job;
use xivpf::listing::{PFListing, Slot};

fn listing(author: &str, flags: &str) -> PFListing {
    PFListing {
        title: "Some Duty".to_string(),
        author: author.to_string(),
        flags: flags.to_string(),
        description: "desc".to_string(),
        slots: Vec::new(),
        last_updated: "1 minute ago".to_string(),
        expires_in: "in 30 minutes".to_string(),
        min_ilvl: "600".to_string(),
        data_center: "Crystal".to_string(),
        pf_category: "HighEndDuty".to_string(),
    }
}

#[test]
fn open_slot_icon_is_a_function_of_roles_present() {
    // Tank and DPS present, no healer: the fixed composite icon, whichever
    // jobs produced the roles.
    let a = Slot { available_jobs: vec![Job::Paladin, Job::Ninja], filled: false };
    let b = Slot { available_jobs: vec![Job::Gunbreaker, Job::Samurai, Job::Warrior], filled: false };
    assert_eq!(a.get_emoji_string(), "<:tankdps:985322489422958662>");
    assert_eq!(b.get_emoji_string(), a.get_emoji_string());
}

#[test]
fn open_slot_icons_cover_all_combinations() {
    let combos: Vec<(Vec<Job>, &str)> = vec![
        (vec![Job::Paladin, Job::WhiteMage, Job::Ninja], "<:tankhealerdps:985322491398459482>"),
        (vec![Job::Paladin, Job::WhiteMage], "<:tankhealer:985322490375049246>"),
        (vec![Job::Paladin, Job::Ninja], "<:tankdps:985322489422958662>"),
        (vec![Job::Paladin], "<:tank:985322488332443668>"),
        (vec![Job::WhiteMage, Job::Ninja], "<:healerdps:985322474923233390>"),
        (vec![Job::WhiteMage], "<:healer:985322474134704138>"),
        (vec![Job::Ninja], "<:dps:985322470326280213>"),
        (vec![], ""),
    ];
    for (jobs, icon) in combos {
        let s = Slot { available_jobs: jobs, filled: false };
        assert_eq!(s.get_emoji_string(), icon);
    }
}

#[test]
fn filled_slot_shows_its_occupant() {
    let s = Slot { available_jobs: vec![Job::WhiteMage, Job::Scholar], filled: true };
    assert_eq!(s.get_emoji_string(), "<:whitemage:985322493919244328>");
    let empty = Slot { available_jobs: vec![], filled: true };
    assert_eq!(empty.get_emoji_string(), "");
}

#[test]
fn slot_to_string_renders_jobs_and_state() {
    let s = Slot { available_jobs: vec![Job::Paladin, Job::Warrior], filled: true };
    assert_eq!(s.to_string(), "Slot([\n    Paladin,\n    Warrior,\n], true)");
    let empty = Slot { available_jobs: vec![], filled: false };
    assert_eq!(empty.to_string(), "Slot([], false)");
}

#[test]
fn dedup_keeps_one_listing_per_author() {
    let batch = vec![
        listing("alice", "[Practice]"),
        listing("bob", ""),
        listing("alice", "[Practice][Duty Completion]"),
        listing("carol", "[x]"),
        listing("bob", "[Farm]"),
    ];
    let out = dedup_listings(&batch);
    assert_eq!(out.len(), 3);
    let mut authors: Vec<&str> = out.iter().map(|l| l.author.as_str()).collect();
    authors.sort();
    assert_eq!(authors, vec!["alice", "bob", "carol"]);
}

#[test]
fn dedup_keeps_the_longest_flags_and_orders_by_flags_length() {
    let batch = vec![
        listing("alice", "[Practice]"),
        listing("bob", ""),
        listing("alice", "[Practice][Duty Completion]"),
        listing("bob", "[Farm]"),
    ];
    let out = dedup_listings(&batch);
    assert_eq!(out.len(), 2);
    // Descending flags length.
    assert_eq!(out[0].author, "alice");
    assert_eq!(out[0].flags, "[Practice][Duty Completion]");
    assert_eq!(out[1].author, "bob");
    assert_eq!(out[1].flags, "[Farm]");
}

#[test]
fn dedup_breaks_flag_ties_by_original_order() {
    let mut first = listing("dave", "[aa]");
    first.description = "first posting".to_string();
    let mut second = listing("dave", "[bb]");
    second.description = "second posting".to_string();
    let out = dedup_listings(&vec![first, second]);
    assert_eq!(out.len(), 1);
    assert_eq!(out[0].description, "first posting");
    assert_eq!(out[0].flags, "[aa]");
}
