use xivpf::jobs::{Job, Role};

#[test]
fn from_code_maps_modern_codes() {
    assert_eq!(Job::from_code("PLD"), Some(Job::Paladin));
    assert_eq!(Job::from_code("WHM"), Some(Job::WhiteMage));
    assert_eq!(Job::from_code("NIN"), Some(Job::Ninja));
    assert_eq!(Job::from_code("GNB"), Some(Job::Gunbreaker));
    assert_eq!(Job::from_code("RPR"), Some(Job::Reaper));
    assert_eq!(Job::from_code("SGE"), Some(Job::Sage));
}

#[test]
fn from_code_maps_legacy_synonyms_to_the_same_jobs() {
    assert_eq!(Job::from_code("RGE"), Job::from_code("ROG"));
    assert_eq!(Job::from_code("ACN"), Job::from_code("ARN"));
    assert_eq!(Job::from_code("RGE"), Some(Job::Rogue));
    assert_eq!(Job::from_code("ACN"), Some(Job::Arcanist));
}

#[test]
fn from_code_rejects_unknown_codes() {
    assert_eq!(Job::from_code(""), None);
    assert_eq!(Job::from_code("XYZ"), None);
    assert_eq!(Job::from_code("pld"), None);
}

#[test]
fn every_job_has_its_role() {
    assert_eq!(Job::Paladin.get_role(), Role::Tank);
    assert_eq!(Job::Gunbreaker.get_role(), Role::Tank);
    assert_eq!(Job::Marauder.get_role(), Role::Tank);
    assert_eq!(Job::WhiteMage.get_role(), Role::Healer);
    assert_eq!(Job::Sage.get_role(), Role::Healer);
    assert_eq!(Job::Conjurer.get_role(), Role::Healer);
    assert_eq!(Job::Ninja.get_role(), Role::DPS);
    assert_eq!(Job::BlackMage.get_role(), Role::DPS);
    assert_eq!(Job::BlueMage.get_role(), Role::DPS);
}

#[test]
fn job_names_render() {
    assert_eq!(Job::Paladin.name(), "Paladin");
    assert_eq!(Job::DarkKnight.name(), "DarkKnight");
    assert_eq!(Job::WhiteMage.name(), "WhiteMage");
}

#[test]
fn job_glyphs_are_fixed() {
    assert_eq!(Job::Paladin.get_emoji_string(), "<:paladin:985322479318892584>");
    assert_eq!(Job::Ninja.get_emoji_string(), "<:ffxivninja:985322478521966612>");
    assert_eq!(Job::Dancer.get_emoji_string(), "<:ffxivdancer:985322469172850728>");
}
