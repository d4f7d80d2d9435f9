//! The closed taxonomy of playable combat classes and their roles.

use vstd::prelude::*;
use vstd::string::StringExecFns;
use crate::text::str_eq;

verus! {

/// A playable combat class appearing in party listings.
#[derive(Debug, Clone, Copy, PartialEq, Eq, Structural)]
pub enum Job {
    Gunbreaker,
    Paladin,
    Gladiator,
    DarkKnight,
    Warrior,
    Marauder,
    Scholar,
    Arcanist,
    Sage,
    Astrologian,
    WhiteMage,
    Conjurer,
    Samurai,
    Dragoon,
    Ninja,
    Monk,
    Reaper,
    Bard,
    Machinist,
    Dancer,
    BlackMage,
    BlueMage,
    Summoner,
    RedMage,
    Lancer,
    Pugilist,
    Rogue,
    Thaumaturge,
    Archer,
}

/// The party role a job fills.
#[derive(Debug, Clone, Copy, PartialEq, Eq, Structural)]
pub enum Role {
    Tank,
    DPS,
    Healer,
}

/// Each job maps to exactly one role.
pub open spec fn role_of(j: Job) -> Role {
    match j {
        Job::Gunbreaker => Role::Tank,
        Job::Paladin => Role::Tank,
        Job::Gladiator => Role::Tank,
        Job::DarkKnight => Role::Tank,
        Job::Warrior => Role::Tank,
        Job::Marauder => Role::Tank,
        Job::Scholar => Role::Healer,
        Job::Sage => Role::Healer,
        Job::Astrologian => Role::Healer,
        Job::WhiteMage => Role::Healer,
        Job::Conjurer => Role::Healer,
        _ => Role::DPS,
    }
}

/// The job a three/four-letter listing code stands for, if any.  Two legacy
/// synonyms ("RGE", "ACN") map to the same jobs as their modern codes.
pub open spec fn job_from_code(s: Seq<char>) -> Option<Job> {
    if s == "PLD"@ {
        Some(Job::Paladin)
    } else if s == "WAR"@ {
        Some(Job::Warrior)
    } else if s == "DRK"@ {
        Some(Job::DarkKnight)
    } else if s == "GNB"@ {
        Some(Job::Gunbreaker)
    } else if s == "GLD"@ {
        Some(Job::Gladiator)
    } else if s == "MRD"@ {
        Some(Job::Marauder)
    } else if s == "WHM"@ {
        Some(Job::WhiteMage)
    } else if s == "SCH"@ {
        Some(Job::Scholar)
    } else if s == "AST"@ {
        Some(Job::Astrologian)
    } else if s == "SGE"@ {
        Some(Job::Sage)
    } else if s == "CNJ"@ {
        Some(Job::Conjurer)
    } else if s == "ARN"@ {
        Some(Job::Arcanist)
    } else if s == "MNK"@ {
        Some(Job::Monk)
    } else if s == "PGL"@ {
        Some(Job::Pugilist)
    } else if s == "DRG"@ {
        Some(Job::Dragoon)
    } else if s == "LNC"@ {
        Some(Job::Lancer)
    } else if s == "NIN"@ {
        Some(Job::Ninja)
    } else if s == "ROG"@ {
        Some(Job::Rogue)
    } else if s == "SAM"@ {
        Some(Job::Samurai)
    } else if s == "RPR"@ {
        Some(Job::Reaper)
    } else if s == "BRD"@ {
        Some(Job::Bard)
    } else if s == "ARC"@ {
        Some(Job::Archer)
    } else if s == "MCH"@ {
        Some(Job::Machinist)
    } else if s == "DNC"@ {
        Some(Job::Dancer)
    } else if s == "BLM"@ {
        Some(Job::BlackMage)
    } else if s == "SMN"@ {
        Some(Job::Summoner)
    } else if s == "BLU"@ {
        Some(Job::BlueMage)
    } else if s == "RDM"@ {
        Some(Job::RedMage)
    } else if s == "RGE"@ {
        Some(Job::Rogue)
    } else if s == "THM"@ {
        Some(Job::Thaumaturge)
    } else if s == "ACN"@ {
        Some(Job::Arcanist)
    } else {
        None
    }
}

/// The display name of a job.
pub open spec fn job_name(j: Job) -> Seq<char> {
    match j {
        Job::Gunbreaker => "Gunbreaker"@,
        Job::Paladin => "Paladin"@,
        Job::Gladiator => "Gladiator"@,
        Job::DarkKnight => "DarkKnight"@,
        Job::Warrior => "Warrior"@,
        Job::Marauder => "Marauder"@,
        Job::Scholar => "Scholar"@,
        Job::Arcanist => "Arcanist"@,
        Job::Sage => "Sage"@,
        Job::Astrologian => "Astrologian"@,
        Job::WhiteMage => "WhiteMage"@,
        Job::Conjurer => "Conjurer"@,
        Job::Samurai => "Samurai"@,
        Job::Dragoon => "Dragoon"@,
        Job::Ninja => "Ninja"@,
        Job::Monk => "Monk"@,
        Job::Reaper => "Reaper"@,
        Job::Bard => "Bard"@,
        Job::Machinist => "Machinist"@,
        Job::Dancer => "Dancer"@,
        Job::BlackMage => "BlackMage"@,
        Job::BlueMage => "BlueMage"@,
        Job::Summoner => "Summoner"@,
        Job::RedMage => "RedMage"@,
        Job::Lancer => "Lancer"@,
        Job::Pugilist => "Pugilist"@,
        Job::Rogue => "Rogue"@,
        Job::Thaumaturge => "Thaumaturge"@,
        Job::Archer => "Archer"@,
    }
}

/// The fixed display glyph of a job.
pub open spec fn job_icon(j: Job) -> Seq<char> {
    match j {
        Job::Gunbreaker => "<:gunbreaker:985322473337782384>"@,
        Job::Paladin => "<:paladin:985322479318892584>"@,
        Job::Gladiator => "<:gladiator:985322472079491152>"@,
        Job::DarkKnight => "<:darkknight:985322469873303624>"@,
        Job::Warrior => "<:warrior:985322493143318578>"@,
        Job::Marauder => "<:marauder:985322476986826782>"@,
        Job::Scholar => "<:scholar:985322486231089212>"@,
        Job::Arcanist => "<:arcanist:985322461866369094>"@,
        Job::Sage => "<:sage:985322483823566908>"@,
        Job::Astrologian => "<:astrologian:985322464127107093>"@,
        Job::WhiteMage => "<:whitemage:985322493919244328>"@,
        Job::Conjurer => "<:conjurer:985322468308811886>"@,
        Job::Samurai => "<:samurai:985322484842758235>"@,
        Job::Dragoon => "<:dragoon:985322471232245860>"@,
        Job::Ninja => "<:ffxivninja:985322478521966612>"@,
        Job::Monk => "<:monk:985322477683089418>"@,
        Job::Reaper => "<:reaper:985322481025966150>"@,
        Job::Bard => "<:bard:985322465733533736>"@,
        Job::Machinist => "<:machinist:985322476244443246>"@,
        Job::Dancer => "<:ffxivdancer:985322469172850728>"@,
        Job::BlackMage => "<:blackmage:985322466723377202>"@,
        Job::BlueMage => "<:bluemage:985322467599974421>"@,
        Job::Summoner => "<:summoner:985322487191584839>"@,
        Job::RedMage => "<:redmage:985322481889996890>"@,
        Job::Lancer => "<:lancer:985322475225219084>"@,
        Job::Pugilist => "<:pugilist:985322480203862056>"@,
        Job::Rogue => "<:rogue:985322482879848458>"@,
        Job::Thaumaturge => "<:thaumaturge:985322492258295818>"@,
        Job::Archer => "<:archer:985322463552495616>"@,
    }
}

impl Job {
    /// Looks a listing job code up in the fixed code table.
    pub fn from_code(code: &str) -> (r: Option<Job>)
        ensures
            r == job_from_code(code@),
    {
        if str_eq(code, "PLD") {
            Some(Job::Paladin)
        } else if str_eq(code, "WAR") {
            Some(Job::Warrior)
        } else if str_eq(code, "DRK") {
            Some(Job::DarkKnight)
        } else if str_eq(code, "GNB") {
            Some(Job::Gunbreaker)
        } else if str_eq(code, "GLD") {
            Some(Job::Gladiator)
        } else if str_eq(code, "MRD") {
            Some(Job::Marauder)
        } else if str_eq(code, "WHM") {
            Some(Job::WhiteMage)
        } else if str_eq(code, "SCH") {
            Some(Job::Scholar)
        } else if str_eq(code, "AST") {
            Some(Job::Astrologian)
        } else if str_eq(code, "SGE") {
            Some(Job::Sage)
        } else if str_eq(code, "CNJ") {
            Some(Job::Conjurer)
        } else if str_eq(code, "ARN") {
            Some(Job::Arcanist)
        } else if str_eq(code, "MNK") {
            Some(Job::Monk)
        } else if str_eq(code, "PGL") {
            Some(Job::Pugilist)
        } else if str_eq(code, "DRG") {
            Some(Job::Dragoon)
        } else if str_eq(code, "LNC") {
            Some(Job::Lancer)
        } else if str_eq(code, "NIN") {
            Some(Job::Ninja)
        } else if str_eq(code, "ROG") {
            Some(Job::Rogue)
        } else if str_eq(code, "SAM") {
            Some(Job::Samurai)
        } else if str_eq(code, "RPR") {
            Some(Job::Reaper)
        } else if str_eq(code, "BRD") {
            Some(Job::Bard)
        } else if str_eq(code, "ARC") {
            Some(Job::Archer)
        } else if str_eq(code, "MCH") {
            Some(Job::Machinist)
        } else if str_eq(code, "DNC") {
            Some(Job::Dancer)
        } else if str_eq(code, "BLM") {
            Some(Job::BlackMage)
        } else if str_eq(code, "SMN") {
            Some(Job::Summoner)
        } else if str_eq(code, "BLU") {
            Some(Job::BlueMage)
        } else if str_eq(code, "RDM") {
            Some(Job::RedMage)
        } else if str_eq(code, "RGE") {
            Some(Job::Rogue)
        } else if str_eq(code, "THM") {
            Some(Job::Thaumaturge)
        } else if str_eq(code, "ACN") {
            Some(Job::Arcanist)
        } else {
            None
        }
    }

    /// The display name of this job.
    pub fn name(&self) -> (s: String)
        ensures
            s@ == job_name(*self),
    {
        match self {
            Job::Gunbreaker => String::from_str("Gunbreaker"),
            Job::Paladin => String::from_str("Paladin"),
            Job::Gladiator => String::from_str("Gladiator"),
            Job::DarkKnight => String::from_str("DarkKnight"),
            Job::Warrior => String::from_str("Warrior"),
            Job::Marauder => String::from_str("Marauder"),
            Job::Scholar => String::from_str("Scholar"),
            Job::Arcanist => String::from_str("Arcanist"),
            Job::Sage => String::from_str("Sage"),
            Job::Astrologian => String::from_str("Astrologian"),
            Job::WhiteMage => String::from_str("WhiteMage"),
            Job::Conjurer => String::from_str("Conjurer"),
            Job::Samurai => String::from_str("Samurai"),
            Job::Dragoon => String::from_str("Dragoon"),
            Job::Ninja => String::from_str("Ninja"),
            Job::Monk => String::from_str("Monk"),
            Job::Reaper => String::from_str("Reaper"),
            Job::Bard => String::from_str("Bard"),
            Job::Machinist => String::from_str("Machinist"),
            Job::Dancer => String::from_str("Dancer"),
            Job::BlackMage => String::from_str("BlackMage"),
            Job::BlueMage => String::from_str("BlueMage"),
            Job::Summoner => String::from_str("Summoner"),
            Job::RedMage => String::from_str("RedMage"),
            Job::Lancer => String::from_str("Lancer"),
            Job::Pugilist => String::from_str("Pugilist"),
            Job::Rogue => String::from_str("Rogue"),
            Job::Thaumaturge => String::from_str("Thaumaturge"),
            Job::Archer => String::from_str("Archer"),
        }
    }

    /// The fixed display glyph of this job.
    pub fn get_emoji_string(&self) -> (s: String)
        ensures
            s@ == job_icon(*self),
    {
        match self {
            Job::Gunbreaker => String::from_str("<:gunbreaker:985322473337782384>"),
            Job::Paladin => String::from_str("<:paladin:985322479318892584>"),
            Job::Gladiator => String::from_str("<:gladiator:985322472079491152>"),
            Job::DarkKnight => String::from_str("<:darkknight:985322469873303624>"),
            Job::Warrior => String::from_str("<:warrior:985322493143318578>"),
            Job::Marauder => String::from_str("<:marauder:985322476986826782>"),
            Job::Scholar => String::from_str("<:scholar:985322486231089212>"),
            Job::Arcanist => String::from_str("<:arcanist:985322461866369094>"),
            Job::Sage => String::from_str("<:sage:985322483823566908>"),
            Job::Astrologian => String::from_str("<:astrologian:985322464127107093>"),
            Job::WhiteMage => String::from_str("<:whitemage:985322493919244328>"),
            Job::Conjurer => String::from_str("<:conjurer:985322468308811886>"),
            Job::Samurai => String::from_str("<:samurai:985322484842758235>"),
            Job::Dragoon => String::from_str("<:dragoon:985322471232245860>"),
            Job::Ninja => String::from_str("<:ffxivninja:985322478521966612>"),
            Job::Monk => String::from_str("<:monk:985322477683089418>"),
            Job::Reaper => String::from_str("<:reaper:985322481025966150>"),
            Job::Bard => String::from_str("<:bard:985322465733533736>"),
            Job::Machinist => String::from_str("<:machinist:985322476244443246>"),
            Job::Dancer => String::from_str("<:ffxivdancer:985322469172850728>"),
            Job::BlackMage => String::from_str("<:blackmage:985322466723377202>"),
            Job::BlueMage => String::from_str("<:bluemage:985322467599974421>"),
            Job::Summoner => String::from_str("<:summoner:985322487191584839>"),
            Job::RedMage => String::from_str("<:redmage:985322481889996890>"),
            Job::Lancer => String::from_str("<:lancer:985322475225219084>"),
            Job::Pugilist => String::from_str("<:pugilist:985322480203862056>"),
            Job::Rogue => String::from_str("<:rogue:985322482879848458>"),
            Job::Thaumaturge => String::from_str("<:thaumaturge:985322492258295818>"),
            Job::Archer => String::from_str("<:archer:985322463552495616>"),
        }
    }

    /// The role this job fills.
    pub fn get_role(&self) -> (r: Role)
        ensures
            r == role_of(*self),
    {
        match self {
            Job::Gunbreaker => Role::Tank,
            Job::Paladin => Role::Tank,
            Job::Gladiator => Role::Tank,
            Job::DarkKnight => Role::Tank,
            Job::Warrior => Role::Tank,
            Job::Marauder => Role::Tank,
            Job::Scholar => Role::Healer,
            Job::Sage => Role::Healer,
            Job::Astrologian => Role::Healer,
            Job::WhiteMage => Role::Healer,
            Job::Conjurer => Role::Healer,
            _ => Role::DPS,
        }
    }
}

} // verus!
