//! Rendering a filtered listing set into a bounded display payload.

use vstd::prelude::*;
use vstd::string::StrSliceExecFns;
use vstd::string::StringExecFns;
use crate::listing::{slot_icon, ListingView, PFListing};
use crate::text::{dec_str, str_eq, usize_to_string};

verus! {

/// One display field of a payload.
#[derive(Debug)]
pub struct EmbedField {
    pub name: String,
    pub value: String,
    pub inline: bool,
}

/// The mathematical value of an [`EmbedField`].
#[verifier::ext_equal]
pub struct EmbedFieldView {
    pub name: Seq<char>,
    pub value: Seq<char>,
    pub inline: bool,
}

impl View for EmbedField {
    type V = EmbedFieldView;

    open spec fn view(&self) -> EmbedFieldView {
        EmbedFieldView { name: self.name@, value: self.value@, inline: self.inline }
    }
}

impl DeepView for EmbedField {
    type V = EmbedFieldView;

    open spec fn deep_view(&self) -> EmbedFieldView {
        self@
    }
}

/// A display payload: a title, a theme color, up to a configured number of
/// per-listing field groups, and explanatory notes where there is nothing to
/// show.
#[derive(Debug)]
pub struct Embed {
    pub title: String,
    pub color: u32,
    pub description: Option<String>,
    pub footer: Option<String>,
    pub fields: Vec<EmbedField>,
}

/// The mathematical value of an [`Embed`].
#[verifier::ext_equal]
pub struct EmbedView {
    pub title: Seq<char>,
    pub color: u32,
    pub description: Option<Seq<char>>,
    pub footer: Option<Seq<char>>,
    pub fields: Seq<EmbedFieldView>,
}

impl View for Embed {
    type V = EmbedView;

    open spec fn view(&self) -> EmbedView {
        EmbedView {
            title: self.title@,
            color: self.color,
            description: self.description.deep_view(),
            footer: self.footer.deep_view(),
            fields: self.fields.deep_view(),
        }
    }
}

impl DeepView for Embed {
    type V = EmbedView;

    open spec fn deep_view(&self) -> EmbedView {
        self@
    }
}

/// The theme color keyed by duty name: the four ultimate-tier duties map to
/// specific colors, everything else to one default.
pub open spec fn duty_color(duty: Seq<char>) -> u32 {
    if duty == "The Unending Coil of Bahamut (Ultimate)"@ {
        0xfce100
    } else if duty == "The Weapon's Refrain (Ultimate)"@ {
        0x008bfc
    } else if duty == "The Epic of Alexander (Ultimate)"@ {
        0xfcaa00
    } else if duty == "Dragonsong's Reprise (Ultimate)"@ {
        0xf12916
    } else {
        0xf0a057
    }
}

/// Looks the theme color for a duty up.
pub fn get_color_from_duty(duty_name: &str) -> (c: u32)
    ensures
        c == duty_color(duty_name@),
{
    if str_eq(duty_name, "The Unending Coil of Bahamut (Ultimate)") {
        0xfce100
    } else if str_eq(duty_name, "The Weapon's Refrain (Ultimate)") {
        0x008bfc
    } else if str_eq(duty_name, "The Epic of Alexander (Ultimate)") {
        0xfcaa00
    } else if str_eq(duty_name, "Dragonsong's Reprise (Ultimate)") {
        0xf12916
    } else {
        0xf0a057
    }
}

/// The space-joined sequence of per-slot icons, in slot order.
pub open spec fn icons_join(slots: Seq<crate::listing::SlotView>) -> Seq<char>
    decreases slots.len(),
{
    if slots.len() == 0 {
        Seq::<char>::empty()
    } else if slots.len() == 1 {
        slot_icon(slots[0])
    } else {
        icons_join(slots.drop_last()) + " "@ + slot_icon(slots.last())
    }
}

/// The three display fields one listing contributes: author and role icons,
/// flags (or a zero-width marker) and description, update and expiry times.
pub open spec fn listing_fields(l: ListingView) -> Seq<EmbedFieldView> {
    seq![
        EmbedFieldView { name: l.author, value: icons_join(l.slots), inline: true },
        EmbedFieldView {
            name: if l.flags.len() == 0 {
                "\u{200b}"@
            } else {
                l.flags
            },
            value: l.description,
            inline: true,
        },
        EmbedFieldView {
            name: "<:ffxivstopwatch:987141580869730324> "@ + l.last_updated,
            value: "<:ffxivhourglass:987141579879878676> "@ + l.expires_in,
            inline: true,
        },
    ]
}

/// The field groups of the listings shown, in order.
pub open spec fn fields_spec(shown: Seq<ListingView>) -> Seq<EmbedFieldView>
    decreases shown.len(),
{
    if shown.len() == 0 {
        Seq::<EmbedFieldView>::empty()
    } else {
        fields_spec(shown.drop_last()) + listing_fields(shown.last())
    }
}

/// The trailing field reporting how many listings were omitted, with singular
/// or plural wording.
pub open spec fn overflow_field(duty: Seq<char>, omitted: nat) -> EmbedFieldView {
    EmbedFieldView {
        name: "\u{200b}"@,
        value: "["@ + dec_str(omitted) + " "@ + duty + " listing"@ + (if omitted == 1 {
            Seq::<char>::empty()
        } else {
            "s"@
        }) + " not shown.](https://xivpf.com/listings)"@,
        inline: false,
    }
}

/// The whole display payload for a filtered listing set.
pub open spec fn embed_spec(
    dc: Seq<char>,
    duty: Seq<char>,
    listings: Seq<ListingView>,
    max: nat,
) -> EmbedView {
    let shown = if listings.len() <= max {
        listings
    } else {
        listings.take(max as int)
    };
    EmbedView {
        title: duty + " - "@ + dc,
        color: duty_color(duty),
        description: if listings.len() == 0 {
            Some("No listings at this time."@)
        } else {
            None
        },
        footer: if listings.len() == 0 {
            Some(
                "Or, there are listings but people on this data center don't have the Remote Party Finder dalamud plugin."@,
            )
        } else {
            None
        },
        fields: fields_spec(shown) + (if listings.len() > max {
            seq![overflow_field(duty, (listings.len() - max) as nat)]
        } else {
            Seq::<EmbedFieldView>::empty()
        }),
    }
}

/// The space-joined role-icon string for a listing's slots.
fn render_icons(l: &PFListing) -> (s: String)
    ensures
        s@ == icons_join(l@.slots),
{
    let mut s = String::new();
    let mut j: usize = 0;
    while j < l.slots.len()
        invariant
            j <= l.slots@.len(),
            s@ == icons_join(l@.slots.take(j as int)),
        decreases l.slots@.len() - j,
    {
        let ghost pre = l@.slots.take(j as int);
        if j > 0 {
            s.append(" ");
        }
        let icon = l.slots[j].get_emoji_string();
        s.append(icon.as_str());
        j = j + 1;
        proof {
            let cur = l@.slots.take(j as int);
            assert(cur.drop_last() =~= pre);
            assert(cur.last() == l@.slots[j - 1]);
            assert(l@.slots[j - 1] == l.slots@[j - 1]@);
            if j == 1 {
                assert(s@ =~= icons_join(cur));
            } else {
                assert(s@ =~= icons_join(cur));
            }
        }
    }
    proof {
        assert(l@.slots.take(l.slots@.len() as int) =~= l@.slots);
    }
    s
}

/// Builds the display payload for a subscription's filtered listings: the
/// title and theme, three fields per shown listing, notes when there is
/// nothing to show, and a trailing count of omitted listings.
pub fn get_embed(
    data_center: &str,
    duty_name: &str,
    listings: &Vec<PFListing>,
    max_listings: usize,
) -> (e: Embed)
    ensures
        e@ == embed_spec(data_center@, duty_name@, listings.deep_view(), max_listings as nat),
{
    let ghost lv = listings.deep_view();
    let mut title = String::new();
    title.append(duty_name);
    title.append(" - ");
    title.append(data_center);
    let color = get_color_from_duty(duty_name);

    let shown_count = if listings.len() <= max_listings {
        listings.len()
    } else {
        max_listings
    };
    let mut fields: Vec<EmbedField> = Vec::new();
    let mut i: usize = 0;
    while i < shown_count
        invariant
            lv == listings.deep_view(),
            shown_count <= lv.len(),
            i <= shown_count,
            fields.deep_view() == fields_spec(lv.take(i as int)),
        decreases shown_count - i,
    {
        let ghost pre = lv.take(i as int);
        let ghost old_fields = fields.deep_view();
        let icons = render_icons(&listings[i]);
        let author = listings[i].author.clone();
        fields.push(EmbedField { name: author, value: icons, inline: true });
        let flags_empty = listings[i].flags.as_str().unicode_len() == 0;
        let second_name = if flags_empty {
            String::from_str("\u{200b}")
        } else {
            listings[i].flags.clone()
        };
        fields.push(
            EmbedField { name: second_name, value: listings[i].description.clone(), inline: true },
        );
        let mut upd = String::from_str("<:ffxivstopwatch:987141580869730324> ");
        upd.append(listings[i].last_updated.as_str());
        let mut exp = String::from_str("<:ffxivhourglass:987141579879878676> ");
        exp.append(listings[i].expires_in.as_str());
        fields.push(EmbedField { name: upd, value: exp, inline: true });
        i = i + 1;
        proof {
            let cur = lv.take(i as int);
            assert(cur.drop_last() =~= pre);
            assert(cur.last() == lv[i - 1]);
            assert(lv[i - 1] == listings@[i - 1]@);
            assert(fields.deep_view() =~= old_fields + listing_fields(lv[i - 1]));
        }
    }

    let mut description: Option<String> = None;
    let mut footer: Option<String> = None;
    if listings.len() == 0 {
        description = Some(String::from_str("No listings at this time."));
        footer = Some(
            String::from_str(
                "Or, there are listings but people on this data center don't have the Remote Party Finder dalamud plugin.",
            ),
        );
    }

    if listings.len() > max_listings {
        let ghost old_fields = fields.deep_view();
        let not_taken = listings.len() - max_listings;
        let count = usize_to_string(not_taken);
        let mut v = String::from_str("[");
        v.append(count.as_str());
        v.append(" ");
        v.append(duty_name);
        v.append(" listing");
        if not_taken != 1 {
            v.append("s");
        }
        v.append(" not shown.](https://xivpf.com/listings)");
        fields.push(EmbedField { name: String::from_str("\u{200b}"), value: v, inline: false });
        proof {
            assert(fields.deep_view() =~= old_fields + seq![
                overflow_field(duty_name@, not_taken as nat),
            ]);
        }
    }

    let e = Embed { title, color, description, footer, fields };
    proof {
        let spec_e = embed_spec(data_center@, duty_name@, lv, max_listings as nat);
        let shown = if lv.len() <= max_listings as nat {
            lv
        } else {
            lv.take(max_listings as int)
        };
        assert(lv.take(shown_count as int) =~= shown);
        assert(e@ =~= spec_e);
    }
    e
}

} // verus!
