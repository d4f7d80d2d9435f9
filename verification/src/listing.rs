//! The typed listing model: slots and listings, with their mathematical views.

use vstd::prelude::*;
use vstd::string::StringExecFns;
use crate::jobs::{Job, Role, job_icon, job_name, role_of};

verus! {

/// One party position in a listing, open or filled, with its acceptable-job
/// set.  If filled, the current occupant is conventionally the first entry of
/// `available_jobs`.
#[derive(Debug)]
pub struct Slot {
    pub available_jobs: Vec<Job>,
    pub filled: bool,
}

/// The mathematical value of a [`Slot`].
#[verifier::ext_equal]
pub struct SlotView {
    pub available_jobs: Seq<Job>,
    pub filled: bool,
}

impl View for Slot {
    type V = SlotView;

    open spec fn view(&self) -> SlotView {
        SlotView { available_jobs: self.available_jobs@, filled: self.filled }
    }
}

impl DeepView for Slot {
    type V = SlotView;

    open spec fn deep_view(&self) -> SlotView {
        self@
    }
}

impl Clone for Slot {
    /// A cloned slot has the same value.
    fn clone(&self) -> (r: Self)
        ensures
            r@ == self@,
    {
        let r = Slot { available_jobs: self.available_jobs.clone(), filled: self.filled };
        proof {
            assert(r.available_jobs@ =~= self.available_jobs@);
            assert(r@ =~= self@);
        }
        r
    }
}

/// One scraped party-recruitment record for a specific activity and
/// data-center.  All string fields are free text originating from untrusted
/// external markup.
#[derive(Debug)]
pub struct PFListing {
    pub title: String,
    pub author: String,
    pub flags: String,
    pub description: String,
    pub slots: Vec<Slot>,
    pub last_updated: String,
    pub expires_in: String,
    pub min_ilvl: String,
    pub data_center: String,
    pub pf_category: String,
}

/// The mathematical value of a [`PFListing`].
#[verifier::ext_equal]
pub struct ListingView {
    pub title: Seq<char>,
    pub author: Seq<char>,
    pub flags: Seq<char>,
    pub description: Seq<char>,
    pub slots: Seq<SlotView>,
    pub last_updated: Seq<char>,
    pub expires_in: Seq<char>,
    pub min_ilvl: Seq<char>,
    pub data_center: Seq<char>,
    pub pf_category: Seq<char>,
}

impl View for PFListing {
    type V = ListingView;

    open spec fn view(&self) -> ListingView {
        ListingView {
            title: self.title@,
            author: self.author@,
            flags: self.flags@,
            description: self.description@,
            slots: self.slots.deep_view(),
            last_updated: self.last_updated@,
            expires_in: self.expires_in@,
            min_ilvl: self.min_ilvl@,
            data_center: self.data_center@,
            pf_category: self.pf_category@,
        }
    }
}

impl DeepView for PFListing {
    type V = ListingView;

    open spec fn deep_view(&self) -> ListingView {
        self@
    }
}

impl Clone for PFListing {
    /// A cloned listing has the same value.
    fn clone(&self) -> (r: Self)
        ensures
            r@ == self@,
    {
        let r = PFListing {
            title: self.title.clone(),
            author: self.author.clone(),
            flags: self.flags.clone(),
            description: self.description.clone(),
            slots: self.slots.clone(),
            last_updated: self.last_updated.clone(),
            expires_in: self.expires_in.clone(),
            min_ilvl: self.min_ilvl.clone(),
            data_center: self.data_center.clone(),
            pf_category: self.pf_category.clone(),
        };
        proof {
            assert forall|i: int| 0 <= i < self.slots@.len() implies r.slots.deep_view()[i]
                == self.slots.deep_view()[i] by {
                assert(cloned::<Slot>(self.slots@[i], r.slots@[i]));
            }
            assert(r.slots.deep_view() =~= self.slots.deep_view());
            assert(r@ =~= self@);
        }
        r
    }
}

/// Whether some job of the set fills the given role.
pub open spec fn has_role(jobs: Seq<Job>, r: Role) -> bool {
    exists|i: int| 0 <= i < jobs.len() && role_of(#[trigger] jobs[i]) == r
}

/// The composite icon for an open slot, a total function of which roles are
/// present among its acceptable jobs.
pub open spec fn combo_icon(tank: bool, healer: bool, dps: bool) -> Seq<char> {
    if tank && healer && dps {
        "<:tankhealerdps:985322491398459482>"@
    } else if tank && healer && !dps {
        "<:tankhealer:985322490375049246>"@
    } else if tank && !healer && dps {
        "<:tankdps:985322489422958662>"@
    } else if tank && !healer && !dps {
        "<:tank:985322488332443668>"@
    } else if !tank && healer && dps {
        "<:healerdps:985322474923233390>"@
    } else if !tank && healer && !dps {
        "<:healer:985322474134704138>"@
    } else if !tank && !healer && dps {
        "<:dps:985322470326280213>"@
    } else {
        Seq::<char>::empty()
    }
}

/// The icon a slot displays: a filled slot shows its occupant's glyph, an
/// open slot shows the composite icon of the roles present.
pub open spec fn slot_icon(s: SlotView) -> Seq<char> {
    if s.filled {
        if s.available_jobs.len() == 0 {
            Seq::<char>::empty()
        } else {
            job_icon(s.available_jobs[0])
        }
    } else {
        combo_icon(
            has_role(s.available_jobs, Role::Tank),
            has_role(s.available_jobs, Role::Healer),
            has_role(s.available_jobs, Role::DPS),
        )
    }
}

/// Composite icon selection is a pure function of the set of roles present:
/// two open slots whose acceptable jobs cover the same roles display the same
/// icon, regardless of which specific jobs produced those roles.
pub proof fn lemma_icon_depends_only_on_roles(a: SlotView, b: SlotView)
    requires
        !a.filled,
        !b.filled,
        has_role(a.available_jobs, Role::Tank) == has_role(b.available_jobs, Role::Tank),
        has_role(a.available_jobs, Role::Healer) == has_role(b.available_jobs, Role::Healer),
        has_role(a.available_jobs, Role::DPS) == has_role(b.available_jobs, Role::DPS),
    ensures
        slot_icon(a) == slot_icon(b),
{
}

impl Slot {
    /// A readable rendering of the slot, in the shape
    /// `Slot([\n    JobName,\n    ...\n], filled)`.
    pub fn to_string(&self) -> (s: String)
        ensures
            s@ == slot_debug(self@),
    {
        let mut s = String::from_str("Slot(");
        if self.available_jobs.len() == 0 {
            s.append("[]");
        } else {
            s.append("[\n");
            let mut i: usize = 0;
            while i < self.available_jobs.len()
                invariant
                    i <= self.available_jobs@.len(),
                    s@ == "Slot("@ + "[\n"@ + jobs_debug_lines(self.available_jobs@.take(i as int)),
                decreases self.available_jobs@.len() - i,
            {
                let ghost pre = self.available_jobs@.take(i as int);
                s.append("    ");
                let n = self.available_jobs[i].name();
                s.append(n.as_str());
                s.append(",\n");
                i = i + 1;
                proof {
                    let cur = self.available_jobs@.take(i as int);
                    assert(cur.drop_last() =~= pre);
                    assert(jobs_debug_lines(cur) == jobs_debug_lines(pre) + "    "@ + job_name(
                        self.available_jobs@[i - 1],
                    ) + ",\n"@);
                }
            }
            proof {
                assert(self.available_jobs@.take(self.available_jobs@.len() as int)
                    =~= self.available_jobs@);
            }
            s.append("]");
        }
        s.append(", ");
        if self.filled {
            s.append("true");
        } else {
            s.append("false");
        }
        s.append(")");
        proof {
            assert(s@ =~= slot_debug(self@));
        }
        s
    }

    /// The composite role-icon string for this slot.
    pub fn get_emoji_string(&self) -> (s: String)
        ensures
            s@ == slot_icon(self@),
    {
        if self.filled {
            if self.available_jobs.len() == 0 {
                let s = String::new();
                proof {
                    assert(s@ =~= slot_icon(self@));
                }
                s
            } else {
                self.available_jobs[0].get_emoji_string()
            }
        } else {
            let mut tank: bool = false;
            let mut healer: bool = false;
            let mut dps: bool = false;
            let mut i: usize = 0;
            while i < self.available_jobs.len()
                invariant
                    i <= self.available_jobs@.len(),
                    tank == has_role(self.available_jobs@.take(i as int), Role::Tank),
                    healer == has_role(self.available_jobs@.take(i as int), Role::Healer),
                    dps == has_role(self.available_jobs@.take(i as int), Role::DPS),
                decreases self.available_jobs@.len() - i,
            {
                let ghost pre = self.available_jobs@.take(i as int);
                let r = self.available_jobs[i].get_role();
                if matches!(r, Role::Tank) {
                    tank = true;
                }
                if matches!(r, Role::Healer) {
                    healer = true;
                }
                if matches!(r, Role::DPS) {
                    dps = true;
                }
                i = i + 1;
                proof {
                    let cur = self.available_jobs@.take(i as int);
                    lemma_has_role_take_step(self.available_jobs@, i as int, Role::Tank);
                    lemma_has_role_take_step(self.available_jobs@, i as int, Role::Healer);
                    lemma_has_role_take_step(self.available_jobs@, i as int, Role::DPS);
                }
            }
            proof {
                assert(self.available_jobs@.take(self.available_jobs@.len() as int)
                    =~= self.available_jobs@);
            }
            if tank && healer && dps {
                String::from_str("<:tankhealerdps:985322491398459482>")
            } else if tank && healer && !dps {
                String::from_str("<:tankhealer:985322490375049246>")
            } else if tank && !healer && dps {
                String::from_str("<:tankdps:985322489422958662>")
            } else if tank && !healer && !dps {
                String::from_str("<:tank:985322488332443668>")
            } else if !tank && healer && dps {
                String::from_str("<:healerdps:985322474923233390>")
            } else if !tank && healer && !dps {
                String::from_str("<:healer:985322474134704138>")
            } else if !tank && !healer && dps {
                String::from_str("<:dps:985322470326280213>")
            } else {
                let s = String::new();
                proof {
                    assert(s@ =~= slot_icon(self@));
                }
                s
            }
        }
    }
}

/// Extending the prefix by one job adds exactly that job's role.
proof fn lemma_has_role_take_step(jobs: Seq<Job>, i: int, r: Role)
    requires
        0 < i <= jobs.len(),
    ensures
        has_role(jobs.take(i), r) == (has_role(jobs.take(i - 1), r) || role_of(jobs[i - 1]) == r),
{
    let pre = jobs.take(i - 1);
    let cur = jobs.take(i);
    if has_role(cur, r) {
        let w = choose|w: int| 0 <= w < cur.len() && role_of(#[trigger] cur[w]) == r;
        if w < i - 1 {
            assert(pre[w] == cur[w]);
            assert(has_role(pre, r));
        } else {
            assert(cur[w] == jobs[i - 1]);
        }
    }
    if has_role(pre, r) {
        let w = choose|w: int| 0 <= w < pre.len() && role_of(#[trigger] pre[w]) == r;
        assert(cur[w] == pre[w]);
        assert(has_role(cur, r));
    }
    if role_of(jobs[i - 1]) == r {
        assert(cur[i - 1] == jobs[i - 1]);
        assert(has_role(cur, r));
    }
}

/// The per-job lines of the debug rendering of a job list.
pub open spec fn jobs_debug_lines(jobs: Seq<Job>) -> Seq<char>
    decreases jobs.len(),
{
    if jobs.len() == 0 {
        Seq::<char>::empty()
    } else {
        jobs_debug_lines(jobs.drop_last()) + "    "@ + job_name(jobs.last()) + ",\n"@
    }
}

/// The debug rendering of a job list, in the pretty multi-line shape.
pub open spec fn jobs_debug(jobs: Seq<Job>) -> Seq<char> {
    if jobs.len() == 0 {
        "[]"@
    } else {
        "[\n"@ + jobs_debug_lines(jobs) + "]"@
    }
}

/// The debug rendering of a whole slot.
pub open spec fn slot_debug(s: SlotView) -> Seq<char> {
    "Slot("@ + jobs_debug(s.available_jobs) + ", "@ + (if s.filled {
        "true"@
    } else {
        "false"@
    }) + ")"@
}

} // verus!
