//! Parsing raw markup into the typed listing model, fail-soft per record, and
//! the parsed snapshot a scrape cycle produces.

use vstd::prelude::*;
use vstd::string::StrSliceExecFns;
use vstd::string::StringExecFns;
use crate::dedup::{dedup_listings, has_author, is_kept_value, kept_in_order};
use crate::extract::{
    attr_of, attr_pairs_of, first_text_of, fragments_of, has_element, last_text_of,
    select_attr_pairs, select_first_attr, select_first_text, select_fragments, select_last_text,
    selector_hits,
};
use crate::jobs::{job_from_code, Job};
use crate::listing::{ListingView, PFListing, Slot, SlotView};
use crate::sanitize::{sanitize, sanitize_spec};
use crate::text::{chars_to_string, contains_seq, contains_sub, str_to_chars, trim_end, trim_end_spec};

verus! {

/// The tokens of a text split at every single space character.
pub open spec fn split_sp(s: Seq<char>) -> Seq<Seq<char>>
    decreases s.len(),
{
    if s.len() == 0 {
        seq![Seq::<char>::empty()]
    } else if s.last() == ' ' {
        split_sp(s.drop_last()) + seq![Seq::<char>::empty()]
    } else {
        let r = split_sp(s.drop_last());
        r.update(r.len() - 1, r.last().push(s.last()))
    }
}

/// A split always yields at least one token.
proof fn lemma_split_sp_len(s: Seq<char>)
    ensures
        split_sp(s).len() >= 1,
    decreases s.len(),
{
    if s.len() > 0 {
        lemma_split_sp_len(s.drop_last());
    }
}

/// The jobs a token stands for: one job where the code table recognizes it,
/// none otherwise.
pub open spec fn code_seq(t: Seq<char>) -> Seq<Job> {
    match job_from_code(t) {
        Some(j) => seq![j],
        None => Seq::<Job>::empty(),
    }
}

/// The jobs of a token sequence, unrecognized tokens discarded.
pub open spec fn jobs_of_tokens(ts: Seq<Seq<char>>) -> Seq<Job>
    decreases ts.len(),
{
    if ts.len() == 0 {
        Seq::<Job>::empty()
    } else {
        jobs_of_tokens(ts.drop_last()) + code_seq(ts.last())
    }
}

/// The acceptable-job list of a slot attribute: split at spaces, mapped
/// through the job code table, unknown codes tolerated and dropped.
pub open spec fn jobs_of_attr(t: Seq<char>) -> Seq<Job> {
    jobs_of_tokens(split_sp(t))
}

/// The slot a pair of `title` and `class` attributes stands for; a slot
/// lacking either attribute is dropped.
pub open spec fn parse_slot_spec(p: (Option<Seq<char>>, Option<Seq<char>>)) -> Option<SlotView> {
    match p {
        (Some(t), Some(c)) => Some(
            SlotView { available_jobs: jobs_of_attr(t), filled: contains_seq(c, "filled"@) },
        ),
        _ => None,
    }
}

/// The slots of a listing element, malformed ones dropped.
pub open spec fn slots_of(pairs: Seq<(Option<Seq<char>>, Option<Seq<char>>)>) -> Seq<SlotView>
    decreases pairs.len(),
{
    if pairs.len() == 0 {
        Seq::<SlotView>::empty()
    } else {
        slots_of(pairs.drop_last()) + (match parse_slot_spec(pairs.last()) {
            Some(s) => seq![s],
            None => Seq::<SlotView>::empty(),
        })
    }
}

/// The listing assembled from its extracted fields.
pub open spec fn assemble_listing(
    f: Seq<char>,
    title: Seq<char>,
    author: Seq<char>,
    flags: Seq<char>,
    desc: Seq<char>,
    expires: Seq<char>,
    updated: Seq<char>,
    ilvl: Seq<char>,
    dc: Seq<char>,
    cat: Seq<char>,
) -> ListingView {
    let d0 = trim_end_spec(desc);
    let d1 = if d0.len() == 0 {
        "None."@
    } else {
        d0
    };
    ListingView {
        title: title,
        author: sanitize_spec(author),
        flags: flags,
        description: sanitize_spec(d1),
        slots: slots_of(attr_pairs_of(f, ".party .slot"@, "title"@, "class"@)),
        last_updated: updated,
        expires_in: expires,
        min_ilvl: ilvl,
        data_center: dc,
        pf_category: cat,
    }
}

/// The listing a candidate element parses to, or nothing where any required
/// field cannot be extracted — a malformed record never aborts the whole
/// parse.
pub open spec fn parse_listing_spec(f: Seq<char>) -> Option<ListingView> {
    match (
        first_text_of(f, ".duty"@),
        first_text_of(f, ".creator .text"@),
        last_text_of(f, ".description"@),
        last_text_of(f, ".expires .text"@),
        last_text_of(f, ".updated .text"@),
        last_text_of(f, ".middle .stat .value"@),
        attr_of(f, ".listing"@, "data-centre"@),
        attr_of(f, ".listing"@, "data-pf-category"@),
    ) {
        (
            Some(title),
            Some(author),
            Some(desc),
            Some(expires),
            Some(updated),
            Some(ilvl),
            Some(dc),
            Some(cat),
        ) => {
            if has_element(f, ".description span"@) {
                match first_text_of(f, ".description span"@) {
                    Some(fl) => Some(
                        assemble_listing(
                            f,
                            title,
                            author,
                            trim_end_spec(fl),
                            desc,
                            expires,
                            updated,
                            ilvl,
                            dc,
                            cat,
                        ),
                    ),
                    None => None,
                }
            } else {
                Some(
                    assemble_listing(
                        f,
                        title,
                        author,
                        Seq::<char>::empty(),
                        desc,
                        expires,
                        updated,
                        ilvl,
                        dc,
                        cat,
                    ),
                )
            }
        },
        _ => None,
    }
}

/// The listings of a fragment sequence, malformed records dropped.
pub open spec fn parsed_listings(frags: Seq<Seq<char>>) -> Seq<ListingView>
    decreases frags.len(),
{
    if frags.len() == 0 {
        Seq::<ListingView>::empty()
    } else {
        parsed_listings(frags.drop_last()) + (match parse_listing_spec(frags.last()) {
            Some(l) => seq![l],
            None => Seq::<ListingView>::empty(),
        })
    }
}

/// The parsed (not yet deduplicated) snapshot a raw document yields.
pub open spec fn snapshot_spec(html: Seq<char>) -> Seq<ListingView> {
    parsed_listings(fragments_of(html, ".listing"@))
}

/// Splits a slot attribute at spaces and maps each token through the job code
/// table, discarding unrecognized tokens.
fn parse_slot_jobs(attr: &str) -> (v: Vec<Job>)
    ensures
        v@ == jobs_of_attr(attr@),
{
    let chars = str_to_chars(attr);
    let n = chars.len();
    let mut jobs: Vec<Job> = Vec::new();
    let mut cur: Vec<char> = Vec::new();
    let mut i: usize = 0;
    proof {
        lemma_split_sp_len(attr@.take(0));
        assert(attr@.take(0) =~= Seq::<char>::empty());
        assert(split_sp(attr@.take(0)).drop_last() =~= Seq::<Seq<char>>::empty());
    }
    while i < n
        invariant
            chars@ == attr@,
            n == attr@.len(),
            i <= n,
            split_sp(attr@.take(i as int)).len() >= 1,
            cur@ == split_sp(attr@.take(i as int)).last(),
            jobs@ == jobs_of_tokens(split_sp(attr@.take(i as int)).drop_last()),
        decreases n - i,
    {
        let ghost pre = attr@.take(i as int);
        let ghost sp_pre = split_sp(pre);
        let c = chars[i];
        if c == ' ' {
            let tok = chars_to_string(&cur);
            let ghost old_jobs = jobs@;
            match Job::from_code(tok.as_str()) {
                Some(j) => { jobs.push(j) },
                None => {},
            }
            proof {
                assert(jobs@ =~= old_jobs + code_seq(cur@));
            }
            cur.clear();
        } else {
            cur.push(c);
        }
        i = i + 1;
        proof {
            let curseq = attr@.take(i as int);
            assert(curseq.drop_last() =~= pre);
            assert(curseq.last() == c);
            lemma_split_sp_len(curseq);
            if c == ' ' {
                assert(split_sp(curseq) == sp_pre + seq![Seq::<char>::empty()]);
                assert(split_sp(curseq).drop_last() =~= sp_pre);
                assert(split_sp(curseq).last() =~= Seq::<char>::empty());
                assert(jobs_of_tokens(sp_pre) == jobs_of_tokens(sp_pre.drop_last()) + code_seq(
                    sp_pre.last(),
                ));
            } else {
                let updated = sp_pre.update(sp_pre.len() - 1, sp_pre.last().push(c));
                assert(split_sp(curseq) == updated);
                assert(updated.drop_last() =~= sp_pre.drop_last());
                assert(updated.last() == sp_pre.last().push(c));
                assert(cur@ == updated.last());
            }
        }
    }
    let tok = chars_to_string(&cur);
    let ghost old_jobs = jobs@;
    match Job::from_code(tok.as_str()) {
        Some(j) => { jobs.push(j) },
        None => {},
    }
    proof {
        assert(attr@.take(n as int) =~= attr@);
        assert(jobs@ =~= old_jobs + code_seq(cur@));
        assert(jobs_of_attr(attr@) == jobs_of_tokens(split_sp(attr@).drop_last()) + code_seq(
            split_sp(attr@).last(),
        ));
    }
    jobs
}

/// Parses one candidate listing element; a missing required field drops the
/// record.
pub fn parse_listing(fragment: &str) -> (r: Option<PFListing>)
    ensures
        r.deep_view() == parse_listing_spec(fragment@),
{
    let title = match select_first_text(fragment, ".duty") {
        Some(t) => t,
        None => { return None },
    };
    let author = match select_first_text(fragment, ".creator .text") {
        Some(t) => t,
        None => { return None },
    };
    let desc = match select_last_text(fragment, ".description") {
        Some(t) => t,
        None => { return None },
    };
    let expires = match select_last_text(fragment, ".expires .text") {
        Some(t) => t,
        None => { return None },
    };
    let updated = match select_last_text(fragment, ".updated .text") {
        Some(t) => t,
        None => { return None },
    };
    let ilvl = match select_last_text(fragment, ".middle .stat .value") {
        Some(t) => t,
        None => { return None },
    };
    let dc = match select_first_attr(fragment, ".listing", "data-centre") {
        Some(t) => t,
        None => { return None },
    };
    let cat = match select_first_attr(fragment, ".listing", "data-pf-category") {
        Some(t) => t,
        None => { return None },
    };
    let flags: String = if selector_hits(fragment, ".description span") {
        match select_first_text(fragment, ".description span") {
            Some(t) => trim_end(t.as_str()),
            None => { return None },
        }
    } else {
        String::new()
    };

    let pairs = select_attr_pairs(fragment, ".party .slot", "title", "class");
    let ghost pv = pairs.deep_view();
    let mut slots: Vec<Slot> = Vec::new();
    let mut i: usize = 0;
    while i < pairs.len()
        invariant
            pv == pairs.deep_view(),
            pv == attr_pairs_of(fragment@, ".party .slot"@, "title"@, "class"@),
            i <= pv.len(),
            slots.deep_view() == slots_of(pv.take(i as int)),
        decreases pv.len() - i,
    {
        let ghost pre = pv.take(i as int);
        let ghost old_slots = slots.deep_view();
        match (&pairs[i].0, &pairs[i].1) {
            (Some(t), Some(c)) => {
                let jobs = parse_slot_jobs(t.as_str());
                let filled = contains_sub(c.as_str(), "filled");
                let s = Slot { available_jobs: jobs, filled };
                proof {
                    assert(pv[i as int] == pairs@[i as int].deep_view());
                    assert(parse_slot_spec(pv[i as int]) == Some(s@));
                }
                slots.push(s);
            },
            _ => {
                proof {
                    assert(pv[i as int] == pairs@[i as int].deep_view());
                    assert(parse_slot_spec(pv[i as int]) is None);
                }
            },
        }
        i = i + 1;
        proof {
            let cur = pv.take(i as int);
            assert(cur.drop_last() =~= pre);
            assert(cur.last() == pv[i - 1]);
            assert(slots.deep_view() =~= slots_of(cur));
        }
    }
    proof {
        assert(pv.take(pv.len() as int) =~= pv);
    }

    let description = trim_end(desc.as_str());
    let description = if description.as_str().unicode_len() == 0 {
        String::from_str("None.")
    } else {
        description
    };

    let l = PFListing {
        title,
        author: sanitize(author),
        flags,
        description: sanitize(description),
        slots,
        last_updated: updated,
        expires_in: expires,
        min_ilvl: ilvl,
        data_center: dc,
        pf_category: cat,
    };
    proof {
        assert(Some(l).deep_view() =~= parse_listing_spec(fragment@)) by {
            assert(l@ =~= parse_listing_spec(fragment@).unwrap());
        }
    }
    Some(l)
}

/// Parses a raw document into the deduplicated snapshot: each candidate
/// element is parsed independently (malformed records dropped), authors are
/// collapsed to their kept listing, and the result is ordered by descending
/// flags length.
pub fn get_listings(html: String) -> (r: Vec<PFListing>)
    ensures
        forall|p: int, q: int|
            0 <= p < q < r.deep_view().len() ==> (#[trigger] r.deep_view()[p]).author != (
            #[trigger] r.deep_view()[q]).author,
        forall|p: int|
            0 <= p < r.deep_view().len() ==> is_kept_value(
                snapshot_spec(html@),
                #[trigger] r.deep_view()[p],
            ),
        forall|k: int|
            0 <= k < snapshot_spec(html@).len() ==> has_author(
                r.deep_view(),
                (#[trigger] snapshot_spec(html@)[k]).author,
            ),
        forall|p: int, q: int|
            0 <= p < q < r.deep_view().len() ==> (#[trigger] r.deep_view()[p]).flags.len() >= (
            #[trigger] r.deep_view()[q]).flags.len(),
        forall|p: int, q: int|
            0 <= p < q < r.deep_view().len() ==> kept_in_order(
                snapshot_spec(html@),
                #[trigger] r.deep_view()[p],
                #[trigger] r.deep_view()[q],
            ),
{
    let frags = select_fragments(html.as_str(), ".listing");
    let ghost fv = frags.deep_view();
    let mut parsed: Vec<PFListing> = Vec::new();
    let mut i: usize = 0;
    while i < frags.len()
        invariant
            fv == frags.deep_view(),
            fv == fragments_of(html@, ".listing"@),
            i <= fv.len(),
            parsed.deep_view() == parsed_listings(fv.take(i as int)),
        decreases fv.len() - i,
    {
        let ghost pre = fv.take(i as int);
        let ghost old_parsed = parsed.deep_view();
        let r = parse_listing(frags[i].as_str());
        proof {
            assert(fv[i as int] == frags@[i as int]@);
        }
        match r {
            Some(l) => { parsed.push(l) },
            None => {},
        }
        i = i + 1;
        proof {
            let cur = fv.take(i as int);
            assert(cur.drop_last() =~= pre);
            assert(cur.last() == fv[i - 1]);
            assert(parsed.deep_view() =~= parsed_listings(cur));
        }
    }
    proof {
        assert(fv.take(fv.len() as int) =~= fv);
        assert(parsed.deep_view() == snapshot_spec(html@));
    }
    dedup_listings(&parsed)
}

} // verus!
