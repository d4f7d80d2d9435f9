use xivpf::jobs::Job;
use xivpf::parse::{get_listings, parse_listing};

fn sample_listing_html(author: &str, flags_span: &str) -> String {
    let mut s = String::new();
    s.push_str("<div class=\"listing\" data-centre=\"Crystal\" data-pf-category=\"HighEndDuty\">");
    s.push_str("<div class=\"duty\">The Epic of Alexander (Ultimate)</div>");
    s.push_str("<div class=\"description\">");
    s.push_str(flags_span);
    s.push_str("Fresh prog @ P1  </div>");
    s.push_str("<div class=\"creator\"><span class=\"text\">");
    s.push_str(author);
    s.push_str("</span></div>");
    s.push_str("<div class=\"party\">");
    s.push_str("<div class=\"slot filled\" title=\"PLD WAR\"></div>");
    s.push_str("<div class=\"slot\" title=\"WHM SCH AST\"></div>");
    s.push_str("<div class=\"slot\" title=\"BLM SMN NIN RGE\"></div>");
    s.push_str("<div class=\"slot\"></div>");
    s.push_str("</div>");
    s.push_str("<div class=\"middle\"><div class=\"stat\"><div class=\"value\">600</div></div></div>");
    s.push_str("<div class=\"expires\"><span class=\"text\">in 30 minutes</span></div>");
    s.push_str("<div class=\"updated\"><span class=\"text\">5 minutes ago</span></div>");
    s.push_str("</div>");
    s
}

#[test]
fn parse_listing_extracts_every_field() {
    let html = sample_listing_html("Cool_Guy", "<span>[Practice]  </span>");
    let l = parse_listing(&html).expect("a well-formed listing parses");
    assert_eq!(l.title, "The Epic of Alexander (Ultimate)");
    // The author is sanitized: the underscore is escaped.
    assert_eq!(l.author, "Cool\\_Guy");
    // Flags keep their text, end-trimmed, unsanitized.
    assert_eq!(l.flags, "[Practice]");
    // The description is the last text node, end-trimmed and sanitized.
    assert_eq!(l.description, "Fresh prog @\u{200B} P1");
    assert_eq!(l.last_updated, "5 minutes ago");
    assert_eq!(l.expires_in, "in 30 minutes");
    assert_eq!(l.min_ilvl, "600");
    assert_eq!(l.data_center, "Crystal");
    assert_eq!(l.pf_category, "HighEndDuty");
    // The slot without attributes is dropped; the legacy "RGE" code maps to
    // the same job as "ROG".
    assert_eq!(l.slots.len(), 3);
    assert!(l.slots[0].filled);
    assert_eq!(l.slots[0].available_jobs, vec![Job::Paladin, Job::Warrior]);
    assert!(!l.slots[1].filled);
    assert_eq!(
        l.slots[1].available_jobs,
        vec![Job::WhiteMage, Job::Scholar, Job::Astrologian]
    );
    assert_eq!(
        l.slots[2].available_jobs,
        vec![Job::BlackMage, Job::Summoner, Job::Ninja, Job::Rogue]
    );
}

#[test]
fn parse_listing_drops_a_record_missing_a_required_field() {
    let html = "<div class=\"listing\" data-centre=\"Aether\">\
                <div class=\"description\">no duty element</div></div>";
    assert!(parse_listing(html).is_none());
}

#[test]
fn parse_listing_without_a_flags_span_gets_empty_flags() {
    let html = sample_listing_html("someone", "");
    let l = parse_listing(&html).expect("parses");
    assert_eq!(l.flags, "");
}

#[test]
fn empty_description_falls_back_to_the_literal_none() {
    let mut html = String::new();
    html.push_str("<div class=\"listing\" data-centre=\"Crystal\" data-pf-category=\"c\">");
    html.push_str("<div class=\"duty\">Duty</div>");
    html.push_str("<div class=\"description\">   </div>");
    html.push_str("<div class=\"creator\"><span class=\"text\">a</span></div>");
    html.push_str("<div class=\"middle\"><div class=\"stat\"><div class=\"value\">1</div></div></div>");
    html.push_str("<div class=\"expires\"><span class=\"text\">e</span></div>");
    html.push_str("<div class=\"updated\"><span class=\"text\">u</span></div>");
    html.push_str("</div>");
    let l = parse_listing(&html).expect("parses");
    assert_eq!(l.description, "None.");
    assert_eq!(l.slots.len(), 0);
}

#[test]
fn get_listings_parses_a_document_and_deduplicates_authors() {
    let mut doc = String::from("<html><body>");
    doc.push_str(&sample_listing_html("alice", "<span>[Practice]</span>"));
    doc.push_str(&sample_listing_html("alice", "<span>[Practice][Duty Completion]</span>"));
    doc.push_str(&sample_listing_html("bob", ""));
    // A malformed record never aborts the whole parse.
    doc.push_str("<div class=\"listing\"><div class=\"duty\">broken</div></div>");
    doc.push_str("</body></html>");

    let listings = get_listings(doc);
    assert_eq!(listings.len(), 2);
    assert_eq!(listings[0].author, "alice");
    assert_eq!(listings[0].flags, "[Practice][Duty Completion]");
    assert_eq!(listings[1].author, "bob");
    assert_eq!(listings[1].flags, "");
}
