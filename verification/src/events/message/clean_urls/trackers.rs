use vstd::prelude::*;

verus! {

/// The names of the query parameters that track the reader of a link.
pub open spec fn tracker_names() -> Seq<Seq<char>> {
    seq![
        "utm_source"@,
        "utm_medium"@,
        "utm_term"@,
        "utm_campaign"@,
        "utm_content"@,
        "utm_name"@,
        "utm_cid"@,
        "utm_reader"@,
        "utm_viz_id"@,
        "utm_pubreferrer"@,
        "utm_swu"@,
        "ICID"@,
        "icid"@,
        "_hsenc"@,
        "_hsmi"@,
        "mkt_tok"@,
        "mc_cid"@,
        "mc_eid"@,
        "ns_source"@,
        "ns_mchannel"@,
        "ns_campaign"@,
        "ns_linkname"@,
        "ns_fee"@,
        "sr_share"@,
        "vero_conv"@,
        "vero_id"@,
        "fbclid"@,
        "igshid"@,
        "srcid"@,
        "gclid"@,
        "ocid"@,
        "ncid"@,
        "nr_email_referer"@,
        "ref"@,
        "spm"@,
    ]
}

/// Whether a query parameter of that name tracks the reader.
pub open spec fn is_tracker(name: Seq<char>) -> bool {
    tracker_names().contains(name)
}

/// The names of the query parameters that track the reader of a link: those of Google's
/// Urchin module, of Adobe, Hubspot, Marketo, MailChimp, comScore, Simple Reach and Vero,
/// the click identifiers of Facebook, Instagram and Google, and a few of unknown or mixed
/// origin.
pub fn trackers() -> (names: Vec<&'static str>)
    ensures
        names@.len() == tracker_names().len(),
        forall|i: int| 0 <= i < names@.len() ==> (#[trigger] names@[i])@ == tracker_names()[i],
{
    vec![
        "utm_source",
        "utm_medium",
        "utm_term",
        "utm_campaign",
        "utm_content",
        "utm_name",
        "utm_cid",
        "utm_reader",
        "utm_viz_id",
        "utm_pubreferrer",
        "utm_swu",
        "ICID",
        "icid",
        "_hsenc",
        "_hsmi",
        "mkt_tok",
        "mc_cid",
        "mc_eid",
        "ns_source",
        "ns_mchannel",
        "ns_campaign",
        "ns_linkname",
        "ns_fee",
        "sr_share",
        "vero_conv",
        "vero_id",
        "fbclid",
        "igshid",
        "srcid",
        "gclid",
        "ocid",
        "ncid",
        "nr_email_referer",
        "ref",
        "spm",
    ]
}

} // verus!
