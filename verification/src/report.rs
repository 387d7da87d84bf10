use vstd::prelude::*;

use crate::config::ReportType;

verus! {

broadcast use vstd::string::group_string_axioms;

/// The subject line of a report mail.
pub open spec fn subject_text(report_type: ReportType, website_name: Seq<char>, date: Seq<char>) -> Seq<
    char,
> {
    report_type.label() + " Analytics Report - "@ + website_name + " - "@ + date
}

/// The subject line of a report mail, such as
/// "Daily Analytics Report - example.io - January 05, 2025".
pub fn report_subject(report_type: ReportType, website_name: &str, date: &str) -> (r: String)
    ensures
        r@ == subject_text(report_type, website_name@, date@),
        report_type == ReportType::Daily ==> r@ == "Daily"@ + " Analytics Report - "@
            + website_name@ + " - "@ + date@,
        report_type == ReportType::Weekly ==> r@ == "Weekly"@ + " Analytics Report - "@
            + website_name@ + " - "@ + date@,
{
    report_type.to_string().concat(" Analytics Report - ").concat(website_name).concat(
        " - ",
    ).concat(date)
}

/// A subject line names the report's kind first ("Daily" or "Weekly"),
/// then " Analytics Report - ", the website's name, " - " and the date last;
/// so subjects of different kinds differ.
pub proof fn lemma_subject_parts(report_type: ReportType, website_name: Seq<char>, date: Seq<char>)
    ensures
        ({
            let s = subject_text(report_type, website_name, date);
            let word = if report_type == ReportType::Daily {
                "Daily"@
            } else {
                "Weekly"@
            };
            &&& s.subrange(0, word.len() as int) == word
            &&& s.subrange(word.len() as int, (word.len() + 20) as int) == " Analytics Report - "@
            &&& s.subrange((word.len() + 20) as int, (word.len() + 20 + website_name.len()) as int) == website_name
            &&& s.subrange(s.len() - date.len(), s.len() as int) == date
        }),
        subject_text(ReportType::Daily, website_name, date) != subject_text(
            ReportType::Weekly,
            website_name,
            date,
        ),
{
    reveal_strlit("Daily");
    reveal_strlit("Weekly");
    reveal_strlit(" Analytics Report - ");
    reveal_strlit(" - ");
    let s = subject_text(report_type, website_name, date);
    let word = report_type.label();
    let t = " Analytics Report - "@;
    assert(s == word + t + website_name + " - "@ + date);
    assert(s.subrange(0, word.len() as int) =~= word);
    assert(s.subrange(word.len() as int, (word.len() + 20) as int) =~= t);
    assert(s.subrange((word.len() + 20) as int, (word.len() + 20 + website_name.len()) as int) =~= website_name);
    assert(s.subrange(s.len() - date.len(), s.len() as int) =~= date);
    let d = subject_text(ReportType::Daily, website_name, date);
    let w = subject_text(ReportType::Weekly, website_name, date);
    assert(d.len() != w.len());
}

/// The metrics a report lists and how many top values of each.
pub open spec fn report_metrics() -> Seq<(Seq<char>, u32)> {
    seq![("url"@, 10u32), ("country"@, 10u32), ("browser"@, 5u32), ("device"@, 5u32), ("referrer"@, 5u32)]
}

/// The metrics a report lists, in order: the top ten pages and countries,
/// the top five browsers, devices and referrers.
pub fn metric_queries() -> (r: Vec<(&'static str, u32)>)
    ensures
        r@.map_values(|q: (&'static str, u32)| (q.0@, q.1)) == report_metrics(),
{
    let mut r: Vec<(&'static str, u32)> = Vec::new();
    r.push(("url", 10));
    r.push(("country", 10));
    r.push(("browser", 5));
    r.push(("device", 5));
    r.push(("referrer", 5));
    assert(r@.map_values(|q: (&'static str, u32)| (q.0@, q.1)) =~= report_metrics());
    r
}

} // verus!
