//! The ingestion and notification services' decisions: how a careers
//! API entry becomes a job record, which failed inserts are duplicates,
//! which deliveries a new job fans out to, and the alert e-mail's text.
use crate::text::{concat2, contains, contains_spec, owned};
use vstd::prelude::*;

verus! {

/// The fields of one Microsoft careers search result the collector
/// reads.
pub struct MicrosoftJob {
    pub job_id: String,
    pub title: String,
    pub posting_date: String,
    pub description: String,
    pub discipline: String,
    pub employment_type: String,
    pub job_type: String,
    pub locations: Vec<String>,
    pub primary_location: String,
    pub profession: String,
    pub role_type: String,
    pub work_site_flexibility: String,
}

/// A collected job before it is stored: everything but the identifier
/// and creation time the store assigns. The posting date is RFC 3339
/// text.
pub struct JobRecord {
    pub company_tag: String,
    pub job_portal_id: String,
    pub title: String,
    pub description: Option<String>,
    pub employment_type: Option<String>,
    pub location: Option<Vec<String>>,
    pub other_data: Option<Vec<String>>,
    pub post_date: String,
}

/// Whether `chrono::DateTime::parse_from_rfc3339` accepts a text.
pub uninterp spec fn rfc3339_accepted_spec(s: Seq<char>) -> bool;

/// `chrono::DateTime::parse_from_rfc3339`, reduced to whether it
/// succeeds, which depends on the text alone. The grammar is not
/// restated; acceptance is named.
#[verifier::external_body]
fn rfc3339_accepted(s: &str) -> (r: bool)
    ensures
        r == rfc3339_accepted_spec(s@),
{
    chrono::DateTime::parse_from_rfc3339(s).is_ok()
}

/// Why a search result cannot become a job record.
#[derive(Debug)]
pub enum RecordError {
    /// The posting date is not RFC 3339.
    InvalidPostDate(String),
}

/// The view of a list of strings.
pub open spec fn strings_view(v: Seq<String>) -> Seq<Seq<char>> {
    v.map_values(|s: String| s@)
}

/// Turns a Microsoft search result into a job record tagged `MSFT`. The
/// extra data lists job type, primary location, discipline, profession,
/// role type and work-site flexibility, in that order.
pub fn microsoft_job_record(j: MicrosoftJob) -> (r: Result<JobRecord, RecordError>)
    ensures
        !rfc3339_accepted_spec(j.posting_date@) ==> (r matches Err(RecordError::InvalidPostDate(d)) && d@
            == j.posting_date@),
        rfc3339_accepted_spec(j.posting_date@) ==> (r matches Ok(rec) && {
            &&& rec.company_tag@ == "MSFT"@
            &&& rec.job_portal_id@ == j.job_id@
            &&& rec.title@ == j.title@
            &&& rec.post_date@ == j.posting_date@
            &&& rec.description matches Some(d) && d@ == j.description@
            &&& rec.employment_type matches Some(e) && e@ == j.employment_type@
            &&& rec.location matches Some(l) && strings_view(l@) == strings_view(j.locations@)
            &&& rec.other_data matches Some(o) && strings_view(o@) == seq![
                j.job_type@,
                j.primary_location@,
                j.discipline@,
                j.profession@,
                j.role_type@,
                j.work_site_flexibility@,
            ]
        }),
{
    if !rfc3339_accepted(j.posting_date.as_str()) {
        return Err(RecordError::InvalidPostDate(j.posting_date));
    }
    let MicrosoftJob {
        job_id,
        title,
        posting_date,
        description,
        discipline,
        employment_type,
        job_type,
        locations,
        primary_location,
        profession,
        role_type,
        work_site_flexibility,
    } = j;
    let mut other: Vec<String> = Vec::new();
    other.push(job_type);
    other.push(primary_location);
    other.push(discipline);
    other.push(profession);
    other.push(role_type);
    other.push(work_site_flexibility);
    let ghost other_v = other@;
    proof {
        assert(strings_view(other_v) =~= seq![
            other_v[0]@,
            other_v[1]@,
            other_v[2]@,
            other_v[3]@,
            other_v[4]@,
            other_v[5]@,
        ]);
    }
    Ok(
        JobRecord {
            company_tag: owned("MSFT"),
            job_portal_id: job_id,
            title,
            description: Some(description),
            employment_type: Some(employment_type),
            location: Some(locations),
            other_data: Some(other),
            post_date: posting_date,
        },
    )
}

/// Whether a failed insert only met an existing job: its error text
/// mentions `duplicate`.
pub fn is_duplicate_insert(error_text: &str) -> (r: bool)
    ensures
        r == contains_spec(error_text@, "duplicate"@),
{
    contains(error_text, "duplicate")
}

/// What became of one job's insert.
#[derive(Debug, PartialEq, Eq, Structural)]
pub enum InsertVerdict {
    /// Stored: the job is new and is announced.
    Inserted,
    /// Already stored: skipped quietly.
    Duplicate,
    /// Failed otherwise: skipped and reported.
    Failed,
}

/// Classifies an insert by the error it returned, if any: no error is a
/// new job, a duplicate-key error a known one, any other error a failure.
/// Only inserted jobs are announced.
pub fn insert_verdict(error_text: Option<&str>) -> (v: InsertVerdict)
    ensures
        error_text is None ==> v == InsertVerdict::Inserted,
        error_text matches Some(t) ==> (contains_spec(t@, "duplicate"@) ==> v == InsertVerdict::Duplicate),
        error_text matches Some(t) ==> (!contains_spec(t@, "duplicate"@) ==> v == InsertVerdict::Failed),
{
    match error_text {
        None => InsertVerdict::Inserted,
        Some(t) => if is_duplicate_insert(t) {
            InsertVerdict::Duplicate
        } else {
            InsertVerdict::Failed
        },
    }
}

/// The deliveries a new job fans out to, for `users` interested users
/// and `channels` enabled channels: every user on every channel, user by
/// user, each as (user index, channel index).
pub fn fan_out(users: usize, channels: usize) -> (r: Vec<(usize, usize)>)
    requires
        users * channels <= usize::MAX,
    ensures
        r@.len() == users * channels,
        forall|u: int, c: int|
            0 <= u < users && 0 <= c < channels ==> #[trigger] r@[u * channels + c] == (u as usize, c as usize),
{
    let mut r: Vec<(usize, usize)> = Vec::new();
    let mut u: usize = 0;
    while u < users
        invariant
            u <= users,
            users * channels <= usize::MAX,
            r@.len() == u * channels,
            forall|a: int, c: int|
                0 <= a < u && 0 <= c < channels ==> #[trigger] r@[a * channels + c] == (a as usize, c as usize),
        decreases users - u,
    {
        let mut c: usize = 0;
        proof {
            assert((u + 1) * channels <= users * channels) by (nonlinear_arith)
                requires
                    u < users,
            ;
            assert((u + 1) * channels == u * channels + channels) by (nonlinear_arith);
        }
        while c < channels
            invariant
                u < users,
                c <= channels,
                (u + 1) * channels <= usize::MAX,
                (u + 1) * channels == u * channels + channels,
                r@.len() == u * channels + c,
                forall|a: int, d: int|
                    0 <= a < u && 0 <= d < channels ==> #[trigger] r@[a * channels + d] == (a as usize, d as usize),
                forall|d: int| 0 <= d < c ==> #[trigger] r@[u * channels + d] == (u, d as usize),
            decreases channels - c,
        {
            r.push((u, c));
            proof {
                assert forall|a: int, d: int|
                    0 <= a < u && 0 <= d < channels implies #[trigger] r@[a * channels + d] == (a as usize, d as usize) by {
                    assert(a * channels + d < u * channels) by (nonlinear_arith)
                        requires
                            0 <= a < u,
                            0 <= d < channels,
                    ;
                }
            }
            c = c + 1;
        }
        proof {
            assert forall|a: int, d: int|
                0 <= a < u + 1 && 0 <= d < channels implies #[trigger] r@[a * channels + d] == (a as usize, d as usize) by {
                if a == u {
                } else {
                }
            }
        }
        u = u + 1;
    }
    r
}

/// The subject of the alert e-mail for a job of `company_tag`.
pub fn email_subject(company_tag: &str) -> (r: String)
    ensures
        r@ == "New Job Alert: "@ + company_tag@,
{
    concat2("New Job Alert: ", company_tag)
}

/// The body of the alert e-mail, given the job's one-line description.
pub fn email_body(job_text: &str) -> (r: String)
    ensures
        r@ == "New job posted for "@ + job_text@,
{
    concat2("New job posted for ", job_text)
}

/// The one-line description of a job: company, portal id, title and
/// posting date (as the caller renders it).
pub fn job_line(company_tag: &str, job_portal_id: &str, title: &str, post_date: &str) -> (r: String)
    ensures
        r@ == "Company: "@ + company_tag@ + ", Job Portal ID: "@ + job_portal_id@ + ", Title: "@ + title@
            + ", Post Date: "@ + post_date@,
{
    let mut r = concat2("Company: ", company_tag);
    r.append(", Job Portal ID: ");
    r.append(job_portal_id);
    r.append(", Title: ");
    r.append(title);
    r.append(", Post Date: ");
    r.append(post_date);
    r
}

/// The one-line description of a user.
pub fn user_line(email: &str) -> (r: String)
    ensures
        r@ == "Email: "@ + email@,
{
    concat2("Email: ", email)
}

} // verus!
