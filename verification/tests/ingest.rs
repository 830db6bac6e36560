use careerbot::ingest::{
    insert_verdict, InsertVerdict, email_body, email_subject, fan_out, is_duplicate_insert, job_line, microsoft_job_record, user_line, MicrosoftJob,
    RecordError,
};

fn sample(date: &str) -> MicrosoftJob {
    MicrosoftJob {
        job_id: "1790000".to_string(),
        title: "Software Engineer".to_string(),
        posting_date: date.to_string(),
        description: "Build things".to_string(),
        discipline: "Software Engineering".to_string(),
        employment_type: "Full-Time".to_string(),
        job_type: "Individual Contributor".to_string(),
        locations: vec!["Redmond, Washington, United States".to_string()],
        primary_location: "Redmond".to_string(),
        profession: "Engineering".to_string(),
        role_type: "Hybrid".to_string(),
        work_site_flexibility: "Up to 50% work from home".to_string(),
    }
}

#[test]
fn microsoft_results_become_tagged_records() {
    let rec = match microsoft_job_record(sample("2025-01-02T03:04:05+00:00")) {
        Ok(r) => r,
        Err(_) => panic!("the date is RFC 3339"),
    };
    assert_eq!(rec.company_tag, "MSFT");
    assert_eq!(rec.job_portal_id, "1790000");
    assert_eq!(rec.description.as_deref(), Some("Build things"));
    assert_eq!(rec.employment_type.as_deref(), Some("Full-Time"));
    assert_eq!(rec.location, Some(vec!["Redmond, Washington, United States".to_string()]));
    assert_eq!(
        rec.other_data,
        Some(vec![
            "Individual Contributor".to_string(),
            "Redmond".to_string(),
            "Software Engineering".to_string(),
            "Engineering".to_string(),
            "Hybrid".to_string(),
            "Up to 50% work from home".to_string(),
        ])
    );
}

#[test]
fn malformed_posting_dates_are_rejected() {
    match microsoft_job_record(sample("yesterday")) {
        Err(RecordError::InvalidPostDate(d)) => assert_eq!(d, "yesterday"),
        Ok(_) => panic!("not a date"),
    }
}

#[test]
fn duplicate_inserts_are_recognised() {
    assert!(is_duplicate_insert("error returned from database: duplicate key value violates unique constraint"));
    assert!(!is_duplicate_insert("connection reset"));
}

#[test]
fn every_user_gets_every_channel() {
    assert_eq!(fan_out(2, 3), vec![(0, 0), (0, 1), (0, 2), (1, 0), (1, 1), (1, 2)]);
    assert!(fan_out(0, 3).is_empty());
    assert!(fan_out(4, 0).is_empty());
}

#[test]
fn alert_texts() {
    assert_eq!(email_subject("MSFT"), "New Job Alert: MSFT");
    let line = job_line("MSFT", "1", "SWE", "2025-01-02 03:04:05 UTC");
    assert_eq!(line, "Company: MSFT, Job Portal ID: 1, Title: SWE, Post Date: 2025-01-02 03:04:05 UTC");
    assert_eq!(email_body(&line), format!("New job posted for {line}"));
    assert_eq!(user_line("a@b.c"), "Email: a@b.c");
}

#[test]
fn insert_outcomes_are_classified() {
    assert_eq!(insert_verdict(None), InsertVerdict::Inserted);
    assert_eq!(insert_verdict(Some("error: duplicate key value violates unique constraint")), InsertVerdict::Duplicate);
    assert_eq!(insert_verdict(Some("connection reset")), InsertVerdict::Failed);
}
