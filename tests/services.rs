use gigpilot_core::services::generate_email;

#[test]
fn test_generate_polite_email() {
    let (subject, body) = generate_email("polite", "Invoice INV-001").expect("Should generate email");
    assert!(subject.contains("Friendly"));
    assert!(body.contains("friendly reminder"));
}

#[test]
fn test_generate_firm_email() {
    let (subject, body) = generate_email("firm", "Invoice INV-001").expect("Should generate email");
    assert!(subject.contains("Urgent"));
    assert!(body.contains("overdue"));
}

#[test]
fn unknown_tone_falls_back_to_polite() {
    let polite = generate_email("polite", "ctx").unwrap();
    let other = generate_email("shouty", "ctx").unwrap();
    assert_eq!(polite, other);
}

#[test]
fn polite_email_exact_text() {
    let (subject, body) = generate_email("polite", "Invoice INV-9").unwrap();
    assert_eq!(subject, "Friendly Reminder: Payment Due");
    assert_eq!(
        body,
        "Dear Client,\n\nThis is a friendly reminder regarding Invoice INV-9. We hope this message finds you well.\n\nWe wanted to gently remind you that payment is now due. We appreciate your prompt attention to this matter.\n\nThank you for your business!\n\nBest regards,\nGigPilot"
    );
}
