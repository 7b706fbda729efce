//! The text of chase emails.
use vstd::prelude::*;
use crate::text::{concat, str_eq};

verus! {

/// The subject and body of a chase email in tone `tone` about `context`:
/// `firm` gives the urgent text; any other tone the polite one.
pub open spec fn email_text(tone: Seq<char>, context: Seq<char>) -> (Seq<char>, Seq<char>) {
    if tone == "firm"@ {
        (
            "Urgent: Payment Required"@,
            "Dear Client,\n\nThis is an urgent reminder regarding "@ + context + ". Payment is now overdue and requires immediate attention.\n\nWe have previously sent reminders, and we need to receive payment as soon as possible. Please arrange payment immediately to avoid further action.\n\nWe look forward to resolving this matter promptly.\n\nBest regards,\nGigPilot"@,
        )
    } else {
        (
            "Friendly Reminder: Payment Due"@,
            "Dear Client,\n\nThis is a friendly reminder regarding "@ + context + ". We hope this message finds you well.\n\nWe wanted to gently remind you that payment is now due. We appreciate your prompt attention to this matter.\n\nThank you for your business!\n\nBest regards,\nGigPilot"@,
        )
    }
}

/// Why an email could not be produced.
#[derive(Debug, Clone, Copy, PartialEq, Eq, Structural)]
pub enum ServiceError {
    Unavailable,
}

/// Writes the subject and body of a chase email. A tone other than `polite`
/// or `firm` falls back to `polite`.
pub fn generate_email(tone: &str, context: &str) -> (r: Result<(String, String), ServiceError>)
    ensures
        r is Ok,
        r is Ok ==> (r.unwrap().0@, r.unwrap().1@) == email_text(tone@, context@),
{
    if str_eq(tone, "firm") {
        let subject = "Urgent: Payment Required".to_owned();
        let head = concat("Dear Client,\n\nThis is an urgent reminder regarding ", context);
        let body = concat(
            head.as_str(),
            ". Payment is now overdue and requires immediate attention.\n\nWe have previously sent reminders, and we need to receive payment as soon as possible. Please arrange payment immediately to avoid further action.\n\nWe look forward to resolving this matter promptly.\n\nBest regards,\nGigPilot",
        );
        Ok((subject, body))
    } else {
        let subject = "Friendly Reminder: Payment Due".to_owned();
        let head = concat("Dear Client,\n\nThis is a friendly reminder regarding ", context);
        let body = concat(
            head.as_str(),
            ". We hope this message finds you well.\n\nWe wanted to gently remind you that payment is now due. We appreciate your prompt attention to this matter.\n\nThank you for your business!\n\nBest regards,\nGigPilot",
        );
        Ok((subject, body))
    }
}

} // verus!
