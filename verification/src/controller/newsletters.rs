//! The compute side of the newsletter endpoint: the publish payload and the
//! re-validation of stored recipient addresses.

use vstd::prelude::*;

verus! {

use crate::client::Email;
use crate::domain::email_address::{spec_parse_email, EmailAddress};
use crate::repo::ConfirmedSubscription;

/// The body of a publish request.
#[derive(Debug)]
pub struct PublishBody {
    pub title: String,
    pub content: PublishBodyContent,
}

/// The newsletter content, in both renderings.
#[derive(Debug)]
pub struct PublishBodyContent {
    pub text: String,
    pub html: String,
}

impl PublishBody {
    /// The e-mail that delivers this newsletter to one recipient.
    pub fn into_email(self, recipient: EmailAddress) -> (r: Email)
        ensures
            r.recipient@ == recipient@,
            r.subject@ == self.title@,
            r.html_body@ == self.content.html@,
            r.text_body@ == self.content.text@,
    {
        Email {
            recipient,
            subject: self.title,
            html_body: self.content.html,
            text_body: self.content.text,
        }
    }
}

/// Re-validate the address of a confirmed subscription record; a record
/// whose stored text no longer parses is skipped.
pub fn parse_confirmed_email(subscription: ConfirmedSubscription) -> (r: Option<EmailAddress>)
    ensures
        (match r {
            Some(a) => spec_parse_email(subscription.email@) == Ok::<Seq<char>, Seq<char>>(a@),
            None => spec_parse_email(subscription.email@) is Err,
        }),
{
    match EmailAddress::parse(subscription.email.as_str()) {
        Ok(a) => Some(a),
        Err(_) => None,
    }
}

} // verus!
