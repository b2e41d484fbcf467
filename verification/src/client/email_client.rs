//! E-mails and the request shape the provider API expects. The HTTP client
//! that carries them lives outside the library; it exchanges these plain
//! values with it.

use vstd::prelude::*;

verus! {

use vstd::string::StringExecFns;

use crate::domain::EmailAddress;

/// An e-mail to send: its recipient, subject, and both body renderings.
#[derive(Debug)]
pub struct Email {
    pub recipient: EmailAddress,
    pub subject: String,
    pub html_body: String,
    pub text_body: String,
}

/// The provider API request payload for sending one e-mail.
#[derive(Debug)]
pub struct SendEmailRequest {
    pub to: String,
    pub from: String,
    pub subject: String,
    pub html_body: String,
    pub text_body: String,
}

impl Email {
    /// The provider API request that sends this e-mail from `sender`.
    pub fn as_request(&self, sender: &EmailAddress) -> (r: SendEmailRequest)
        ensures
            r.to@ == self.recipient@,
            r.from@ == sender@,
            r.subject@ == self.subject@,
            r.html_body@ == self.html_body@,
            r.text_body@ == self.text_body@,
    {
        SendEmailRequest {
            to: String::from_str(self.recipient.as_str()),
            from: String::from_str(sender.as_str()),
            subject: self.subject.clone(),
            html_body: self.html_body.clone(),
            text_body: self.text_body.clone(),
        }
    }
}

} // verus!
