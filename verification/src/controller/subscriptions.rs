//! The compute side of the subscription endpoints: validating the submitted
//! form and composing the confirmation e-mail.

use vstd::prelude::*;

verus! {

use vstd::string::StringExecFns;

use crate::client::Email;
use crate::domain::email_address::{spec_parse_email, EmailAddress};
use crate::domain::person_name::{spec_parse_name, PersonName};
use crate::repo::NewSubscription;

/// Form deserialization wrapper for parsing new subscriptions.
#[derive(Debug)]
pub struct NewSubscriptionForm {
    pub name: String,
    pub email: String,
}

impl NewSubscriptionForm {
    /// Validate the form into a subscription: the name first, then the
    /// address; the first rejection message is returned.
    pub fn try_into_subscription(self) -> (r: Result<NewSubscription, String>)
        ensures
            (match r {
                Ok(s) => spec_parse_name(self.name@) == Ok::<Seq<char>, Seq<char>>(s.name@)
                    && spec_parse_email(self.email@) == Ok::<Seq<char>, Seq<char>>(s.email@),
                Err(m) => spec_parse_name(self.name@) == Err::<Seq<char>, Seq<char>>(m@) || (
                spec_parse_name(self.name@) is Ok && spec_parse_email(self.email@) == Err::<
                    Seq<char>,
                    Seq<char>,
                >(m@)),
            }),
    {
        let name = match PersonName::parse(self.name.as_str()) {
            Ok(n) => n,
            Err(m) => {
                return Err(m);
            },
        };
        let email = match EmailAddress::parse(self.email.as_str()) {
            Ok(e) => e,
            Err(m) => {
                return Err(m);
            },
        };
        Ok(NewSubscription { name, email })
    }
}

/// Compose the confirmation e-mail for a new subscriber, around the
/// confirmation URL the caller built for its token.
pub fn build_confirmation_email(subscription: NewSubscription, confirmation_url: &str) -> (r:
    Email)
    ensures
        r.recipient@ == subscription.email@,
        r.subject@ == "Welcome "@ + subscription.name@ + "!"@,
        r.html_body@ == "<h1>Welcome to our newsletter!</h1><p>Click <a href=\""@
            + confirmation_url@ + "\">here</a> to confirm your subscription.</p>"@,
        r.text_body@ ==
            "Welcome to our newsletter!\n\nTo confirm your subscription, visit this web page: "@
            + confirmation_url@,
{
    let subject = String::from_str("Welcome ").concat(subscription.name.as_str()).concat("!");
    let html_body = String::from_str("<h1>Welcome to our newsletter!</h1><p>Click <a href=\"")
        .concat(confirmation_url).concat("\">here</a> to confirm your subscription.</p>");
    let text_body = String::from_str(
        "Welcome to our newsletter!\n\nTo confirm your subscription, visit this web page: ",
    ).concat(confirmation_url);
    Email { recipient: subscription.email, subject, html_body, text_body }
}

} // verus!
