//! The notifier's request form and its outcome.
//!
//! The notifier delivers a message over an outbound POST. The library
//! builds the exact form fields for the request and judges the transport
//! status; performing the POST is the caller's affair.

use vstd::prelude::*;

verus! {

/// Credentials of the push notification service.
#[derive(Debug, Clone)]
pub struct Pushover {
    pub token: String,
    pub user: String,
}

/// A notification that the service did not accept: any transport status
/// other than plain success.
#[derive(Debug, Clone, Copy, PartialEq, Eq, Structural)]
pub struct NotifyError {
    pub status: u16,
}

/// The views of a list of owned form fields.
pub open spec fn fields_view(s: Seq<(String, String)>) -> Seq<(Seq<char>, Seq<char>)> {
    s.map(|i: int, p: (String, String)| (p.0@, p.1@))
}

/// The form fields of a notification request: the credentials, the
/// message, and the title where one is given.
pub open spec fn form_of(
    token: Seq<char>,
    user: Seq<char>,
    message: Seq<char>,
    title: Option<Seq<char>>,
) -> Seq<(Seq<char>, Seq<char>)> {
    let base = seq![("token"@, token), ("user"@, user), ("message"@, message)];
    match title {
        Some(t) => base.push(("title"@, t)),
        None => base,
    }
}

impl Pushover {
    /// Builds exactly the form fields the delivery request carries.
    pub fn form_fields(&self, message: &str, title: Option<&str>) -> (r: Vec<(String, String)>)
        ensures
            fields_view(r@) == form_of(
                self.token@,
                self.user@,
                message@,
                match title {
                    Some(t) => Some(t@),
                    None => None,
                },
            ),
    {
        let mut r: Vec<(String, String)> = Vec::new();
        r.push((String::from_str("token"), self.token.clone()));
        r.push((String::from_str("user"), self.user.clone()));
        r.push((String::from_str("message"), String::from_str(message)));
        match title {
            Some(t) => {
                r.push((String::from_str("title"), String::from_str(t)));
                proof {
                    assert(fields_view(r@) =~= form_of(
                        self.token@,
                        self.user@,
                        message@,
                        Some(t@),
                    ));
                }
            },
            None => {
                proof {
                    assert(fields_view(r@) =~= form_of(self.token@, self.user@, message@, None));
                }
            },
        }
        r
    }

    /// Judges the transport status of a delivery attempt: plain success
    /// is accepted, every other status is the notifier's error.
    pub fn send_outcome(&self, status: u16) -> (r: Result<(), NotifyError>)
        ensures
            r is Ok <==> status == 200,
            r matches Err(e) ==> e.status == status,
    {
        if status == 200 {
            Ok(())
        } else {
            Err(NotifyError { status })
        }
    }
}

} // verus!
