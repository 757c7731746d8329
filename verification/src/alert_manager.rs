//! What the text-message service is asked, and how its answer is read.
//!
//! Sending is left to the caller. This module computes what is sent: the
//! address of an account's messages, the form that asks for a message, and
//! the meaning of the status that comes back.

use vstd::prelude::*;
use vstd::string::*;

verus! {

/// The account that alerts are sent from, and who receives them.
#[derive(Clone, Debug, PartialEq, Eq)]
pub struct AlertManager {
    twilio_account_sid: String,
    twilio_auth_token: String,
    twilio_phone_number: String,
    recipient_phone_number: String,
}

/// What an [`AlertManager`] holds, as mathematical values.
pub struct AlertManagerView {
    pub twilio_account_sid: Seq<char>,
    pub twilio_auth_token: Seq<char>,
    pub twilio_phone_number: Seq<char>,
    pub recipient_phone_number: Seq<char>,
}

impl View for AlertManager {
    type V = AlertManagerView;

    closed spec fn view(&self) -> AlertManagerView {
        AlertManagerView {
            twilio_account_sid: self.twilio_account_sid@,
            twilio_auth_token: self.twilio_auth_token@,
            twilio_phone_number: self.twilio_phone_number@,
            recipient_phone_number: self.recipient_phone_number@,
        }
    }
}

/// What the service made of a request.
#[derive(Clone, Copy, Debug, PartialEq, Eq, Structural)]
pub enum Delivery {
    /// Status 200: the message was taken, and the body describes it.
    Accepted,
    /// Status 400: the request was refused, and the body says why.
    Refused,
    /// Any other status; the body is not read.
    Other,
}

/// The address of the messages of the account `account_sid`.
pub open spec fn spec_messages_url(account_sid: Seq<char>) -> Seq<char> {
    "https://api.twilio.com/2010-04-01/Accounts/"@ + account_sid + "/Messages.json"@
}

/// The fields of the form that asks for `message` to be sent.
pub open spec fn spec_message_form(manager: AlertManagerView, message: Seq<char>) -> Seq<
    (Seq<char>, Seq<char>),
> {
    seq![
        ("To"@, manager.recipient_phone_number),
        ("From"@, manager.twilio_phone_number),
        ("Body"@, message),
    ]
}

/// The names and values of a form, as mathematical values.
pub open spec fn form_view(form: Seq<(String, String)>) -> Seq<(Seq<char>, Seq<char>)> {
    form.map_values(|field: (String, String)| (field.0@, field.1@))
}

/// What a status of the service means.
pub open spec fn spec_delivery(status: u16) -> Delivery {
    if status == 200 {
        Delivery::Accepted
    } else if status == 400 {
        Delivery::Refused
    } else {
        Delivery::Other
    }
}

impl AlertManager {
    /// An alert manager for the account `twilio_account_sid`, which sends
    /// from `twilio_phone_number` to `recipient_phone_number`.
    pub fn new(
        twilio_account_sid: String,
        twilio_auth_token: String,
        twilio_phone_number: String,
        recipient_phone_number: String,
    ) -> (manager: AlertManager)
        ensures
            manager@ == (AlertManagerView {
                twilio_account_sid: twilio_account_sid@,
                twilio_auth_token: twilio_auth_token@,
                twilio_phone_number: twilio_phone_number@,
                recipient_phone_number: recipient_phone_number@,
            }),
    {
        AlertManager {
            twilio_account_sid,
            twilio_auth_token,
            twilio_phone_number,
            recipient_phone_number,
        }
    }

    /// The account, which is also the user name of a request.
    pub fn account_sid(&self) -> (sid: &String)
        ensures
            sid@ == self@.twilio_account_sid,
    {
        &self.twilio_account_sid
    }

    /// The password of a request.
    pub fn auth_token(&self) -> (token: &String)
        ensures
            token@ == self@.twilio_auth_token,
    {
        &self.twilio_auth_token
    }

    /// The address of the account's messages: a message is sent by posting
    /// a form to it, and the messages are listed by getting it.
    pub fn messages_url(&self) -> (url: String)
        ensures
            url@ == spec_messages_url(self@.twilio_account_sid),
    {
        let mut url = String::from_str("https://api.twilio.com/2010-04-01/Accounts/");
        url.append(self.twilio_account_sid.as_str());
        url.append("/Messages.json");
        url
    }

    /// The form that asks for `message` to be sent to the recipient.
    pub fn message_form(&self, message: &str) -> (form: Vec<(String, String)>)
        ensures
            form_view(form@) == spec_message_form(self@, message@),
    {
        let mut form: Vec<(String, String)> = Vec::new();
        form.push((String::from_str("To"), self.recipient_phone_number.clone()));
        form.push((String::from_str("From"), self.twilio_phone_number.clone()));
        form.push((String::from_str("Body"), String::from_str(message)));
        assert(form_view(form@) =~= spec_message_form(self@, message@));
        form
    }
}

/// Reads the status that the service answered with.
pub fn delivery(status: u16) -> (d: Delivery)
    ensures
        d == spec_delivery(status),
{
    if status == 200 {
        Delivery::Accepted
    } else if status == 400 {
        Delivery::Refused
    } else {
        Delivery::Other
    }
}

} // verus!
