//! Messages to customers and suppliers: what is sent where, what is recorded
//! of it, and the low-stock alert.

use crate::codec::{base64_text, new_uuid, random_uuid};
use crate::payment::basic_credentials;
use crate::text::{cat, cat3, join, joined, lowercase, opt_view, push_text, same, to_lowercase, views};
use vstd::prelude::*;
use vstd::utf8::encode_utf8;

verus! {

/// How messages leave.
#[derive(Clone, Copy, PartialEq, Eq, Structural, Debug)]
pub enum Provider {
    /// They do not: they are only recorded.
    Log,
    Twilio,
}

/// Chooses how messages leave: only recorded unless the environment says
/// otherwise.
pub fn provider_from(environment: &Option<String>) -> (p: Provider)
    ensures
        p == (match opt_view(*environment) {
            Some(e) => if lowercase(e) == "twilio"@ {
                Provider::Twilio
            } else {
                Provider::Log
            },
            None => Provider::Log,
        }),
{
    match environment {
        Some(e) => if same(to_lowercase(e.as_str()).as_str(), "twilio") {
            Provider::Twilio
        } else {
            Provider::Log
        },
        None => Provider::Log,
    }
}

/// A message as recorded.
#[derive(Debug)]
pub struct NotificationRecord {
    pub id: String,
    pub channel: String,
    pub recipient: String,
    pub message: String,
    pub status: String,
}

/// Why a message is refused.
#[derive(Clone, Copy, PartialEq, Eq, Structural, Debug)]
pub enum NotificationError {
    UnknownChannel,
    /// Channel, recipient and message must all be given.
    MissingParts,
    /// Channel and recipient must both be given.
    MissingAddress,
}

/// The sentence for a refused message.
pub fn notification_error_text(e: NotificationError) -> (s: &'static str)
    ensures
        s@ == match e {
            NotificationError::UnknownChannel => "channel must be 'whatsapp' or 'sms'"@,
            NotificationError::MissingParts => "'channel', 'recipient', and 'message' are all required"@,
            NotificationError::MissingAddress => "'channel' and 'recipient' are required"@,
        },
{
    match e {
        NotificationError::UnknownChannel => "channel must be 'whatsapp' or 'sms'",
        NotificationError::MissingParts => "'channel', 'recipient', and 'message' are all required",
        NotificationError::MissingAddress => "'channel' and 'recipient' are required",
    }
}

/// A channel that messages can take.
pub open spec fn known_channel(channel: Seq<char>) -> bool {
    channel == "whatsapp"@ || channel == "sms"@
}

/// Checks the channel before anything is sent.
pub fn check_channel(channel: &str) -> (r: Result<(), NotificationError>)
    ensures
        r == (if known_channel(channel@) {
            Ok::<(), NotificationError>(())
        } else {
            Err::<(), NotificationError>(NotificationError::UnknownChannel)
        }),
{
    if same(channel, "whatsapp") || same(channel, "sms") {
        Ok(())
    } else {
        Err(NotificationError::UnknownChannel)
    }
}

/// Checks that a message has all its parts.
pub fn check_parts(channel: &str, recipient: &str, message: &str) -> (r: Result<(), NotificationError>)
    ensures
        r == (if channel@.len() == 0 || recipient@.len() == 0 || message@.len() == 0 {
            Err::<(), NotificationError>(NotificationError::MissingParts)
        } else {
            Ok::<(), NotificationError>(())
        }),
{
    if channel.is_empty() || recipient.is_empty() || message.is_empty() {
        Err(NotificationError::MissingParts)
    } else {
        Ok(())
    }
}

/// Checks that an alert has an address.
pub fn check_address(channel: &str, recipient: &str) -> (r: Result<(), NotificationError>)
    ensures
        r == (if channel@.len() == 0 || recipient@.len() == 0 {
            Err::<(), NotificationError>(NotificationError::MissingAddress)
        } else {
            Ok::<(), NotificationError>(())
        }),
{
    if channel.is_empty() || recipient.is_empty() {
        Err(NotificationError::MissingAddress)
    } else {
        Ok(())
    }
}

/// What became of a message.
#[derive(Clone, Copy, PartialEq, Eq, Structural, Debug)]
pub enum Delivery {
    /// It was only recorded.
    Logged,
    Sent,
    Failed,
}

/// How a delivery is recorded.
pub open spec fn status_of(d: Delivery) -> Seq<char> {
    match d {
        Delivery::Logged => "sent (logged only, no provider configured)"@,
        Delivery::Sent => "sent"@,
        Delivery::Failed => "failed"@,
    }
}

/// Records a message, whatever became of it.
pub fn send(channel: &str, recipient: &str, message: &str, delivery: Delivery) -> (r: Result<
    NotificationRecord,
    NotificationError,
>)
    ensures
        match r {
            Ok(n) => {
                &&& known_channel(channel@)
                &&& records(n, channel@, recipient@, message@, delivery)
                &&& random_uuid(n.id@)
                &&& n.channel@ == channel@ && n.recipient@ == recipient@ && n.message@ == message@
                &&& n.status@ == status_of(delivery)
            },
            Err(e) => !known_channel(channel@) && e == NotificationError::UnknownChannel,
        },
{
    match check_channel(channel) {
        Err(e) => Err(e),
        Ok(()) => {
            let status = match delivery {
                Delivery::Logged => "sent (logged only, no provider configured)",
                Delivery::Sent => "sent",
                Delivery::Failed => "failed",
            };
            Ok(
                NotificationRecord {
                    id: new_uuid(),
                    channel: channel.to_owned(),
                    recipient: recipient.to_owned(),
                    message: message.to_owned(),
                    status: status.to_owned(),
                },
            )
        },
    }
}

// ---------------------------------------------------------------------------
// Twilio
// ---------------------------------------------------------------------------

/// A request for the delivery of a message.
#[derive(Debug)]
pub struct TwilioRequest {
    pub url: String,
    pub authorization: String,
    pub from: String,
    pub to: String,
    pub body: String,
}

/// An address on a channel.
pub open spec fn address_on(channel: Seq<char>, number: Seq<char>) -> Seq<char> {
    if channel == "whatsapp"@ {
        "whatsapp:"@ + number
    } else {
        number
    }
}

fn address(channel: &str, number: &str) -> (s: String)
    ensures
        s@ == address_on(channel@, number@),
{
    if same(channel, "whatsapp") {
        cat("whatsapp:", number)
    } else {
        number.to_owned()
    }
}

/// The request that delivers a message through an account.
pub fn twilio_request(
    sid: &str,
    token: &str,
    from: &str,
    channel: &str,
    recipient: &str,
    message: &str,
) -> (r: TwilioRequest)
    requires
        encode_utf8(sid@ + ":"@ + token@).len() <= usize::MAX / 8,
    ensures
        asks_for(r, from@, channel@, recipient@, message@),
        r.url@ == "https://api.twilio.com/2010-04-01/Accounts/"@ + sid@ + "/Messages.json"@,
        r.authorization@ == "Basic "@ + base64_text(encode_utf8(sid@ + ":"@ + token@)),
        r.from@ == address_on(channel@, from@),
        r.to@ == address_on(channel@, recipient@),
        r.body@ == message@,
{
    TwilioRequest {
        url: cat3("https://api.twilio.com/2010-04-01/Accounts/", sid, "/Messages.json"),
        authorization: basic_credentials(sid, token),
        from: address(channel, from),
        to: address(channel, recipient),
        body: message.to_owned(),
    }
}

// ---------------------------------------------------------------------------
// The low-stock alert
// ---------------------------------------------------------------------------

/// An item that is low, with its numbers as they are shown.
#[derive(Debug)]
pub struct LowItem {
    pub module_id: String,
    pub name: Option<String>,
    pub quantity: String,
    pub reorder_level: String,
}

/// The line of an item.
pub open spec fn item_line(item: LowItem) -> Seq<char> {
    "- ["@ + item.module_id@ + "] "@ + (match opt_view(item.name) {
        Some(n) => n,
        None => "?"@,
    }) + ": "@ + item.quantity@ + " left (reorder at "@ + item.reorder_level@ + ")"@
}

/// The lines of an alert: a heading and a line for each item, or that there is
/// none.
pub open spec fn alert_lines(items: Seq<LowItem>) -> Seq<Seq<char>> {
    seq!["Low stock alert:"@] + (if items.len() == 0 {
        seq!["Nothing is currently low — all items are above their reorder level."@]
    } else {
        Seq::new(items.len(), |i: int| item_line(items[i]))
    })
}

/// The message of a low-stock alert.
pub fn low_stock_message(items: &Vec<LowItem>) -> (s: String)
    ensures
        s@ == joined(alert_lines(items@), "\n"@),
{
    let mut lines: Vec<String> = Vec::new();
    let ghost all = alert_lines(items@);
    assert(views(lines@) =~= Seq::<Seq<char>>::empty());
    push_text(&mut lines, "Low stock alert:");
    if items.len() == 0 {
        push_text(&mut lines, "Nothing is currently low — all items are above their reorder level.");
        assert(views(lines@) =~= all);
        return join(&lines, "\n");
    }
    let mut i: usize = 0;
    assert(views(lines@) =~= all.take(1));
    while i < items.len()
        invariant
            i <= items@.len(),
            items@.len() > 0,
            all == alert_lines(items@),
            views(lines@) == all.take(i + 1),
        decreases items@.len() - i,
    {
        let item = &items[i];
        let mut s = "- [".to_owned();
        s.append(item.module_id.as_str());
        s.append("] ");
        match &item.name {
            Some(n) => {
                s.append(n.as_str());
            },
            None => {
                s.append("?");
            },
        }
        s.append(": ");
        s.append(item.quantity.as_str());
        s.append(" left (reorder at ");
        s.append(item.reorder_level.as_str());
        s.append(")");
        assert(s@ =~= item_line(*item));
        push_text(&mut lines, s.as_str());
        assert(all.take(i + 2) =~= all.take(i + 1).push(all[i + 1]));
        i = i + 1;
    }
    assert(all.take(all.len() as int) =~= all);
    join(&lines, "\n")
}

/// Whether a record says what was sent to whom and by which channel, and what became
/// of it.
pub open spec fn records(
    n: NotificationRecord,
    channel: Seq<char>,
    recipient: Seq<char>,
    message: Seq<char>,
    delivery: Delivery,
) -> bool {
    &&& n.channel@ == channel
    &&& n.recipient@ == recipient
    &&& n.message@ == message
    &&& n.status@ == status_of(delivery)
}

/// Whether a request asks for a message to go from one number to another.
pub open spec fn asks_for(
    r: TwilioRequest,
    from: Seq<char>,
    channel: Seq<char>,
    recipient: Seq<char>,
    message: Seq<char>,
) -> bool {
    &&& r.from@ == address_on(channel, from)
    &&& r.to@ == address_on(channel, recipient)
    &&& r.body@ == message
}

/// A message goes from the number of the business to that of its recipient, both
/// marked where it goes by WhatsApp and both plain where it goes by SMS, and it is
/// the message that was asked for.
pub proof fn law_messages_go_to_their_recipient(
    r: TwilioRequest,
    from: Seq<char>,
    channel: Seq<char>,
    recipient: Seq<char>,
    message: Seq<char>,
)
    requires
        asks_for(r, from, channel, recipient, message),
    ensures
        channel == "whatsapp"@ ==> r.from@ == "whatsapp:"@ + from && r.to@ == "whatsapp:"@ + recipient,
        channel == "sms"@ ==> r.from@ == from && r.to@ == recipient,
        r.body@ == message,
{
    reveal_strlit("whatsapp");
    reveal_strlit("sms");
    assert("whatsapp"@.len() == 8 && "sms"@.len() == 3);
}

/// What is recorded of a message is what was sent to whom, and that it was sent only
/// where it was.
pub proof fn law_what_was_sent_is_on_record(
    n: NotificationRecord,
    channel: Seq<char>,
    recipient: Seq<char>,
    message: Seq<char>,
    delivery: Delivery,
)
    requires
        records(n, channel, recipient, message, delivery),
    ensures
        n.channel@ == channel && n.recipient@ == recipient && n.message@ == message,
        n.status@ == "sent"@ <==> delivery == Delivery::Sent,
        n.status@ == "failed"@ <==> delivery == Delivery::Failed,
{
    reveal_strlit("sent");
    reveal_strlit("failed");
    reveal_strlit("sent (logged only, no provider configured)");
    assert("sent"@.len() == 4 && "failed"@.len() == 6);
}

/// An alert has a line for every item that is low, in order, with its name, what is
/// left of it and the level that it is reordered at; where nothing is low it says
/// so.
pub proof fn law_alerts_name_what_is_low(items: Seq<LowItem>, i: int)
    requires
        0 <= i < items.len(),
    ensures
        alert_lines(items).len() == 1 + items.len(),
        items[i].name is Some ==> alert_lines(items)[1 + i] == "- ["@ + items[i].module_id@ + "] "@ + items[i].name->0@
            + ": "@ + items[i].quantity@ + " left (reorder at "@ + items[i].reorder_level@ + ")"@,
        alert_lines(Seq::empty()).len() == 2,
        alert_lines(Seq::empty())[1] == "Nothing is currently low — all items are above their reorder level."@,
{
}

} // verus!
