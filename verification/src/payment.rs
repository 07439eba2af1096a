//! Payments for a license: what they are for, the signature on a provider's
//! notification, and what a notification does.

use crate::codec::{base64_encode, base64_text, hex_encode, hex_text, hmac_of, hmac_sha256};
use crate::dates::{day_of, day_text};
use crate::license::{BILLING_CYCLE_DAYS, LicenseDates, LicenseError, activate, dates_are, record_payment, renewed_due};
use crate::text::{find, find_from, i64_text, opt_str_view, opt_view, pieces, same, signed_decimal, slice_text, split, to_chars, views};
use vstd::prelude::*;
use vstd::utf8::{encode_utf8, encode_utf8_decode_utf8};

verus! {

// ---------------------------------------------------------------------------
// Purposes
// ---------------------------------------------------------------------------

/// What a payment is for.
#[derive(Clone, Copy, PartialEq, Eq, Structural, Debug)]
pub enum Purpose {
    Activation,
    Subscription,
}

impl Purpose {
    /// How the purpose is stored.
    pub open spec fn name(self) -> Seq<char> {
        match self {
            Purpose::Activation => "activation"@,
            Purpose::Subscription => "subscription"@,
        }
    }

    /// How the purpose is stored.
    pub fn as_str(&self) -> (s: &'static str)
        ensures
            s@ == self.name(),
    {
        match self {
            Purpose::Activation => "activation",
            Purpose::Subscription => "subscription",
        }
    }

    /// The purpose that a text names.
    pub fn parse(s: &str) -> (r: Result<Purpose, PaymentError>)
        ensures
            match r {
                Ok(p) => s@ == p.name(),
                Err(e) => {
                    &&& s@ != "activation"@ && s@ != "subscription"@
                    &&& e@ == PaymentErrorView::UnknownPurpose(s@)
                },
            },
    {
        if same(s, "activation") {
            Ok(Purpose::Activation)
        } else if same(s, "subscription") {
            Ok(Purpose::Subscription)
        } else {
            Err(PaymentError::UnknownPurpose { named: s.to_owned() })
        }
    }
}

/// A purpose is read back as it was stored, and no two are stored alike.
pub proof fn law_purposes_differ(a: Purpose, b: Purpose)
    ensures
        a.name() == b.name() ==> a == b,
{
    reveal_strlit("activation");
    reveal_strlit("subscription");
    assert("activation"@.len() != "subscription"@.len());
}

// ---------------------------------------------------------------------------
// Errors
// ---------------------------------------------------------------------------

/// Why a payment or a notification of one is refused.
#[derive(Debug)]
pub enum PaymentError {
    UnknownPurpose { named: String },
    /// No payment with that reference is waiting.
    NoPendingIntent { reference: String },
    MissingSessionId,
    MissingRequestId,
    MissingResultCode,
    MalformedSignature,
    WrongSignature,
    License { why: LicenseError },
}

/// Why a payment or a notification of one is refused.
pub enum PaymentErrorView {
    UnknownPurpose(Seq<char>),
    NoPendingIntent(Seq<char>),
    MissingSessionId,
    MissingRequestId,
    MissingResultCode,
    MalformedSignature,
    WrongSignature,
    License(LicenseError),
}

impl View for PaymentError {
    type V = PaymentErrorView;

    open spec fn view(&self) -> PaymentErrorView {
        match *self {
            PaymentError::UnknownPurpose { named } => PaymentErrorView::UnknownPurpose(named@),
            PaymentError::NoPendingIntent { reference } => PaymentErrorView::NoPendingIntent(reference@),
            PaymentError::MissingSessionId => PaymentErrorView::MissingSessionId,
            PaymentError::MissingRequestId => PaymentErrorView::MissingRequestId,
            PaymentError::MissingResultCode => PaymentErrorView::MissingResultCode,
            PaymentError::MalformedSignature => PaymentErrorView::MalformedSignature,
            PaymentError::WrongSignature => PaymentErrorView::WrongSignature,
            PaymentError::License { why } => PaymentErrorView::License(why),
        }
    }
}

/// The sentence for an error.
pub open spec fn payment_message(e: PaymentErrorView) -> Seq<char> {
    match e {
        PaymentErrorView::UnknownPurpose(named) => "unknown payment purpose '"@ + named
            + "', expected activation or subscription"@,
        PaymentErrorView::NoPendingIntent(reference) => "no matching pending payment found for reference '"@
            + reference + "'"@,
        PaymentErrorView::MissingSessionId => "event missing session id"@,
        PaymentErrorView::MissingRequestId => "callback missing CheckoutRequestID"@,
        PaymentErrorView::MissingResultCode => "callback missing ResultCode"@,
        PaymentErrorView::MalformedSignature => "malformed Stripe-Signature header"@,
        PaymentErrorView::WrongSignature =>
            "webhook signature does not match — request may not be genuinely from Stripe"@,
        PaymentErrorView::License(why) => "the license could not be updated"@,
    }
}

/// The sentence for an error.
pub fn payment_error_text(e: &PaymentError) -> (s: String)
    ensures
        s@ == payment_message(e@),
{
    match e {
        PaymentError::UnknownPurpose { named } => {
            let mut s = "unknown payment purpose '".to_owned();
            s.append(named.as_str());
            s.append("', expected activation or subscription");
            s
        },
        PaymentError::NoPendingIntent { reference } => {
            let mut s = "no matching pending payment found for reference '".to_owned();
            s.append(reference.as_str());
            s.append("'");
            s
        },
        PaymentError::MissingSessionId => "event missing session id".to_owned(),
        PaymentError::MissingRequestId => "callback missing CheckoutRequestID".to_owned(),
        PaymentError::MissingResultCode => "callback missing ResultCode".to_owned(),
        PaymentError::MalformedSignature => "malformed Stripe-Signature header".to_owned(),
        PaymentError::WrongSignature =>
            "webhook signature does not match — request may not be genuinely from Stripe".to_owned(),
        PaymentError::License { .. } => "the license could not be updated".to_owned(),
    }
}

// ---------------------------------------------------------------------------
// The signature on a notification
// ---------------------------------------------------------------------------

/// The value of the last piece of the form `name=value`.
pub open spec fn last_named(list: Seq<Seq<char>>, name: Seq<char>) -> Option<Seq<char>>
    decreases list.len(),
{
    if list.len() == 0 {
        None
    } else {
        let piece = list.last();
        let k = find(piece, '=');
        if k < piece.len() && piece.take(k) == name {
            Some(piece.skip(k + 1))
        } else {
            last_named(list.drop_last(), name)
        }
    }
}

/// The time and the signature of a header such as `t=1,v1=2`: the last of each.
pub open spec fn signature_parts(header: Seq<char>) -> Option<(Seq<char>, Seq<char>)> {
    let list = pieces(header, ',');
    match (last_named(list, "t"@), last_named(list, "v1"@)) {
        (Some(t), Some(v)) => Some((t, v)),
        _ => None,
    }
}

/// Reads the time and the signature of a header.
pub fn read_signature(header: &str) -> (r: Option<(String, String)>)
    ensures
        match r {
            Some(p) => signature_parts(header@) == Some((p.0@, p.1@)),
            None => signature_parts(header@) is None,
        },
{
    let list = split(header, ',');
    let mut timestamp: Option<String> = None;
    let mut signature: Option<String> = None;
    let mut i: usize = 0;
    assert(views(list@).take(0) =~= Seq::<Seq<char>>::empty());
    proof {
        reveal_strlit("t");
        reveal_strlit("v1");
        assert("t"@.len() != "v1"@.len());
    }
    while i < list.len()
        invariant
            "t"@ != "v1"@,
            i <= list@.len(),
            opt_view(timestamp) == last_named(views(list@).take(i as int), "t"@),
            opt_view(signature) == last_named(views(list@).take(i as int), "v1"@),
        decreases list@.len() - i,
    {
        proof {
            let l = views(list@).take(i + 1);
            assert(l.drop_last() =~= views(list@).take(i as int));
            assert(l.last() == list@[i as int]@);
        }
        let p = to_chars(list[i].as_str());
        let k: usize = find_from(&p, 0, '=');
        assert(p@.skip(0) =~= p@);
        if k < p.len() {
            let name = slice_text(&p, 0, k);
            let value = slice_text(&p, k + 1, p.len());
            assert(name@ =~= p@.take(k as int));
            assert(value@ =~= p@.skip(k + 1));
            if same(name.as_str(), "t") {
                timestamp = Some(value);
            } else if same(name.as_str(), "v1") {
                signature = Some(value);
            }
        }
        i = i + 1;
    }
    assert(views(list@).take(list@.len() as int) =~= views(list@));
    match (timestamp, signature) {
        (Some(t), Some(v)) => Some((t, v)),
        _ => None,
    }
}

/// Compares bytes without stopping at the first difference.
fn constant_time_eq(a: &[u8], b: &[u8]) -> (r: bool)
    ensures
        r == (a@ == b@),
{
    if a.len() != b.len() {
        return false;
    }
    let mut acc: u8 = 0;
    let mut i: usize = 0;
    while i < a.len()
        invariant
            a@.len() == b@.len(),
            i <= a@.len(),
            acc == 0 <==> forall|k: int| 0 <= k < i ==> a@[k] == b@[k],
        decreases a@.len() - i,
    {
        let x: u8 = a[i];
        let y: u8 = b[i];
        let before: u8 = acc;
        acc = before | (x ^ y);
        assert((before | (x ^ y)) == 0u8 <==> before == 0u8 && x == y) by (bit_vector);
        proof {
            if acc == 0 {
                assert forall|k: int| 0 <= k < i + 1 implies a@[k] == b@[k] by {}
            } else if before == 0 {
                assert(a@[i as int] != b@[i as int]);
            }
        }
        i = i + 1;
    }
    proof {
        if acc == 0 {
            assert(a@ =~= b@);
        }
    }
    acc == 0
}

/// Whether a signature is the hexadecimal text of the code.
pub fn signature_is(signature: &str, code: &Vec<u8>) -> (b: bool)
    ensures
        b == (signature@ == hex_text(code@)),
{
    let expected = hex_encode(code);
    proof {
        encode_utf8_decode_utf8(expected@);
        encode_utf8_decode_utf8(signature@);
    }
    constant_time_eq(expected.as_str().as_bytes(), signature.as_bytes())
}

/// What is signed: the time, a dot, and the payload as it came.
pub open spec fn signed_payload(timestamp: Seq<char>, payload: Seq<char>) -> Seq<char> {
    timestamp + "."@ + payload
}

/// Verifies the signature on a notification against the shared secret.
pub fn verify_webhook_signature(payload: &str, sig_header: &str, secret: &str) -> (r: Result<(), PaymentError>)
    ensures
        match signature_parts(sig_header@) {
            None => r matches Err(e) && e@ == PaymentErrorView::MalformedSignature,
            Some((t, v)) => {
                let code = hmac_of(encode_utf8(secret@), encode_utf8(signed_payload(t, payload@)));
                if v == hex_text(code) {
                    r is Ok
                } else {
                    r matches Err(e) && e@ == PaymentErrorView::WrongSignature
                }
            },
        },
{
    match read_signature(sig_header) {
        None => Err(PaymentError::MalformedSignature),
        Some((timestamp, signature)) => {
            let mut signed = timestamp.clone();
            signed.append(".");
            signed.append(payload);
            let code = hmac_sha256(secret.as_bytes(), signed.as_str().as_bytes());
            if signature_is(signature.as_str(), &code) {
                Ok(())
            } else {
                Err(PaymentError::WrongSignature)
            }
        },
    }
}

// ---------------------------------------------------------------------------
// What a notification does
// ---------------------------------------------------------------------------

/// A payment that was asked for.
#[derive(Debug)]
pub struct PaymentIntent {
    /// What the provider calls it.
    pub provider_reference: String,
    pub business_id: String,
    pub purpose: String,
    /// `pending` until the provider has answered.
    pub status: String,
}

/// Whether the payment is the one of that reference and still waits.
pub open spec fn waits(p: PaymentIntent, reference: Seq<char>) -> bool {
    p.provider_reference@ == reference && p.status@ == "pending"@
}

/// The place of the first payment of that reference that still waits, or the
/// number of payments.
pub open spec fn pending_place(intents: Seq<PaymentIntent>, reference: Seq<char>) -> int
    decreases intents.len(),
{
    if intents.len() == 0 {
        0
    } else if waits(intents[0], reference) {
        0
    } else {
        1 + pending_place(intents.skip(1), reference)
    }
}

/// Finds the business and the purpose of a payment that still waits.
pub fn find_pending_intent(intents: &Vec<PaymentIntent>, reference: &str) -> (r: Result<(String, Purpose), PaymentError>)
    ensures
        ({
            let k = pending_place(intents@, reference@);
            match r {
                Ok((business, purpose)) => {
                    &&& 0 <= k < intents@.len()
                    &&& business@ == intents@[k].business_id@
                    &&& intents@[k].purpose@ == purpose.name()
                },
                Err(e) => if k >= intents@.len() {
                    e@ == PaymentErrorView::NoPendingIntent(reference@)
                } else {
                    let stored = intents@[k].purpose@;
                    &&& stored != "activation"@ && stored != "subscription"@
                    &&& e@ == PaymentErrorView::UnknownPurpose(stored)
                },
            }
        }),
{
    let mut i: usize = 0;
    assert(intents@.skip(0) =~= intents@);
    while i < intents.len()
        invariant
            i <= intents@.len(),
            i + pending_place(intents@.skip(i as int), reference@) == pending_place(intents@, reference@),
        decreases intents@.len() - i,
    {
        assert(intents@.skip(i as int)[0] == intents@[i as int]);
        assert(intents@.skip(i as int).skip(1) =~= intents@.skip(i + 1));
        if same(intents[i].provider_reference.as_str(), reference) && same(intents[i].status.as_str(), "pending") {
            return match Purpose::parse(intents[i].purpose.as_str()) {
                Ok(p) => Ok((intents[i].business_id.clone(), p)),
                Err(e) => Err(e),
            };
        }
        i = i + 1;
    }
    Err(PaymentError::NoPendingIntent { reference: reference.to_owned() })
}

/// Whether activating fails: it was done before, or the calendar has no such
/// day.
pub open spec fn activation_fails(activated: Option<i64>, today: int) -> bool {
    ||| activated == Some(1i64)
    ||| day_text(today) is None
    ||| today + BILLING_CYCLE_DAYS > i32::MAX
    ||| day_text(today + BILLING_CYCLE_DAYS) is None
}

/// The new dates of a license.
#[derive(Debug)]
pub struct LicenseChange {
    pub dates: LicenseDates,
    /// A first activation, not a renewal.
    pub first: bool,
}

/// What a confirmed payment makes of a license: an activation where it can be
/// one, a renewal else. `activated` and `due` are what is stored of it.
pub open spec fn change_is(
    r: Result<LicenseChange, LicenseError>,
    purpose: Purpose,
    activated: Option<i64>,
    due: Option<Seq<char>>,
    today: int,
) -> bool {
    let fresh = purpose == Purpose::Activation && !activation_fails(activated, today);
    match r {
        Ok(c) => {
            &&& c.first == fresh
            &&& fresh ==> dates_are(c.dates, today, today + BILLING_CYCLE_DAYS)
            &&& !fresh ==> due is Some && day_of(due->0) is Some && dates_are(
                c.dates,
                today,
                renewed_due(day_of(due->0)->0, today),
            )
        },
        Err(e) => {
            &&& !fresh
            &&& e == LicenseError::NoLicense <==> due is None
            &&& e == LicenseError::BadDate <==> due is Some && day_of(due->0) is None
            &&& e != LicenseError::AlreadyActivated
            &&& e == LicenseError::DateOutOfRange ==> {
                let next = renewed_due(day_of(due->0)->0, today);
                day_text(today) is None || next > i32::MAX || day_text(next) is None
            }
        },
    }
}

/// Applies a confirmed payment to a license. One for an activation that is
/// refused renews instead.
pub fn apply_payment(purpose: Purpose, activated: Option<i64>, current_due: Option<&str>, today: i32) -> (r: Result<
    LicenseChange,
    LicenseError,
>)
    ensures
        change_is(r, purpose, activated, opt_str_view(current_due), today as int),
{
    if purpose == Purpose::Activation {
        match activate(activated, today) {
            Ok(dates) => {
                return Ok(LicenseChange { dates, first: true });
            },
            Err(_) => {},
        }
    }
    match record_payment(current_due, today) {
        Ok(dates) => Ok(LicenseChange { dates, first: false }),
        Err(e) => Err(e),
    }
}

/// How a payment for that purpose is entered into the audit log.
pub fn audit_action(purpose: Purpose) -> (s: &'static str)
    ensures
        s@ == if purpose == Purpose::Activation {
            "webhook_activate"@
        } else {
            "webhook_payment"@
        },
{
    if purpose == Purpose::Activation {
        "webhook_activate"
    } else {
        "webhook_payment"
    }
}

/// What a provider's notification says.
#[derive(Debug)]
pub enum Notice {
    /// Nothing that this program acts on.
    Ignored,
    /// The payment of that reference was made.
    Paid { paid_reference: String },
    /// The payment of that reference was not made.
    Failed { failed_reference: String },
}

/// What a provider's notification says.
pub enum NoticeView {
    Ignored,
    Paid(Seq<char>),
    Failed(Seq<char>),
}

impl View for Notice {
    type V = NoticeView;

    open spec fn view(&self) -> NoticeView {
        match *self {
            Notice::Ignored => NoticeView::Ignored,
            Notice::Paid { paid_reference } => NoticeView::Paid(paid_reference@),
            Notice::Failed { failed_reference } => NoticeView::Failed(failed_reference@),
        }
    }
}

/// Reads a card provider's event: only a completed session counts.
pub fn read_webhook_event(event_type: &str, session_id: &Option<String>) -> (r: Result<Notice, PaymentError>)
    ensures
        if event_type@ != "checkout.session.completed"@ {
            r matches Ok(n) && n@ == NoticeView::Ignored
        } else {
            match *session_id {
                Some(id) => r matches Ok(n) && n@ == NoticeView::Paid(id@),
                None => r matches Err(e) && e@ == PaymentErrorView::MissingSessionId,
            }
        },
{
    if !same(event_type, "checkout.session.completed") {
        return Ok(Notice::Ignored);
    }
    match session_id {
        Some(id) => Ok(Notice::Paid { paid_reference: id.clone() }),
        None => Err(PaymentError::MissingSessionId),
    }
}

/// Reads a mobile provider's callback: a result of zero is a payment made.
pub fn read_callback(request_id: &Option<String>, result_code: Option<i64>) -> (r: Result<Notice, PaymentError>)
    ensures
        match (*request_id, result_code) {
            (None, _) => r matches Err(e) && e@ == PaymentErrorView::MissingRequestId,
            (Some(id), None) => r matches Err(e) && e@ == PaymentErrorView::MissingResultCode,
            (Some(id), Some(code)) => r matches Ok(n) && n@ == (if code == 0 {
                NoticeView::Paid(id@)
            } else {
                NoticeView::Failed(id@)
            }),
        },
{
    match request_id {
        None => Err(PaymentError::MissingRequestId),
        Some(id) => match result_code {
            None => Err(PaymentError::MissingResultCode),
            Some(code) => if code == 0 {
                Ok(Notice::Paid { paid_reference: id.clone() })
            } else {
                Ok(Notice::Failed { failed_reference: id.clone() })
            },
        },
    }
}

/// What is stored of a business's license.
#[derive(Debug)]
pub struct LicenseEntry {
    pub business_id: String,
    pub activated: i64,
    pub next_due_date: String,
}

/// The place of the license of a business, or the number of licenses.
pub open spec fn license_place(licenses: Seq<LicenseEntry>, business_id: Seq<char>) -> int
    decreases licenses.len(),
{
    if licenses.len() == 0 {
        0
    } else if licenses[0].business_id@ == business_id {
        0
    } else {
        1 + license_place(licenses.skip(1), business_id)
    }
}

fn find_license(licenses: &Vec<LicenseEntry>, business_id: &str) -> (k: usize)
    ensures
        k == license_place(licenses@, business_id@),
        k <= licenses@.len(),
{
    let mut i: usize = 0;
    assert(licenses@.skip(0) =~= licenses@);
    while i < licenses.len()
        invariant
            i <= licenses@.len(),
            i + license_place(licenses@.skip(i as int), business_id@) == license_place(licenses@, business_id@),
        decreases licenses@.len() - i,
    {
        assert(licenses@.skip(i as int)[0] == licenses@[i as int]);
        assert(licenses@.skip(i as int).skip(1) =~= licenses@.skip(i + 1));
        if same(licenses[i].business_id.as_str(), business_id) {
            return i;
        }
        i = i + 1;
    }
    i
}

/// What a notification changes, in one unit: the license where there is a
/// change, the audit log with it, and the status of the payment.
#[derive(Debug)]
pub struct PaymentPlan {
    pub business_id: String,
    pub purpose: Purpose,
    pub reference: String,
    pub license: Option<LicenseChange>,
    /// The status that the payment gets.
    pub status: String,
}

/// What a notification changes: nothing where it is ignored; else the payment
/// must still wait and have a known purpose. One that failed gets that status
/// and nothing more; one that was made changes the license of its business.
pub open spec fn outcome_is(
    r: Result<Option<PaymentPlan>, PaymentError>,
    notice: NoticeView,
    intents: Seq<PaymentIntent>,
    licenses: Seq<LicenseEntry>,
    today: int,
) -> bool {
    if notice == NoticeView::Ignored {
        r matches Ok(None)
    } else {
        let paid = notice is Paid;
        let reference = if paid {
            notice->Paid_0
        } else {
            notice->Failed_0
        };
        let k = pending_place(intents, reference);
        let intent = intents[k];
        let l = license_place(licenses, intent.business_id@);
        let activated = if l < licenses.len() {
            Some(licenses[l].activated)
        } else {
            None
        };
        let due = if l < licenses.len() {
            Some(licenses[l].next_due_date@)
        } else {
            None
        };
        if k >= intents.len() {
            r matches Err(e) && e@ == PaymentErrorView::NoPendingIntent(reference)
        } else if intent.purpose@ != "activation"@ && intent.purpose@ != "subscription"@ {
            r matches Err(e) && e@ == PaymentErrorView::UnknownPurpose(intent.purpose@)
        } else {
            match r {
                Ok(Some(p)) => {
                    &&& p.business_id@ == intent.business_id@ && p.purpose.name() == intent.purpose@
                    &&& p.reference@ == reference
                    &&& p.status@ == (if paid {
                        "completed"@
                    } else {
                        "failed"@
                    })
                    &&& p.license is Some <==> paid
                    &&& paid ==> change_is(Ok(p.license->0), p.purpose, activated, due, today)
                },
                Ok(None) => false,
                Err(e) => {
                    &&& paid && e@ is License
                    &&& change_is(
                        Err(e@->License_0),
                        if intent.purpose@ == "activation"@ {
                            Purpose::Activation
                        } else {
                            Purpose::Subscription
                        },
                        activated,
                        due,
                        today,
                    )
                },
            }
        }
    }
}

/// Decides what a notification changes. A payment that no longer waits is
/// refused, so that one notification counts once.
pub fn handle_notice(
    notice: &Notice,
    intents: &Vec<PaymentIntent>,
    licenses: &Vec<LicenseEntry>,
    today: i32,
) -> (r: Result<Option<PaymentPlan>, PaymentError>)
    ensures
        outcome_is(r, notice@, intents@, licenses@, today as int),
{
    let (reference, paid) = match notice {
        Notice::Ignored => {
            return Ok(None);
        },
        Notice::Paid { paid_reference } => (paid_reference, true),
        Notice::Failed { failed_reference } => (failed_reference, false),
    };
    let (business_id, purpose) = match find_pending_intent(intents, reference.as_str()) {
        Ok(found) => found,
        Err(e) => {
            return Err(e);
        },
    };
    proof {
        law_purposes_differ(Purpose::Activation, Purpose::Subscription);
    }
    if !paid {
        return Ok(
            Some(
                PaymentPlan {
                    business_id,
                    purpose,
                    reference: reference.clone(),
                    license: None,
                    status: "failed".to_owned(),
                },
            ),
        );
    }
    let l: usize = find_license(licenses, business_id.as_str());
    let applied = if l < licenses.len() {
        apply_payment(purpose, Some(licenses[l].activated), Some(licenses[l].next_due_date.as_str()), today)
    } else {
        apply_payment(purpose, None, None, today)
    };
    match applied {
        Ok(change) => Ok(
            Some(
                PaymentPlan {
                    business_id,
                    purpose,
                    reference: reference.clone(),
                    license: Some(change),
                    status: "completed".to_owned(),
                },
            ),
        ),
        Err(why) => Err(PaymentError::License { why }),
    }
}

/// Handles a card provider's event.
pub fn handle_webhook_event(
    event_type: &str,
    session_id: &Option<String>,
    intents: &Vec<PaymentIntent>,
    licenses: &Vec<LicenseEntry>,
    today: i32,
) -> (r: Result<Option<PaymentPlan>, PaymentError>)
    ensures
        if event_type@ != "checkout.session.completed"@ {
            r matches Ok(None)
        } else {
            match *session_id {
                Some(id) => outcome_is(r, NoticeView::Paid(id@), intents@, licenses@, today as int),
                None => r matches Err(e) && e@ == PaymentErrorView::MissingSessionId,
            }
        },
{
    match read_webhook_event(event_type, session_id) {
        Ok(notice) => handle_notice(&notice, intents, licenses, today),
        Err(e) => Err(e),
    }
}

/// Handles a mobile provider's callback.
pub fn handle_callback(
    request_id: &Option<String>,
    result_code: Option<i64>,
    intents: &Vec<PaymentIntent>,
    licenses: &Vec<LicenseEntry>,
    today: i32,
) -> (r: Result<Option<PaymentPlan>, PaymentError>)
    ensures
        match (*request_id, result_code) {
            (None, _) => r matches Err(e) && e@ == PaymentErrorView::MissingRequestId,
            (Some(id), None) => r matches Err(e) && e@ == PaymentErrorView::MissingResultCode,
            (Some(id), Some(code)) => outcome_is(
                r,
                if code == 0 {
                    NoticeView::Paid(id@)
                } else {
                    NoticeView::Failed(id@)
                },
                intents@,
                licenses@,
                today as int,
            ),
        },
{
    match read_callback(request_id, result_code) {
        Ok(notice) => handle_notice(&notice, intents, licenses, today),
        Err(e) => Err(e),
    }
}

/// The payments with the status of one reference changed.
pub open spec fn settled(intents: Seq<PaymentIntent>, after: Seq<PaymentIntent>, reference: Seq<char>, status: Seq<char>) -> bool {
    &&& after.len() == intents.len()
    &&& forall|i: int|
        0 <= i < intents.len() ==> {
            &&& (#[trigger] after[i]).provider_reference@ == intents[i].provider_reference@
            &&& after[i].business_id@ == intents[i].business_id@
            &&& after[i].purpose@ == intents[i].purpose@
            &&& after[i].status@ == if intents[i].provider_reference@ == reference {
                status
            } else {
                intents[i].status@
            }
        }
}

/// A notification that comes again credits nothing: once a payment has its
/// final status, none of that reference waits any more.
pub proof fn law_no_payment_counts_twice(
    intents: Seq<PaymentIntent>,
    after: Seq<PaymentIntent>,
    reference: Seq<char>,
    status: Seq<char>,
)
    requires
        settled(intents, after, reference, status),
        status == "completed"@ || status == "failed"@,
    ensures
        pending_place(after, reference) == after.len(),
{
    reveal_strlit("completed");
    reveal_strlit("failed");
    reveal_strlit("pending");
    assert("completed"@.len() == 9 && "failed"@.len() == 6 && "pending"@.len() == 7);
    lemma_none_waits(after, reference);
}

proof fn lemma_none_waits(intents: Seq<PaymentIntent>, reference: Seq<char>)
    requires
        forall|i: int| 0 <= i < intents.len() ==> !waits(#[trigger] intents[i], reference),
    ensures
        pending_place(intents, reference) == intents.len(),
    decreases intents.len(),
{
    if intents.len() > 0 {
        let rest = intents.skip(1);
        assert forall|i: int| 0 <= i < rest.len() implies !waits(#[trigger] rest[i], reference) by {
            assert(rest[i] == intents[i + 1]);
        }
        lemma_none_waits(rest, reference);
    }
}

// ---------------------------------------------------------------------------
// What is sent to a provider
// ---------------------------------------------------------------------------

/// A field of a form.
#[derive(Debug)]
pub struct FormField {
    pub name: String,
    pub value: String,
}

/// The fields of a form as pairs.
pub open spec fn form_view(fields: Seq<FormField>) -> Seq<(Seq<char>, Seq<char>)> {
    Seq::new(fields.len(), |i: int| (fields[i].name@, fields[i].value@))
}

/// What the buyer sees for a purpose.
pub open spec fn product_of(purpose: Purpose) -> Seq<char> {
    match purpose {
        Purpose::Activation => "Ledger & Counter — Activation"@,
        Purpose::Subscription => "Ledger & Counter — Monthly Subscription"@,
    }
}

/// The form that opens a card payment: the business and the purpose travel
/// with it, and come back in the notification.
pub open spec fn checkout_fields(
    business_id: Seq<char>,
    purpose: Purpose,
    unit_amount: int,
    currency: Seq<char>,
    success_url: Seq<char>,
    cancel_url: Seq<char>,
) -> Seq<(Seq<char>, Seq<char>)> {
    seq![
        ("payment_method_types[0]"@, "card"@),
        ("mode"@, "payment"@),
        ("client_reference_id"@, business_id),
        ("metadata[business_id]"@, business_id),
        ("metadata[purpose]"@, purpose.name()),
        ("line_items[0][price_data][currency]"@, currency),
        ("line_items[0][price_data][product_data][name]"@, product_of(purpose)),
        ("line_items[0][price_data][unit_amount]"@, signed_decimal(unit_amount)),
        ("line_items[0][quantity]"@, "1"@),
        ("success_url"@, success_url),
        ("cancel_url"@, cancel_url),
    ]
}

fn push_field(fields: &mut Vec<FormField>, name: &str, value: &str)
    ensures
        form_view(final(fields)@) == form_view(old(fields)@).push((name@, value@)),
{
    fields.push(FormField { name: name.to_owned(), value: value.to_owned() });
    assert(form_view(fields@) =~= form_view(old(fields)@).push((name@, value@)));
}

/// The form that opens a card payment.
pub fn create_checkout_session(
    business_id: &str,
    purpose: Purpose,
    unit_amount: i64,
    currency: &str,
    success_url: &str,
    cancel_url: &str,
) -> (fields: Vec<FormField>)
    ensures
        form_view(fields@) == checkout_fields(
            business_id@,
            purpose,
            unit_amount as int,
            currency@,
            success_url@,
            cancel_url@,
        ),
{
    let product = match purpose {
        Purpose::Activation => "Ledger & Counter — Activation",
        Purpose::Subscription => "Ledger & Counter — Monthly Subscription",
    };
    let amount = i64_text(unit_amount);
    let mut fields: Vec<FormField> = Vec::new();
    assert(form_view(fields@) =~= Seq::<(Seq<char>, Seq<char>)>::empty());
    push_field(&mut fields, "payment_method_types[0]", "card");
    push_field(&mut fields, "mode", "payment");
    push_field(&mut fields, "client_reference_id", business_id);
    push_field(&mut fields, "metadata[business_id]", business_id);
    push_field(&mut fields, "metadata[purpose]", purpose.as_str());
    push_field(&mut fields, "line_items[0][price_data][currency]", currency);
    push_field(&mut fields, "line_items[0][price_data][product_data][name]", product);
    push_field(&mut fields, "line_items[0][price_data][unit_amount]", amount.as_str());
    push_field(&mut fields, "line_items[0][quantity]", "1");
    push_field(&mut fields, "success_url", success_url);
    push_field(&mut fields, "cancel_url", cancel_url);
    assert(form_view(fields@) =~= checkout_fields(
        business_id@,
        purpose,
        unit_amount as int,
        currency@,
        success_url@,
        cancel_url@,
    ));
    fields
}

/// What the payer reads on the phone.
pub fn stk_description(purpose: Purpose) -> (s: &'static str)
    ensures
        s@ == match purpose {
            Purpose::Activation => "Ledger and Counter Activation"@,
            Purpose::Subscription => "Ledger and Counter Subscription"@,
        },
{
    match purpose {
        Purpose::Activation => "Ledger and Counter Activation",
        Purpose::Subscription => "Ledger and Counter Subscription",
    }
}

/// Where the mobile provider is reached: production only where the
/// environment says so.
pub fn mpesa_base_url(environment: &Option<String>) -> (s: &'static str)
    ensures
        s@ == if opt_view(*environment) == Some("production"@) {
            "https://api.safaricom.co.ke"@
        } else {
            "https://sandbox.safaricom.co.ke"@
        },
{
    match environment {
        Some(e) => if same(e.as_str(), "production") {
            "https://api.safaricom.co.ke"
        } else {
            "https://sandbox.safaricom.co.ke"
        },
        None => "https://sandbox.safaricom.co.ke",
    }
}

fn base64_of(text: String) -> (s: String)
    requires
        encode_utf8(text@).len() <= usize::MAX / 8,
    ensures
        s@ == base64_text(encode_utf8(text@)),
{
    let bytes = text.as_str().as_bytes_vec();
    base64_encode(&bytes)
}

/// The password of a push to the payer's phone: short code, pass key and time.
pub fn stk_password(shortcode: &str, passkey: &str, timestamp: &str) -> (s: String)
    requires
        encode_utf8(shortcode@ + passkey@ + timestamp@).len() <= usize::MAX / 8,
    ensures
        s@ == base64_text(encode_utf8(shortcode@ + passkey@ + timestamp@)),
{
    let mut text = shortcode.to_owned();
    text.append(passkey);
    text.append(timestamp);
    base64_of(text)
}

/// The fields of a request for a push to the payer's phone, but for the amount,
/// which is a whole number.
pub open spec fn stk_fields(
    shortcode: Seq<char>,
    password: Seq<char>,
    timestamp: Seq<char>,
    phone: Seq<char>,
    callback_url: Seq<char>,
    business_id: Seq<char>,
    purpose: Purpose,
) -> Seq<(Seq<char>, Seq<char>)> {
    seq![
        ("BusinessShortCode"@, shortcode),
        ("Password"@, password),
        ("Timestamp"@, timestamp),
        ("TransactionType"@, "CustomerPayBillOnline"@),
        ("PartyA"@, phone),
        ("PartyB"@, shortcode),
        ("PhoneNumber"@, phone),
        ("CallBackURL"@, callback_url),
        ("AccountReference"@, business_id),
        (
            "TransactionDesc"@,
            match purpose {
                Purpose::Activation => "Ledger and Counter Activation"@,
                Purpose::Subscription => "Ledger and Counter Subscription"@,
            },
        ),
    ]
}

/// The request for a push to the payer's phone, but for the amount: the business
/// travels with it as its reference, and the password is that of the time.
pub fn initiate_stk_push(
    shortcode: &str,
    passkey: &str,
    timestamp: &str,
    phone: &str,
    callback_url: &str,
    business_id: &str,
    purpose: Purpose,
) -> (fields: Vec<FormField>)
    requires
        encode_utf8(shortcode@ + passkey@ + timestamp@).len() <= usize::MAX / 8,
    ensures
        form_view(fields@) == stk_fields(
            shortcode@,
            base64_text(encode_utf8(shortcode@ + passkey@ + timestamp@)),
            timestamp@,
            phone@,
            callback_url@,
            business_id@,
            purpose,
        ),
{
    let password = stk_password(shortcode, passkey, timestamp);
    let mut fields: Vec<FormField> = Vec::new();
    assert(form_view(fields@) =~= Seq::<(Seq<char>, Seq<char>)>::empty());
    push_field(&mut fields, "BusinessShortCode", shortcode);
    push_field(&mut fields, "Password", password.as_str());
    push_field(&mut fields, "Timestamp", timestamp);
    push_field(&mut fields, "TransactionType", "CustomerPayBillOnline");
    push_field(&mut fields, "PartyA", phone);
    push_field(&mut fields, "PartyB", shortcode);
    push_field(&mut fields, "PhoneNumber", phone);
    push_field(&mut fields, "CallBackURL", callback_url);
    push_field(&mut fields, "AccountReference", business_id);
    push_field(&mut fields, "TransactionDesc", stk_description(purpose));
    assert(form_view(fields@) =~= stk_fields(
        shortcode@,
        password@,
        timestamp@,
        phone@,
        callback_url@,
        business_id@,
        purpose,
    ));
    fields
}

/// The credentials for the mobile provider's token.
pub fn basic_credentials(key: &str, secret: &str) -> (s: String)
    requires
        encode_utf8(key@ + ":"@ + secret@).len() <= usize::MAX / 8,
    ensures
        s@ == "Basic "@ + base64_text(encode_utf8(key@ + ":"@ + secret@)),
{
    let mut text = key.to_owned();
    text.append(":");
    text.append(secret);
    let mut s = "Basic ".to_owned();
    s.append(base64_of(text).as_str());
    s
}

proof fn lemma_pending_place(intents: Seq<PaymentIntent>, reference: Seq<char>)
    ensures
        0 <= pending_place(intents, reference) <= intents.len(),
        pending_place(intents, reference) < intents.len() ==> waits(
            intents[pending_place(intents, reference)],
            reference,
        ),
        forall|i: int| 0 <= i < pending_place(intents, reference) ==> !waits(#[trigger] intents[i], reference),
    decreases intents.len(),
{
    if intents.len() > 0 && !waits(intents[0], reference) {
        let rest = intents.skip(1);
        lemma_pending_place(rest, reference);
        assert forall|i: int| 0 <= i < pending_place(intents, reference) implies !waits(#[trigger] intents[i], reference) by {
            if i > 0 {
                assert(rest[i - 1] == intents[i]);
            }
        }
    }
}

proof fn lemma_license_place(licenses: Seq<LicenseEntry>, business_id: Seq<char>)
    ensures
        0 <= license_place(licenses, business_id) <= licenses.len(),
        license_place(licenses, business_id) < licenses.len() ==> licenses[license_place(
            licenses,
            business_id,
        )].business_id@ == business_id,
    decreases licenses.len(),
{
    if licenses.len() > 0 && licenses[0].business_id@ != business_id {
        lemma_license_place(licenses.skip(1), business_id);
    }
}

/// A notification counts for the payment that it names, while that payment waits,
/// and for no other: the business and the purpose are those of that payment. A
/// payment that was made completes it and changes the license; one that was not
/// made fails it and leaves the license alone. Nothing is counted twice, and
/// nothing that no payment waits for is counted at all.
pub proof fn law_a_notice_counts_for_its_own_payment(
    r: Result<Option<PaymentPlan>, PaymentError>,
    notice: NoticeView,
    intents: Seq<PaymentIntent>,
    licenses: Seq<LicenseEntry>,
    today: int,
)
    requires
        outcome_is(r, notice, intents, licenses, today),
    ensures
        r matches Ok(Some(p)) ==> {
            &&& notice == NoticeView::Paid(p.reference@) || notice == NoticeView::Failed(p.reference@)
            &&& exists|i: int|
                {
                    &&& 0 <= i < intents.len()
                    &&& (#[trigger] intents[i]).provider_reference@ == p.reference@
                    &&& intents[i].status@ == "pending"@
                    &&& intents[i].business_id@ == p.business_id@
                    &&& intents[i].purpose@ == p.purpose.name()
                }
            &&& notice is Paid ==> p.status@ == "completed"@ && p.license is Some
            &&& notice is Failed ==> p.status@ == "failed"@ && p.license is None
            &&& p.license matches Some(c) ==> c.first ==> p.purpose == Purpose::Activation
        },
        r matches Ok(None) ==> notice == NoticeView::Ignored,
        notice matches NoticeView::Paid(reference) ==> (forall|i: int|
            0 <= i < intents.len() ==> !((#[trigger] intents[i]).provider_reference@ == reference
                && intents[i].status@ == "pending"@)) ==> r is Err,
        notice matches NoticeView::Failed(reference) ==> (forall|i: int|
            0 <= i < intents.len() ==> !((#[trigger] intents[i]).provider_reference@ == reference
                && intents[i].status@ == "pending"@)) ==> r is Err,
{
    if notice != NoticeView::Ignored {
        let reference = if notice is Paid {
            notice->Paid_0
        } else {
            notice->Failed_0
        };
        lemma_pending_place(intents, reference);
        let k = pending_place(intents, reference);
        if k < intents.len() {
            assert(waits(intents[k], reference));
            lemma_license_place(licenses, intents[k].business_id@);
        }
        reveal_strlit("activation");
        reveal_strlit("subscription");
    }
}

/// What a paid license changes to: the first activation runs thirty days from
/// today. A renewal runs from its own due date, or from today where that is over.
pub proof fn law_a_payment_pays_from_the_right_day(
    c: LicenseChange,
    purpose: Purpose,
    activated: Option<i64>,
    due: Option<Seq<char>>,
    today: int,
)
    requires
        change_is(Ok(c), purpose, activated, due, today),
    ensures
        day_text(today) == Some(c.dates.paid_on@),
        c.first ==> day_text(today + 30) == Some(c.dates.next_due@) && activated != Some(1i64),
        !c.first ==> due is Some && day_of(due->0) is Some && ({
            let old = day_of(due->0)->0;
            day_text(
                30 + if old < today {
                    today
                } else {
                    old
                },
            ) == Some(c.dates.next_due@)
        }),
        purpose == Purpose::Subscription ==> !c.first,
{
}

/// Whether a form says a value under a name.
pub open spec fn form_says(form: Seq<(Seq<char>, Seq<char>)>, name: Seq<char>, value: Seq<char>) -> bool {
    exists|i: int| 0 <= i < form.len() && #[trigger] form[i] == (name, value)
}

/// What a card payment is asked for: the amount in the currency, for the business
/// and the purpose, once; and where the customer comes back to.
pub proof fn law_a_checkout_asks_for_the_right_payment(
    business_id: Seq<char>,
    purpose: Purpose,
    unit_amount: int,
    currency: Seq<char>,
    success_url: Seq<char>,
    cancel_url: Seq<char>,
)
    ensures
        ({
            let form = checkout_fields(business_id, purpose, unit_amount, currency, success_url, cancel_url);
            &&& form_says(form, "client_reference_id"@, business_id)
            &&& form_says(form, "metadata[business_id]"@, business_id)
            &&& form_says(
                form,
                "metadata[purpose]"@,
                if purpose == Purpose::Activation {
                    "activation"@
                } else {
                    "subscription"@
                },
            )
            &&& form_says(form, "line_items[0][price_data][currency]"@, currency)
            &&& form_says(form, "line_items[0][price_data][unit_amount]"@, signed_decimal(unit_amount))
            &&& form_says(form, "line_items[0][quantity]"@, "1"@)
            &&& form_says(form, "mode"@, "payment"@)
            &&& form_says(form, "success_url"@, success_url)
            &&& form_says(form, "cancel_url"@, cancel_url)
            &&& form.len() == 11
        }),
{
    let form = checkout_fields(business_id, purpose, unit_amount, currency, success_url, cancel_url);
    assert(form[1] == ("mode"@, "payment"@));
    assert(form[2] == ("client_reference_id"@, business_id));
    assert(form[3] == ("metadata[business_id]"@, business_id));
    assert(form[4] == ("metadata[purpose]"@, purpose.name()));
    assert(form[5] == ("line_items[0][price_data][currency]"@, currency));
    assert(form[7] == ("line_items[0][price_data][unit_amount]"@, signed_decimal(unit_amount)));
    assert(form[8] == ("line_items[0][quantity]"@, "1"@));
    assert(form[9] == ("success_url"@, success_url));
    assert(form[10] == ("cancel_url"@, cancel_url));
}

/// What a phone payment is asked for: the payer is the phone, which is also the one
/// that is asked, the payee is the shortcode, and the account is the business.
pub proof fn law_a_phone_payment_asks_the_payer(
    shortcode: Seq<char>,
    password: Seq<char>,
    timestamp: Seq<char>,
    phone: Seq<char>,
    callback_url: Seq<char>,
    business_id: Seq<char>,
    purpose: Purpose,
)
    ensures
        ({
            let form = stk_fields(shortcode, password, timestamp, phone, callback_url, business_id, purpose);
            &&& form_says(form, "PartyA"@, phone)
            &&& form_says(form, "PhoneNumber"@, phone)
            &&& form_says(form, "PartyB"@, shortcode)
            &&& form_says(form, "BusinessShortCode"@, shortcode)
            &&& form_says(form, "Password"@, password)
            &&& form_says(form, "Timestamp"@, timestamp)
            &&& form_says(form, "CallBackURL"@, callback_url)
            &&& form_says(form, "AccountReference"@, business_id)
            &&& form_says(form, "TransactionType"@, "CustomerPayBillOnline"@)
            &&& form.len() == 10
        }),
{
    let form = stk_fields(shortcode, password, timestamp, phone, callback_url, business_id, purpose);
    assert(form[0] == ("BusinessShortCode"@, shortcode));
    assert(form[1] == ("Password"@, password));
    assert(form[2] == ("Timestamp"@, timestamp));
    assert(form[3] == ("TransactionType"@, "CustomerPayBillOnline"@));
    assert(form[4] == ("PartyA"@, phone));
    assert(form[5] == ("PartyB"@, shortcode));
    assert(form[6] == ("PhoneNumber"@, phone));
    assert(form[7] == ("CallBackURL"@, callback_url));
    assert(form[8] == ("AccountReference"@, business_id));
}

} // verus!
