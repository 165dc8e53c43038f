//! Card drift: the daily check compares the served card and the
//! operator's key set against the registry record. Listing state is a
//! gradient with explicit intermediate states, never a binary
//! listed/delisted flip: there is deliberately no delisted state.
//! Quarantine is visibly marked; resolution restores.
//!
//! The facts about keys and signatures come in as an `Observation`;
//! this module decides the next state and the notifications.
use vstd::prelude::*;
use crate::text::{chars_of, push_chars, push_str, string_of};
use crate::time::{rfc3339_instant, rfc3339_to_epoch};

verus! {

/// The visible listing state. Registry-derived state, never a card field.
#[derive(Debug, Clone, PartialEq, Eq)]
pub enum CardState {
    /// Served state matches the record and verifies.
    Listed,
    /// A newly signed card was served: signature valid under the anchored
    /// key, content changed. The entry stays listed; the attestation
    /// refers to the prior revision until re-verified.
    ReVerificationDue { since: String },
    /// Signature stopped verifying or the anchored key id vanished from
    /// the served key set: grace with notification, never a flip.
    Grace { since: String, reason: String },
    /// Unresolved grace escalated: visibly marked, never silently
    /// removed; resolution restores.
    Quarantine { since: String, reason: String },
}

/// Grace escalates to quarantine after this many seconds (14 days).
pub const GRACE_ESCALATION_SECS: i64 = 14 * 86400;

/// One drift-check event, appended to the event log.
#[derive(Debug, Clone)]
pub struct DriftEvent {
    pub entry: String,
    pub kind: String,
    pub detail: String,
    /// RFC 3339 UTC.
    pub at: String,
}

/// What the daily fetch observed for one entry, as the signing toolkit
/// judged it.
#[derive(Debug)]
pub struct Observation {
    /// The anchored key id of the registry record
    /// (`/authenticity/keyRef/kid`), when it is a string. The record is
    /// the registry's truth, never the served card.
    pub anchored_kid: Option<String>,
    /// Whether the served key set still holds the anchored key id.
    pub kid_served: bool,
    /// Whether the served card's signature verifies under the anchored key.
    pub signature_verifies: bool,
    /// The canonical (JCS) bytes of the served card without its
    /// `signatures` member, or the error canonicalisation gave.
    pub served_content_jcs: Result<Vec<u8>, String>,
    /// The canonical (JCS) bytes of the record's embedded card, or the
    /// error canonicalisation gave; `None` when the record has no card.
    pub record_card_jcs: Option<Result<Vec<u8>, String>>,
}

/// The listing state over character sequences.
pub enum ListingState {
    Listed,
    ReVerificationDue(Seq<char>),
    Grace(Seq<char>, Seq<char>),
    Quarantine(Seq<char>, Seq<char>),
}

impl View for CardState {
    type V = ListingState;

    open spec fn view(&self) -> ListingState {
        match self {
            CardState::Listed => ListingState::Listed,
            CardState::ReVerificationDue { since } => ListingState::ReVerificationDue(since@),
            CardState::Grace { since, reason } => ListingState::Grace(since@, reason@),
            CardState::Quarantine { since, reason } => ListingState::Quarantine(since@, reason@),
        }
    }
}

/// An event over character sequences.
pub struct EventView {
    pub entry: Seq<char>,
    pub kind: Seq<char>,
    pub detail: Seq<char>,
    pub at: Seq<char>,
}

impl View for DriftEvent {
    type V = EventView;

    open spec fn view(&self) -> EventView {
        EventView { entry: self.entry@, kind: self.kind@, detail: self.detail@, at: self.at@ }
    }
}

/// The events' views.
pub open spec fn events_view(events: Seq<DriftEvent>) -> Seq<EventView> {
    events.map_values(|e: DriftEvent| e@)
}

/// The SHA-256 digest of `bytes`.
pub uninterp spec fn sha256(bytes: Seq<u8>) -> Seq<u8>;

/// `sha2::Sha256::digest`: the SHA-256 digest of `bytes`, which is 32
/// bytes long.
#[verifier::external_body]
fn sha256_digest(bytes: &[u8]) -> (r: Vec<u8>)
    ensures
        r@ == sha256(bytes@),
        r@.len() == 32,
{
    <sha2::Sha256 as sha2::Digest>::digest(bytes).to_vec()
}

/// How `Debug` renders a string: quoted, with escapes.
pub uninterp spec fn debug_text(s: Seq<char>) -> Seq<char>;

/// `<str as Debug>::fmt` through `format!("{:?}")`: the string quoted,
/// with escapes. Nothing is stated of the escaping itself.
#[verifier::external_body]
fn debug_string(s: &str) -> (r: String)
    ensures
        r@ == debug_text(s@),
{
    format!("{:?}", s)
}

/// The lower-case hexadecimal digit of `n < 16`.
pub open spec fn hex_digit(n: int) -> char {
    if n < 10 { ((n + 48) as u32) as char } else { ((n + 87) as u32) as char }
}

/// `bytes` in lower-case hexadecimal, two digits per byte.
pub open spec fn hex_lower(bytes: Seq<u8>) -> Seq<char>
    decreases bytes.len(),
{
    if bytes.len() == 0 {
        seq![]
    } else {
        hex_lower(bytes.drop_last()) + seq![hex_digit(bytes.last() as int / 16), hex_digit(bytes.last() as int % 16)]
    }
}

/// The lower-case hexadecimal SHA-256 of `bytes`.
pub open spec fn sha256_hex_of(bytes: Seq<u8>) -> Seq<char> {
    hex_lower(sha256(bytes))
}

proof fn lemma_hex_len(bytes: Seq<u8>)
    ensures
        hex_lower(bytes).len() == 2 * bytes.len(),
    decreases bytes.len(),
{
    if bytes.len() > 0 {
        lemma_hex_len(bytes.drop_last());
    }
}

fn hex_digit_char(n: u8) -> (c: char)
    requires
        n < 16,
    ensures
        c == hex_digit(n as int),
{
    if n < 10 { (n + 48) as char } else { (n + 87) as char }
}

/// Distinct digits have distinct characters.
proof fn lemma_hex_digit_injective(x: int, y: int)
    requires
        0 <= x < 16,
        0 <= y < 16,
        hex_digit(x) == hex_digit(y),
    ensures
        x == y,
{
    assert(hex_digit(x) as int == if x < 10 { x + 48 } else { x + 87 });
    assert(hex_digit(y) as int == if y < 10 { y + 48 } else { y + 87 });
}

/// Distinct bytes have distinct hexadecimal spellings.
proof fn lemma_hex_injective(a: Seq<u8>, b: Seq<u8>)
    requires
        hex_lower(a) == hex_lower(b),
    ensures
        a == b,
    decreases a.len(),
{
    lemma_hex_len(a);
    lemma_hex_len(b);
    if a.len() == 0 {
        assert(a =~= b);
    } else {
        let h = hex_lower(a);
        let n = h.len() as int;
        assert(hex_lower(a.drop_last()) =~= h.subrange(0, n - 2));
        assert(hex_lower(b.drop_last()) =~= h.subrange(0, n - 2));
        lemma_hex_injective(a.drop_last(), b.drop_last());
        let x = a.last() as int;
        let y = b.last() as int;
        assert(h[n - 2] == hex_digit(x / 16) && h[n - 1] == hex_digit(x % 16));
        assert(hex_lower(b)[n - 2] == hex_digit(y / 16) && hex_lower(b)[n - 1] == hex_digit(y % 16));
        lemma_hex_digit_injective(x / 16, y / 16);
        lemma_hex_digit_injective(x % 16, y % 16);
        assert(x == y);
        assert(a =~= a.drop_last().push(a.last()));
        assert(b =~= b.drop_last().push(b.last()));
    }
}

/// Lower-case hexadecimal SHA-256 of `bytes`.
fn sha256_hex(bytes: &[u8]) -> (r: Vec<char>)
    ensures
        r@ == sha256_hex_of(bytes@),
        r@.len() == 64,
{
    let digest = sha256_digest(bytes);
    let mut out: Vec<char> = Vec::new();
    let mut i: usize = 0;
    while i < digest.len()
        invariant
            i <= digest@.len(),
            out@ == hex_lower(digest@.subrange(0, i as int)),
        decreases digest@.len() - i,
    {
        let b = digest[i];
        out.push(hex_digit_char(b / 16));
        out.push(hex_digit_char(b % 16));
        assert(digest@.subrange(0, i + 1).drop_last() =~= digest@.subrange(0, i as int));
        i = i + 1;
        assert(out@ =~= hex_lower(digest@.subrange(0, i as int)));
    }
    assert(digest@.subrange(0, digest@.len() as int) =~= digest@);
    proof {
        lemma_hex_len(digest@);
    }
    out
}

/// How `{:?}` renders a listing state.
pub open spec fn state_debug(s: ListingState) -> Seq<char> {
    match s {
        ListingState::Listed => "Listed"@,
        ListingState::ReVerificationDue(since) => "ReVerificationDue { since: "@ + debug_text(since) + " }"@,
        ListingState::Grace(since, reason) => "Grace { since: "@ + debug_text(since) + ", reason: "@
            + debug_text(reason) + " }"@,
        ListingState::Quarantine(since, reason) => "Quarantine { since: "@ + debug_text(since)
            + ", reason: "@ + debug_text(reason) + " }"@,
    }
}

fn state_debug_string(s: &CardState) -> (r: Vec<char>)
    ensures
        r@ == state_debug(s@),
{
    let mut out: Vec<char> = Vec::new();
    match s {
        CardState::Listed => push_str(&mut out, "Listed"),
        CardState::ReVerificationDue { since } => {
            push_str(&mut out, "ReVerificationDue { since: ");
            push_str(&mut out, debug_string(since.as_str()).as_str());
            push_str(&mut out, " }");
        },
        CardState::Grace { since, reason } => {
            push_str(&mut out, "Grace { since: ");
            push_str(&mut out, debug_string(since.as_str()).as_str());
            push_str(&mut out, ", reason: ");
            push_str(&mut out, debug_string(reason.as_str()).as_str());
            push_str(&mut out, " }");
        },
        CardState::Quarantine { since, reason } => {
            push_str(&mut out, "Quarantine { since: ");
            push_str(&mut out, debug_string(since.as_str()).as_str());
            push_str(&mut out, ", reason: ");
            push_str(&mut out, debug_string(reason.as_str()).as_str());
            push_str(&mut out, " }");
        },
    }
    out
}

/// An event of this check.
pub open spec fn event_of(entry: Seq<char>, kind: Seq<char>, detail: Seq<char>, at: Seq<char>) -> EventView {
    EventView { entry, kind, detail, at }
}

/// The epoch at which a grace period began: the instant `since` names,
/// or now when it names none.
pub open spec fn grace_began(since: Seq<char>, now_epoch: int) -> int {
    match rfc3339_instant(since) {
        Some(e) => e,
        None => now_epoch,
    }
}

/// A failed check: grace escalates once the window is exceeded,
/// quarantine stays quarantine while the cause persists, anything else
/// enters grace with a notification.
pub open spec fn failed_check(
    entry: Seq<char>,
    previous: ListingState,
    reason: Seq<char>,
    now: Seq<char>,
    now_epoch: int,
) -> (ListingState, Seq<EventView>) {
    match previous {
        ListingState::Grace(since, _) => if now_epoch - grace_began(since, now_epoch) > GRACE_ESCALATION_SECS {
            (
                ListingState::Quarantine(now, reason),
                seq![event_of(entry, "quarantine"@, "grace unresolved past the window: "@ + reason, now)],
            )
        } else {
            (ListingState::Grace(since, reason), seq![])
        },
        ListingState::Quarantine(since, _) => (ListingState::Quarantine(since, reason), seq![]),
        _ => (ListingState::Grace(now, reason), seq![event_of(entry, "grace"@, reason, now)]),
    }
}

/// The reason given when the anchored key id is gone.
pub open spec fn revocation_reason(kid: Seq<char>) -> Seq<char> {
    "anchored kid \u{ab}"@ + kid + "\u{bb} no longer in the served JWKS (revocation)"@
}

/// The reason given when the served card does not verify.
pub open spec fn signature_reason() -> Seq<char> {
    "served card signature does not verify under the anchored key"@
}

/// The detail of a re-verification event.
pub open spec fn re_verification_detail(record_hash: Seq<char>, served_hash: Seq<char>) -> Seq<char> {
    "newly signed card served (JCS "@ + record_hash.subrange(0, 12) + " \u{2192} "@ + served_hash.subrange(0, 12)
        + "); attestation refers to the prior revision until re-verified"@
}

/// The assessment of one observation against the previous state: the
/// next state and the events this transition emits, or the error that
/// stopped it.
pub open spec fn assessment(
    entry: Seq<char>,
    obs: Observation,
    previous: ListingState,
    now: Seq<char>,
    now_epoch: int,
) -> Result<(ListingState, Seq<EventView>), Seq<char>> {
    match obs.anchored_kid {
        None => Err("record: authenticity.keyRef.kid missing"@),
        Some(kid) => if !obs.kid_served {
            Ok(failed_check(entry, previous, revocation_reason(kid@), now, now_epoch))
        } else if !obs.signature_verifies {
            Ok(failed_check(entry, previous, signature_reason(), now, now_epoch))
        } else {
            match obs.served_content_jcs {
                Err(e) => Err(e@),
                Ok(served) => match obs.record_card_jcs {
                    None => Err("record: no card"@),
                    Some(Err(e)) => Err(e@),
                    Some(Ok(record)) => {
                        let served_hash = sha256_hex_of(served@);
                        let record_hash = sha256_hex_of(record@);
                        if served_hash != record_hash {
                            match previous {
                                ListingState::ReVerificationDue(since) => Ok((ListingState::ReVerificationDue(since), seq![])),
                                _ => Ok((
                                    ListingState::ReVerificationDue(now),
                                    seq![event_of(entry, "re-verification-due"@, re_verification_detail(record_hash, served_hash), now)],
                                )),
                            }
                        } else if previous is Listed {
                            Ok((ListingState::Listed, seq![]))
                        } else {
                            Ok((
                                ListingState::Listed,
                                seq![event_of(entry, "restored"@, "served state matches the record again (was "@ + state_debug(previous) + ")"@, now)],
                            ))
                        }
                    },
                },
            }
        },
    }
}

fn text(s: &str) -> (r: String)
    ensures
        r@ == s@,
{
    String::from_str(s)
}

fn event(entry: &str, kind: &str, detail: &Vec<char>, at: &str) -> (e: DriftEvent)
    ensures
        e@ == event_of(entry@, kind@, detail@, at@),
{
    DriftEvent { entry: text(entry), kind: text(kind), detail: string_of(detail), at: text(at) }
}

fn escalate_or_enter_grace(
    entry: &str,
    previous: &CardState,
    reason: Vec<char>,
    now_rfc3339: &str,
    now_epoch: i64,
) -> (r: (CardState, Vec<DriftEvent>))
    ensures
        (r.0@, events_view(r.1@)) == failed_check(entry@, previous@, reason@, now_rfc3339@, now_epoch as int),
{
    let mut events: Vec<DriftEvent> = Vec::new();
    match previous {
        CardState::Grace { since, .. } => {
            let since_epoch = match rfc3339_to_epoch(since.as_str()) {
                Some(e) => e,
                None => now_epoch,
            };
            if (now_epoch as i128) - (since_epoch as i128) > GRACE_ESCALATION_SECS as i128 {
                let mut detail: Vec<char> = Vec::new();
                push_str(&mut detail, "grace unresolved past the window: ");
                push_chars(&mut detail, &reason);
                events.push(event(entry, "quarantine", &detail, now_rfc3339));
                assert(events_view(events@) =~= seq![event_of(entry@, "quarantine"@, "grace unresolved past the window: "@ + reason@, now_rfc3339@)]);
                (CardState::Quarantine { since: text(now_rfc3339), reason: string_of(&reason) }, events)
            } else {
                assert(events_view(events@) =~= seq![]);
                (CardState::Grace { since: since.clone(), reason: string_of(&reason) }, events)
            }
        },
        CardState::Quarantine { since, .. } => {
            assert(events_view(events@) =~= seq![]);
            (CardState::Quarantine { since: since.clone(), reason: string_of(&reason) }, events)
        },
        _ => {
            events.push(event(entry, "grace", &reason, now_rfc3339));
            assert(events_view(events@) =~= seq![event_of(entry@, "grace"@, reason@, now_rfc3339@)]);
            (CardState::Grace { since: text(now_rfc3339), reason: string_of(&reason) }, events)
        },
    }
}

/// Assesses one observation against the previous state. Pure: fetching,
/// verifying and clocks stay outside. Returns the next state and the
/// events this transition emits (notifications ride on events).
pub fn assess(
    entry: &str,
    observation: &Observation,
    previous: &CardState,
    now_rfc3339: &str,
    now_epoch: i64,
) -> (r: Result<(CardState, Vec<DriftEvent>), String>)
    ensures
        match r {
            Ok((state, events)) => assessment(entry@, *observation, previous@, now_rfc3339@, now_epoch as int)
                == Ok::<(ListingState, Seq<EventView>), Seq<char>>((state@, events_view(events@))),
            Err(e) => assessment(entry@, *observation, previous@, now_rfc3339@, now_epoch as int)
                == Err::<(ListingState, Seq<EventView>), Seq<char>>(e@),
        },
{
    let kid = match &observation.anchored_kid {
        Some(k) => k,
        None => return Err(text("record: authenticity.keyRef.kid missing")),
    };
    if !observation.kid_served {
        let mut reason: Vec<char> = Vec::new();
        push_str(&mut reason, "anchored kid \u{ab}");
        push_str(&mut reason, kid.as_str());
        push_str(&mut reason, "\u{bb} no longer in the served JWKS (revocation)");
        return Ok(escalate_or_enter_grace(entry, previous, reason, now_rfc3339, now_epoch));
    }
    if !observation.signature_verifies {
        let reason = chars_of("served card signature does not verify under the anchored key");
        return Ok(escalate_or_enter_grace(entry, previous, reason, now_rfc3339, now_epoch));
    }
    let served = match &observation.served_content_jcs {
        Ok(bytes) => bytes,
        Err(e) => return Err(e.clone()),
    };
    let record = match &observation.record_card_jcs {
        None => return Err(text("record: no card")),
        Some(Err(e)) => return Err(e.clone()),
        Some(Ok(bytes)) => bytes,
    };
    let served_hash = sha256_hex(served.as_slice());
    let record_hash = sha256_hex(record.as_slice());
    let mut events: Vec<DriftEvent> = Vec::new();
    if !crate::text::chars_equal(&served_hash, &record_hash) {
        let next = match previous {
            CardState::ReVerificationDue { since } => CardState::ReVerificationDue { since: since.clone() },
            _ => {
                let mut detail: Vec<char> = Vec::new();
                push_str(&mut detail, "newly signed card served (JCS ");
                push_chars(&mut detail, &crate::text::chars_range(&record_hash, 0, 12));
                push_str(&mut detail, " \u{2192} ");
                push_chars(&mut detail, &crate::text::chars_range(&served_hash, 0, 12));
                push_str(&mut detail, "); attestation refers to the prior revision until re-verified");
                events.push(event(entry, "re-verification-due", &detail, now_rfc3339));
                CardState::ReVerificationDue { since: text(now_rfc3339) }
            },
        };
        assert(events_view(events@) =~= match previous@ {
            ListingState::ReVerificationDue(_) => seq![],
            _ => seq![event_of(entry@, "re-verification-due"@, re_verification_detail(record_hash@, served_hash@), now_rfc3339@)],
        });
        return Ok((next, events));
    }
    match previous {
        CardState::Listed => {},
        _ => {
            let mut detail: Vec<char> = Vec::new();
            push_str(&mut detail, "served state matches the record again (was ");
            push_chars(&mut detail, &state_debug_string(previous));
            push_str(&mut detail, ")");
            events.push(event(entry, "restored", &detail, now_rfc3339));
        },
    }
    assert(events_view(events@) =~= if previous@ is Listed {
        seq![]
    } else {
        seq![event_of(entry@, "restored"@, "served state matches the record again (was "@ + state_debug(previous@) + ")"@, now_rfc3339@)]
    });
    Ok((CardState::Listed, events))
}

/// Whether two listing states are the same kind of state.
pub open spec fn same_kind(a: ListingState, b: ListingState) -> bool {
    match (a, b) {
        (ListingState::Listed, ListingState::Listed) => true,
        (ListingState::ReVerificationDue(_), ListingState::ReVerificationDue(_)) => true,
        (ListingState::Grace(_, _), ListingState::Grace(_, _)) => true,
        (ListingState::Quarantine(_, _), ListingState::Quarantine(_, _)) => true,
        _ => false,
    }
}

/// Notifications ride on transitions: an assessment emits one event
/// exactly when the kind of listing state changes, and none otherwise,
/// so a persisting condition is never notified twice.
pub proof fn lemma_notified_exactly_on_change(
    entry: Seq<char>,
    obs: Observation,
    previous: ListingState,
    now: Seq<char>,
    now_epoch: int,
)
    ensures
        assessment(entry, obs, previous, now, now_epoch) matches Ok((next, events)) ==> {
            &&& events.len() <= 1
            &&& (events.len() == 1 <==> !same_kind(next, previous))
            &&& forall|i: int| 0 <= i < events.len() ==> (#[trigger] events[i]).entry == entry && events[i].at == now
        },
{
}

/// Resolution restores: when the anchored key is served, the card
/// verifies and its content matches the record, the entry is listed,
/// whatever state it was in.
pub proof fn lemma_clean_observation_restores(
    entry: Seq<char>,
    obs: Observation,
    previous: ListingState,
    now: Seq<char>,
    now_epoch: int,
)
    requires
        obs.anchored_kid is Some,
        obs.kid_served,
        obs.signature_verifies,
        obs.served_content_jcs matches Ok(served) && obs.record_card_jcs matches Some(Ok(record))
            && sha256(served@) == sha256(record@),
    ensures
        assessment(entry, obs, previous, now, now_epoch) matches Ok((next, _)) && next is Listed,
{
}

/// There is no way out of the registry through this machine: every
/// assessment ends in one of the four listing states (no delisted state
/// exists), quarantine is entered only from grace once the window is
/// exceeded, and a quarantine persists while its cause does.
pub proof fn lemma_quarantine_only_by_escalation(
    entry: Seq<char>,
    obs: Observation,
    previous: ListingState,
    now: Seq<char>,
    now_epoch: int,
)
    ensures
        assessment(entry, obs, previous, now, now_epoch) matches Ok((next, _)) ==> (next is Quarantine
            ==> match previous {
                ListingState::Grace(since, _) => now_epoch - grace_began(since, now_epoch) > GRACE_ESCALATION_SECS,
                ListingState::Quarantine(_, _) => true,
                _ => false,
            }),
{
}

/// A quarantine persists, keeping the instant it began, while the key stays
/// missing or the signature keeps failing; no event repeats it.
pub proof fn lemma_quarantine_persists(
    entry: Seq<char>,
    obs: Observation,
    since: Seq<char>,
    reason: Seq<char>,
    now: Seq<char>,
    now_epoch: int,
)
    requires
        obs.anchored_kid is Some,
        !obs.kid_served || !obs.signature_verifies,
    ensures
        assessment(entry, obs, ListingState::Quarantine(since, reason), now, now_epoch) matches Ok((next, events))
            && next matches ListingState::Quarantine(s, _) && s == since && events.len() == 0,
{
}

/// Grace inside the window keeps its start and its silence.
pub proof fn lemma_grace_holds_inside_window(
    entry: Seq<char>,
    obs: Observation,
    since: Seq<char>,
    reason: Seq<char>,
    now: Seq<char>,
    now_epoch: int,
)
    requires
        obs.anchored_kid is Some,
        !obs.kid_served || !obs.signature_verifies,
        now_epoch - grace_began(since, now_epoch) <= GRACE_ESCALATION_SECS,
    ensures
        assessment(entry, obs, ListingState::Grace(since, reason), now, now_epoch) matches Ok((next, events))
            && next matches ListingState::Grace(s, _) && s == since && events.len() == 0,
{
}

/// A newly signed card is a re-verification event, not a failure: when
/// the anchored key is served and the card verifies but the digest of its
/// content differs from the record's, an entry not already due for
/// re-verification becomes due, with one event that names the prior
/// revision; assessing the same observation again, at any instant, keeps
/// that state and notifies nothing.
pub proof fn lemma_re_signed_card_is_due_once(
    entry: Seq<char>,
    obs: Observation,
    previous: ListingState,
    now: Seq<char>,
    now_epoch: int,
    later: Seq<char>,
    later_epoch: int,
)
    requires
        obs.anchored_kid is Some,
        obs.kid_served,
        obs.signature_verifies,
        obs.served_content_jcs matches Ok(served) && obs.record_card_jcs matches Some(Ok(record))
            && sha256(served@) != sha256(record@),
        !(previous is ReVerificationDue),
    ensures
        assessment(entry, obs, previous, now, now_epoch) matches Ok((next, events)) && {
            &&& next == ListingState::ReVerificationDue(now)
            &&& events.len() == 1
            &&& events[0].kind == "re-verification-due"@
            &&& events[0].detail == re_verification_detail(
                sha256_hex_of(obs.record_card_jcs->Some_0->Ok_0@),
                sha256_hex_of(obs.served_content_jcs->Ok_0@),
            )
            &&& assessment(entry, obs, next, later, later_epoch) == Ok::<(ListingState, Seq<EventView>), Seq<char>>((next, seq![]))
        },
{
    let served = obs.served_content_jcs->Ok_0;
    let record = obs.record_card_jcs->Some_0->Ok_0;
    if sha256_hex_of(served@) == sha256_hex_of(record@) {
        lemma_hex_injective(sha256(served@), sha256(record@));
    }
}

/// A failed check enters grace with a notification from every state
/// that is neither grace nor quarantine: when the anchored key id is no
/// longer served, or the card no longer verifies, the next state is grace
/// since now, for that reason, with exactly one `grace` event.
pub proof fn lemma_failed_check_enters_grace(
    entry: Seq<char>,
    obs: Observation,
    previous: ListingState,
    now: Seq<char>,
    now_epoch: int,
)
    requires
        obs.anchored_kid is Some,
        !obs.kid_served || !obs.signature_verifies,
        !(previous is Grace),
        !(previous is Quarantine),
    ensures
        ({
            let reason = if !obs.kid_served {
                "anchored kid \u{ab}"@ + obs.anchored_kid->Some_0@ + "\u{bb} no longer in the served JWKS (revocation)"@
            } else {
                "served card signature does not verify under the anchored key"@
            };
            assessment(entry, obs, previous, now, now_epoch) == Ok::<(ListingState, Seq<EventView>), Seq<char>>((
                ListingState::Grace(now, reason),
                seq![EventView { entry, kind: "grace"@, detail: reason, at: now }],
            ))
        }),
{
}

/// Grace escalates once the window is exceeded: a failed check more than
/// 14 days (1209600 seconds) after the grace began quarantines the entry
/// from now, for the new reason, with one `quarantine` event.
pub proof fn lemma_grace_escalates_past_window(
    entry: Seq<char>,
    obs: Observation,
    since: Seq<char>,
    old_reason: Seq<char>,
    now: Seq<char>,
    now_epoch: int,
)
    requires
        obs.anchored_kid is Some,
        !obs.kid_served || !obs.signature_verifies,
        now_epoch - grace_began(since, now_epoch) > 1209600,
    ensures
        ({
            let reason = if !obs.kid_served {
                "anchored kid \u{ab}"@ + obs.anchored_kid->Some_0@ + "\u{bb} no longer in the served JWKS (revocation)"@
            } else {
                "served card signature does not verify under the anchored key"@
            };
            assessment(entry, obs, ListingState::Grace(since, old_reason), now, now_epoch)
                == Ok::<(ListingState, Seq<EventView>), Seq<char>>((
                ListingState::Quarantine(now, reason),
                seq![EventView { entry, kind: "quarantine"@, detail: "grace unresolved past the window: "@ + reason, at: now }],
            ))
        }),
{
}

/// A clean observation restores silently from a listed state and with one
/// `restored` event, naming the state left, from any other.
pub proof fn lemma_restoration_is_announced(
    entry: Seq<char>,
    obs: Observation,
    previous: ListingState,
    now: Seq<char>,
    now_epoch: int,
)
    requires
        obs.anchored_kid is Some,
        obs.kid_served,
        obs.signature_verifies,
        obs.served_content_jcs matches Ok(served) && obs.record_card_jcs matches Some(Ok(record))
            && sha256(served@) == sha256(record@),
    ensures
        assessment(entry, obs, previous, now, now_epoch) == Ok::<(ListingState, Seq<EventView>), Seq<char>>((
            ListingState::Listed,
            if previous is Listed {
                seq![]
            } else {
                seq![EventView {
                    entry,
                    kind: "restored"@,
                    detail: "served state matches the record again (was "@ + state_debug(previous) + ")"@,
                    at: now,
                }]
            },
        )),
{
}

/// What stops an assessment: a record without an anchored key id, a served
/// card or record card that could not be canonicalised (its error), and a
/// record without a card. The key id is read first; the content only once
/// the key is served and the card verifies.
pub proof fn lemma_assessment_errors(
    entry: Seq<char>,
    obs: Observation,
    previous: ListingState,
    now: Seq<char>,
    now_epoch: int,
)
    ensures
        obs.anchored_kid is None ==> assessment(entry, obs, previous, now, now_epoch)
            == Err::<(ListingState, Seq<EventView>), Seq<char>>("record: authenticity.keyRef.kid missing"@),
        (obs.anchored_kid is Some && (!obs.kid_served || !obs.signature_verifies))
            ==> assessment(entry, obs, previous, now, now_epoch) is Ok,
        (obs.anchored_kid is Some && obs.kid_served && obs.signature_verifies) ==> match obs.served_content_jcs {
            Err(e) => assessment(entry, obs, previous, now, now_epoch) == Err::<(ListingState, Seq<EventView>), Seq<char>>(e@),
            Ok(_) => match obs.record_card_jcs {
                None => assessment(entry, obs, previous, now, now_epoch)
                    == Err::<(ListingState, Seq<EventView>), Seq<char>>("record: no card"@),
                Some(Err(e)) => assessment(entry, obs, previous, now, now_epoch)
                    == Err::<(ListingState, Seq<EventView>), Seq<char>>(e@),
                Some(Ok(_)) => assessment(entry, obs, previous, now, now_epoch) is Ok,
            },
        },
{
}

} // verus!
