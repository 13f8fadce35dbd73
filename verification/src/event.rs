//! Typed domain events and the rule that classifies and decodes a raw record
//! payload into one.
//!
//! A payload is parsed as a structured document, which must be an object.
//! An object holding the key `ProjectId` is decoded as a [`ProjectEvent`];
//! otherwise one holding `AccountId` is decoded as an [`AccountEvent`];
//! otherwise decoding fails. Keys not consumed by the matched schema are kept,
//! in their original order, in the event's `event_data`.

use vstd::prelude::*;

use crate::json::{
    entry_views, json_parse_spec, json_view, lemma_entry_views_concat, lemma_entry_views_index,
    lemma_entry_views_push, lemma_obj_has_key_exists, lemma_obj_without_keys_absent,
    obj_contains_key, obj_first_value, obj_has_key, obj_without_keys, parse_json, JsonValue,
    JsonView,
};

verus! {

/// An event tied to a project, carried by payloads holding `ProjectId`.
#[derive(Debug, PartialEq, Eq)]
pub struct ProjectEvent {
    /// The project's identifier, as the 128-bit value its textual form denotes.
    pub project_id: u128,
    pub entity_type: String,
    pub entity_id: String,
    /// The keys of the payload not consumed by the schema, in original order.
    pub event_data: Vec<(String, JsonValue)>,
}

/// An event tied to an account, carried by payloads holding `AccountId`.
#[derive(Debug, PartialEq, Eq)]
pub struct AccountEvent {
    pub account_id: u64,
    /// The keys of the payload not consumed by the schema, in original order.
    pub event_data: Vec<(String, JsonValue)>,
}

/// A decoded domain event: exactly one variant per payload.
#[derive(Debug, PartialEq, Eq)]
pub enum Event {
    Project(ProjectEvent),
    Account(AccountEvent),
}

/// Why a payload failed to decode. Decode failures are never fatal to a
/// shard reader: the record is reported and the loop continues.
#[derive(Debug, Clone, Copy, PartialEq, Eq, Structural)]
pub enum DecodeError {
    /// The bytes are not a well-formed document.
    MalformedPayload,
    /// The document is well formed but not an object.
    NotAnObject,
    /// The object holds `ProjectId` but does not fit the project schema.
    InvalidProjectEvent,
    /// The object holds `AccountId` (and no `ProjectId`) but does not fit
    /// the account schema.
    InvalidAccountEvent,
    /// The object holds neither `ProjectId` nor `AccountId`.
    MissingDiscriminatorKey,
}

/// The model of a [`ProjectEvent`].
#[verifier::ext_equal]
pub struct ProjectEventView {
    pub project_id: u128,
    pub entity_type: Seq<char>,
    pub entity_id: Seq<char>,
    pub event_data: Seq<(Seq<char>, JsonView)>,
}

/// The model of an [`AccountEvent`].
#[verifier::ext_equal]
pub struct AccountEventView {
    pub account_id: u64,
    pub event_data: Seq<(Seq<char>, JsonView)>,
}

/// The model of an [`Event`].
#[verifier::ext_equal]
pub enum EventView {
    Project(ProjectEventView),
    Account(AccountEventView),
}

impl View for ProjectEvent {
    type V = ProjectEventView;

    open spec fn view(&self) -> ProjectEventView {
        ProjectEventView {
            project_id: self.project_id,
            entity_type: self.entity_type@,
            entity_id: self.entity_id@,
            event_data: entry_views(self.event_data@),
        }
    }
}

impl View for AccountEvent {
    type V = AccountEventView;

    open spec fn view(&self) -> AccountEventView {
        AccountEventView {
            account_id: self.account_id,
            event_data: entry_views(self.event_data@),
        }
    }
}

impl View for Event {
    type V = EventView;

    open spec fn view(&self) -> EventView {
        match self {
            Event::Project(p) => EventView::Project(p@),
            Event::Account(a) => EventView::Account(a@),
        }
    }
}

/// The discriminator key of project events.
pub open spec fn project_id_key() -> Seq<char> {
    "ProjectId"@
}

pub open spec fn entity_type_key() -> Seq<char> {
    "EntityType"@
}

pub open spec fn entity_id_key() -> Seq<char> {
    "EntityId"@
}

/// The discriminator key of account events.
pub open spec fn account_id_key() -> Seq<char> {
    "AccountId"@
}

/// The keys the project schema hoists into named fields.
pub open spec fn project_keys() -> Seq<Seq<char>> {
    seq![project_id_key(), entity_type_key(), entity_id_key()]
}

/// The keys the account schema hoists into named fields.
pub open spec fn account_keys() -> Seq<Seq<char>> {
    seq![account_id_key()]
}

/// The four schema keys are pairwise distinct.
pub proof fn lemma_keys_distinct()
    ensures
        project_id_key() != entity_type_key(),
        project_id_key() != entity_id_key(),
        project_id_key() != account_id_key(),
        entity_type_key() != entity_id_key(),
        entity_type_key() != account_id_key(),
        entity_id_key() != account_id_key(),
{
    reveal_strlit("ProjectId");
    reveal_strlit("EntityType");
    reveal_strlit("EntityId");
    reveal_strlit("AccountId");
    assert(project_id_key().len() == 9);
    assert(entity_type_key().len() == 10);
    assert(entity_id_key().len() == 8);
    assert(account_id_key().len() == 9);
    assert(project_id_key()[0] == 'P');
    assert(account_id_key()[0] == 'A');
}

/// The 128-bit value a string denotes as a textual unique identifier, when
/// it denotes one: a function of the characters alone.
pub uninterp spec fn uuid_parse_spec(s: Seq<char>) -> Option<u128>;

/// The canonical textual form of a 128-bit identifier: a function of the
/// value alone.
pub uninterp spec fn uuid_text_spec(u: u128) -> Seq<char>;

/// Relies on `uuid::Uuid::try_parse`: whether a string is accepted, and
/// which value it denotes, depend on the characters alone; the call never
/// panics.
#[verifier::external_body]
fn parse_uuid(s: &str) -> (r: Option<u128>)
    ensures
        r == uuid_parse_spec(s@),
{
    match uuid::Uuid::try_parse(s) {
        Ok(u) => Some(u.as_u128()),
        Err(_) => None,
    }
}

/// Relies on `uuid::Uuid::hyphenated`: the textual form depends on the value
/// alone, and `uuid::Uuid::try_parse` of that form gives the value back.
#[verifier::external_body]
fn format_uuid(u: u128) -> (r: String)
    ensures
        r@ == uuid_text_spec(u),
        uuid_parse_spec(r@) == Some(u),
{
    uuid::Uuid::from_u128(u).hyphenated().to_string()
}

/// What decoding an object with entries `es` as a project event yields.
/// `ProjectId` must name a textual identifier and `EntityType` / `EntityId`
/// must be strings; every other key lands in `event_data`, in order.
pub open spec fn project_from_entries(es: Seq<(Seq<char>, JsonView)>) -> Result<
    EventView,
    DecodeError,
> {
    match obj_first_value(es, project_id_key()) {
        JsonView::Text(s) => match uuid_parse_spec(s) {
            Some(u) => if obj_has_key(es, entity_type_key()) && obj_has_key(
                es,
                entity_id_key(),
            ) {
                match (obj_first_value(es, entity_type_key()), obj_first_value(
                    es,
                    entity_id_key(),
                )) {
                    (JsonView::Text(t), JsonView::Text(eid)) => Ok(
                        EventView::Project(
                            (ProjectEventView {
                                project_id: u,
                                entity_type: t,
                                entity_id: eid,
                                event_data: obj_without_keys(es, project_keys()),
                            }),
                        ),
                    ),
                    _ => Err(DecodeError::InvalidProjectEvent),
                }
            } else {
                Err(DecodeError::InvalidProjectEvent)
            },
            None => Err(DecodeError::InvalidProjectEvent),
        },
        _ => Err(DecodeError::InvalidProjectEvent),
    }
}

/// What decoding an object with entries `es` as an account event yields.
/// `AccountId` must name an unsigned 64-bit integer; every other key lands
/// in `event_data`, in order.
pub open spec fn account_from_entries(es: Seq<(Seq<char>, JsonView)>) -> Result<
    EventView,
    DecodeError,
> {
    match obj_first_value(es, account_id_key()) {
        JsonView::UInt(n) => Ok(
            EventView::Account(
                (AccountEventView {
                    account_id: n,
                    event_data: obj_without_keys(es, account_keys()),
                }),
            ),
        ),
        _ => Err(DecodeError::InvalidAccountEvent),
    }
}

/// The classification rule over a parsed document: objects holding
/// `ProjectId` are project events, otherwise those holding `AccountId` are
/// account events, otherwise the discriminator is missing; anything that is
/// not an object is rejected.
pub open spec fn classify_spec(v: JsonView) -> Result<EventView, DecodeError> {
    match v {
        JsonView::Obj(es) => if obj_has_key(es, project_id_key()) {
            project_from_entries(es)
        } else if obj_has_key(es, account_id_key()) {
            account_from_entries(es)
        } else {
            Err(DecodeError::MissingDiscriminatorKey)
        },
        _ => Err(DecodeError::NotAnObject),
    }
}

/// What decoding raw payload bytes yields: bytes that do not parse are
/// malformed; parsed documents follow the classification rule.
pub open spec fn decode_spec(bytes: Seq<u8>) -> Result<EventView, DecodeError> {
    match json_parse_spec(bytes) {
        Some(v) => classify_spec(v),
        None => Err(DecodeError::MalformedPayload),
    }
}

/// The model of a decode result.
pub open spec fn event_result_view(r: Result<Event, DecodeError>) -> Result<
    EventView,
    DecodeError,
> {
    match r {
        Ok(e) => Ok(e@),
        Err(er) => Err(er),
    }
}

impl EventView {
    /// The invariant of a decoded event: `event_data` holds none of the keys
    /// the schema hoists into named fields, and an account event holds no
    /// `ProjectId` anywhere (it would have been classified as a project
    /// event otherwise).
    pub open spec fn well_formed(self) -> bool {
        match self {
            EventView::Project(p) => !obj_has_key(p.event_data, project_id_key())
                && !obj_has_key(p.event_data, entity_type_key()) && !obj_has_key(
                p.event_data,
                entity_id_key(),
            ),
            EventView::Account(a) => !obj_has_key(a.event_data, account_id_key())
                && !obj_has_key(a.event_data, project_id_key()),
        }
    }
}

/// Decode an object's entries as a project event: the schema-validation
/// half of the project branch of the classification rule. The first
/// `ProjectId` entry must hold the textual form of an identifier, and the
/// first `EntityType` / `EntityId` entries must hold strings; every entry
/// under another key is kept, in order, as `event_data`.
pub fn decode_project(entries: Vec<(String, JsonValue)>) -> (r: Result<Event, DecodeError>)
    ensures
        event_result_view(r) == project_from_entries(entry_views(entries@)),
{
    let ghost orig = entry_views(entries@);
    let k_project = String::from_str("ProjectId");
    let k_etype = String::from_str("EntityType");
    let k_eid = String::from_str("EntityId");
    let mut rem = entries;
    let mut extra: Vec<(String, JsonValue)> = Vec::new();
    let mut project_id: Option<u128> = None;
    let mut entity_type: Option<String> = None;
    let mut entity_id: Option<String> = None;
    while rem.len() > 0
        invariant
            k_project@ == project_id_key(),
            k_etype@ == entity_type_key(),
            k_eid@ == entity_id_key(),
            orig == entry_views(entries@),
            obj_without_keys(orig, project_keys()) == entry_views(extra@) + obj_without_keys(
                entry_views(rem@),
                project_keys(),
            ),
            match project_id {
                Some(u) => obj_first_value(orig, project_id_key()) matches JsonView::Text(s)
                    && uuid_parse_spec(s) == Some(u),
                None => obj_first_value(orig, project_id_key()) == obj_first_value(
                    entry_views(rem@),
                    project_id_key(),
                ),
            },
            match entity_type {
                Some(t) => obj_has_key(orig, entity_type_key()) && obj_first_value(
                    orig,
                    entity_type_key(),
                ) == JsonView::Text(t@),
                None => obj_first_value(orig, entity_type_key()) == obj_first_value(
                    entry_views(rem@),
                    entity_type_key(),
                ) && (obj_has_key(orig, entity_type_key()) <==> obj_has_key(
                    entry_views(rem@),
                    entity_type_key(),
                )),
            },
            match entity_id {
                Some(t) => obj_has_key(orig, entity_id_key()) && obj_first_value(
                    orig,
                    entity_id_key(),
                ) == JsonView::Text(t@),
                None => obj_first_value(orig, entity_id_key()) == obj_first_value(
                    entry_views(rem@),
                    entity_id_key(),
                ) && (obj_has_key(orig, entity_id_key()) <==> obj_has_key(
                    entry_views(rem@),
                    entity_id_key(),
                )),
            },
        decreases rem.len(),
    {
        let ghost rem_old = rem@;
        let ghost es_old = entry_views(rem@);
        proof {
            lemma_entry_views_index(rem@);
            lemma_keys_distinct();
            assert(project_keys().len() == 3);
            assert(project_keys()[0] == project_id_key());
            assert(project_keys()[1] == entity_type_key());
            assert(project_keys()[2] == entity_id_key());
        }
        let pair = rem.remove(0);
        let (k, v) = pair;
        proof {
            assert(rem@ =~= rem_old.drop_first());
            assert(es_old[0] == (k@, json_view(v)));
            assert(entry_views(rem@) =~= es_old.drop_first());
        }
        if k == k_project {
            proof {
                assert(project_keys().contains(es_old[0].0));
            }
            match project_id {
                None => {
                    match v {
                        JsonValue::Text(s) => {
                            match parse_uuid(s.as_str()) {
                                Some(u) => {
                                    project_id = Some(u);
                                },
                                None => {
                                    return Err(DecodeError::InvalidProjectEvent);
                                },
                            }
                        },
                        _ => {
                            return Err(DecodeError::InvalidProjectEvent);
                        },
                    }
                },
                Some(_) => {
                    // A later duplicate of the key is dropped: the first
                    // occurrence decides.
                },
            }
        } else if k == k_etype {
            proof {
                assert(project_keys().contains(es_old[0].0));
            }
            match entity_type {
                None => {
                    match v {
                        JsonValue::Text(s) => {
                            entity_type = Some(s);
                        },
                        _ => {
                            return Err(DecodeError::InvalidProjectEvent);
                        },
                    }
                },
                Some(_) => {},
            }
        } else if k == k_eid {
            proof {
                assert(project_keys().contains(es_old[0].0));
            }
            match entity_id {
                None => {
                    match v {
                        JsonValue::Text(s) => {
                            entity_id = Some(s);
                        },
                        _ => {
                            return Err(DecodeError::InvalidProjectEvent);
                        },
                    }
                },
                Some(_) => {},
            }
        } else {
            let ghost extra_old = extra@;
            proof {
                assert(!project_keys().contains(es_old[0].0));
                lemma_entry_views_push(extra@, (k, v));
            }
            extra.push((k, v));
            proof {
                assert(entry_views(extra@) =~= entry_views(extra_old).push((k@, json_view(v))));
                assert(obj_without_keys(es_old, project_keys()) =~= seq![es_old[0]]
                    + obj_without_keys(es_old.drop_first(), project_keys()));
                assert(entry_views(extra@) + obj_without_keys(entry_views(rem@), project_keys())
                    =~= entry_views(extra_old) + obj_without_keys(es_old, project_keys()));
            }
        }
    }
    proof {
        assert(entry_views(rem@) =~= Seq::<(Seq<char>, JsonView)>::empty());
        assert(obj_without_keys(orig, project_keys()) =~= entry_views(extra@));
    }
    match (project_id, entity_type, entity_id) {
        (Some(u), Some(t), Some(eid)) => {
            let event = Event::Project(
                ProjectEvent {
                    project_id: u,
                    entity_type: t,
                    entity_id: eid,
                    event_data: extra,
                },
            );
            proof {
                assert(event@->Project_0 =~= (ProjectEventView {
                    project_id: u,
                    entity_type: t@,
                    entity_id: eid@,
                    event_data: obj_without_keys(orig, project_keys()),
                }));
            }
            Ok(event)
        },
        _ => Err(DecodeError::InvalidProjectEvent),
    }
}

/// Decode an object's entries as an account event: the schema-validation
/// half of the account branch of the classification rule. The first
/// `AccountId` entry must hold an unsigned 64-bit integer; every entry under
/// another key is kept, in order, as `event_data`.
pub fn decode_account(entries: Vec<(String, JsonValue)>) -> (r: Result<Event, DecodeError>)
    ensures
        event_result_view(r) == account_from_entries(entry_views(entries@)),
{
    let ghost orig = entry_views(entries@);
    let k_account = String::from_str("AccountId");
    let mut rem = entries;
    let mut extra: Vec<(String, JsonValue)> = Vec::new();
    let mut account_id: Option<u64> = None;
    while rem.len() > 0
        invariant
            k_account@ == account_id_key(),
            orig == entry_views(entries@),
            obj_without_keys(orig, account_keys()) == entry_views(extra@) + obj_without_keys(
                entry_views(rem@),
                account_keys(),
            ),
            match account_id {
                Some(n) => obj_first_value(orig, account_id_key()) == JsonView::UInt(n),
                None => obj_first_value(orig, account_id_key()) == obj_first_value(
                    entry_views(rem@),
                    account_id_key(),
                ),
            },
        decreases rem.len(),
    {
        let ghost rem_old = rem@;
        let ghost es_old = entry_views(rem@);
        proof {
            lemma_entry_views_index(rem@);
        }
        let pair = rem.remove(0);
        let (k, v) = pair;
        proof {
            assert(rem@ =~= rem_old.drop_first());
            assert(es_old[0] == (k@, json_view(v)));
            assert(entry_views(rem@) =~= es_old.drop_first());
        }
        if k == k_account {
            proof {
                assert(account_keys()[0] == account_id_key());
                assert(account_keys().contains(es_old[0].0));
            }
            match account_id {
                None => {
                    match v {
                        JsonValue::UInt(n) => {
                            account_id = Some(n);
                        },
                        _ => {
                            return Err(DecodeError::InvalidAccountEvent);
                        },
                    }
                },
                Some(_) => {
                    // A later duplicate of the key is dropped: the first
                    // occurrence decides.
                },
            }
        } else {
            let ghost extra_old = extra@;
            proof {
                assert(account_keys().len() == 1 && account_keys()[0] == account_id_key());
                assert(!account_keys().contains(es_old[0].0));
                lemma_entry_views_push(extra@, (k, v));
            }
            extra.push((k, v));
            proof {
                assert(entry_views(extra@) =~= entry_views(extra_old).push((k@, json_view(v))));
                assert(obj_without_keys(es_old, account_keys()) =~= seq![es_old[0]]
                    + obj_without_keys(es_old.drop_first(), account_keys()));
                assert(entry_views(extra@) + obj_without_keys(entry_views(rem@), account_keys())
                    =~= entry_views(extra_old) + obj_without_keys(es_old, account_keys()));
            }
        }
    }
    proof {
        assert(entry_views(rem@) =~= Seq::<(Seq<char>, JsonView)>::empty());
        assert(obj_without_keys(orig, account_keys()) =~= entry_views(extra@));
    }
    match account_id {
        Some(n) => {
            let event = Event::Account(AccountEvent { account_id: n, event_data: extra });
            proof {
                assert(event@->Account_0 =~= (AccountEventView {
                    account_id: n,
                    event_data: obj_without_keys(orig, account_keys()),
                }));
            }
            Ok(event)
        },
        None => Err(DecodeError::InvalidAccountEvent),
    }
}

/// Classify a parsed document and decode it as an event: the key-presence
/// check, then the matched schema's validation.
pub fn classify(value: JsonValue) -> (r: Result<Event, DecodeError>)
    ensures
        event_result_view(r) == classify_spec(json_view(value)),
{
    match value {
        JsonValue::Obj(entries) => {
            let k_project = String::from_str("ProjectId");
            let k_account = String::from_str("AccountId");
            if obj_contains_key(&entries, &k_project) {
                decode_project(entries)
            } else if obj_contains_key(&entries, &k_account) {
                decode_account(entries)
            } else {
                Err(DecodeError::MissingDiscriminatorKey)
            }
        },
        _ => Err(DecodeError::NotAnObject),
    }
}

/// Decode raw payload bytes into an event. Total over every byte input:
/// bytes that do not parse as a document are `MalformedPayload`, and every
/// other failure is one of the classification errors.
pub fn decode(payload: &[u8]) -> (r: Result<Event, DecodeError>)
    ensures
        event_result_view(r) == decode_spec(payload@),
{
    match parse_json(payload) {
        Some(value) => classify(value),
        None => Err(DecodeError::MalformedPayload),
    }
}

/// An object holding `ProjectId` under a valid identifier text and string
/// `EntityType` / `EntityId` values classifies as a project event whose
/// named fields hold exactly those values and whose `event_data` holds
/// precisely the remaining entries, in order — wherever in the object the
/// keys stand.
pub proof fn lemma_classify_project(
    es: Seq<(Seq<char>, JsonView)>,
    s: Seq<char>,
    u: u128,
    t: Seq<char>,
    eid: Seq<char>,
)
    requires
        obj_has_key(es, project_id_key()),
        obj_first_value(es, project_id_key()) == JsonView::Text(s),
        uuid_parse_spec(s) == Some(u),
        obj_has_key(es, entity_type_key()),
        obj_first_value(es, entity_type_key()) == JsonView::Text(t),
        obj_has_key(es, entity_id_key()),
        obj_first_value(es, entity_id_key()) == JsonView::Text(eid),
    ensures
        classify_spec(JsonView::Obj(es)) == Ok::<EventView, DecodeError>(
            EventView::Project(
                (ProjectEventView {
                    project_id: u,
                    entity_type: t,
                    entity_id: eid,
                    event_data: obj_without_keys(es, project_keys()),
                }),
            ),
        ),
{
}

/// An object holding `AccountId` under an unsigned 64-bit integer, and no
/// `ProjectId`, classifies as an account event holding that integer, with
/// precisely the remaining entries, in order, as `event_data`.
pub proof fn lemma_classify_account(es: Seq<(Seq<char>, JsonView)>, n: u64)
    requires
        !obj_has_key(es, project_id_key()),
        obj_has_key(es, account_id_key()),
        obj_first_value(es, account_id_key()) == JsonView::UInt(n),
    ensures
        classify_spec(JsonView::Obj(es)) == Ok::<EventView, DecodeError>(
            EventView::Account(
                (AccountEventView {
                    account_id: n,
                    event_data: obj_without_keys(es, account_keys()),
                }),
            ),
        ),
{
}

/// An object holding neither discriminator key fails with the
/// missing-discriminator error.
pub proof fn lemma_classify_missing_discriminator(es: Seq<(Seq<char>, JsonView)>)
    requires
        !obj_has_key(es, project_id_key()),
        !obj_has_key(es, account_id_key()),
    ensures
        classify_spec(JsonView::Obj(es)) == Err::<EventView, DecodeError>(
            DecodeError::MissingDiscriminatorKey,
        ),
{
}

/// Bytes that do not parse as a document — empty, truncated, or otherwise
/// unreadable — decode to the malformed-payload error.
pub proof fn lemma_decode_malformed(bytes: Seq<u8>)
    requires
        json_parse_spec(bytes) is None,
    ensures
        decode_spec(bytes) == Err::<EventView, DecodeError>(DecodeError::MalformedPayload),
{
}

/// Decoding is deterministic: any two results of decoding the same payload
/// have the same model, so decoding twice yields structurally equal events.
pub proof fn lemma_decode_deterministic(
    bytes: Seq<u8>,
    r1: Result<EventView, DecodeError>,
    r2: Result<EventView, DecodeError>,
)
    requires
        r1 == decode_spec(bytes),
        r2 == decode_spec(bytes),
    ensures
        r1 == r2,
{
}

/// Every event the classification rule accepts is well formed: its
/// `event_data` holds none of the hoisted keys, and an account event holds
/// no `ProjectId` at all.
pub proof fn lemma_classify_well_formed(v: JsonView, ev: EventView)
    requires
        classify_spec(v) == Ok::<EventView, DecodeError>(ev),
    ensures
        ev.well_formed(),
{
    lemma_keys_distinct();
    let es = v->Obj_0;
    assert(project_keys()[0] == project_id_key());
    assert(project_keys()[1] == entity_type_key());
    assert(project_keys()[2] == entity_id_key());
    assert(account_keys()[0] == account_id_key());
    if obj_has_key(es, project_id_key()) {
        crate::json::lemma_obj_without_keys_free(es, project_keys(), project_id_key());
        crate::json::lemma_obj_without_keys_free(es, project_keys(), entity_type_key());
        crate::json::lemma_obj_without_keys_free(es, project_keys(), entity_id_key());
    } else {
        crate::json::lemma_obj_without_keys_free(es, account_keys(), account_id_key());
        crate::json::lemma_obj_without_keys_subset(es, account_keys(), project_id_key());
    }
}

/// What encoding an event back into object form yields: the hoisted fields
/// first, under their schema keys, then `event_data` unchanged.
pub open spec fn encode_spec(ev: EventView) -> JsonView {
    match ev {
        EventView::Project(p) => JsonView::Obj(
            seq![
                (project_id_key(), JsonView::Text(uuid_text_spec(p.project_id))),
                (entity_type_key(), JsonView::Text(p.entity_type)),
                (entity_id_key(), JsonView::Text(p.entity_id)),
            ] + p.event_data,
        ),
        EventView::Account(a) => JsonView::Obj(
            seq![(account_id_key(), JsonView::UInt(a.account_id))] + a.event_data,
        ),
    }
}

/// Encode an event back into the object form its payload had. Decoding the
/// result gives the event back: a well-formed event survives the round trip
/// unchanged.
pub fn encode_to_object(event: Event) -> (r: JsonValue)
    ensures
        r@ == encode_spec(event@),
        event@.well_formed() ==> classify_spec(r@) == Ok::<EventView, DecodeError>(event@),
{
    proof {
        lemma_keys_distinct();
    }
    let ghost ev = event@;
    match event {
        Event::Project(p) => {
            let ProjectEvent { project_id, entity_type, entity_id, event_data } = p;
            let ghost exv = entry_views(event_data@);
            let ghost et_v = entity_type@;
            let ghost eid_v = entity_id@;
            let mut out: Vec<(String, JsonValue)> = Vec::new();
            let uuid_text = format_uuid(project_id);
            out.push((String::from_str("ProjectId"), JsonValue::Text(uuid_text)));
            out.push((String::from_str("EntityType"), JsonValue::Text(entity_type)));
            out.push((String::from_str("EntityId"), JsonValue::Text(entity_id)));
            let ghost head = entry_views(out@);
            proof {
                lemma_entry_views_index(out@);
                assert(head =~= seq![
                    (project_id_key(), JsonView::Text(uuid_text_spec(project_id))),
                    (entity_type_key(), JsonView::Text(et_v)),
                    (entity_id_key(), JsonView::Text(eid_v)),
                ]);
            }
            let mut extra = event_data;
            out.append(&mut extra);
            let ghost es = entry_views(out@);
            proof {
                lemma_entry_views_concat(out@.subrange(0, 3), event_data@);
                assert(out@.subrange(0, 3) + event_data@ =~= out@);
                assert(entry_views(out@.subrange(0, 3)) == head) by {
                    assert(out@.subrange(0, 3) =~= out@.subrange(0, 3));
                    lemma_entry_views_index(out@.subrange(0, 3));
                    lemma_entry_views_index(out@);
                    assert(entry_views(out@.subrange(0, 3)) =~= head);
                }
                assert(es =~= head + exv);
                // The classification rule sees `ProjectId` first.
                assert(es[0] == (project_id_key(), JsonView::Text(uuid_text_spec(project_id))));
                assert(obj_has_key(es, project_id_key()));
                assert(obj_first_value(es, project_id_key()) == JsonView::Text(
                    uuid_text_spec(project_id),
                ));
                // The hoisted string fields follow.
                let tail1 = es.drop_first();
                let tail2 = tail1.drop_first();
                assert(tail1 =~= seq![
                    (entity_type_key(), JsonView::Text(et_v)),
                    (entity_id_key(), JsonView::Text(eid_v)),
                ] + exv);
                assert(tail2 =~= seq![(entity_id_key(), JsonView::Text(eid_v))] + exv);
                assert(tail1[0] == (entity_type_key(), JsonView::Text(et_v)));
                assert(tail2[0] == (entity_id_key(), JsonView::Text(eid_v)));
                assert(obj_has_key(tail1, entity_type_key()));
                assert(obj_has_key(es, entity_type_key()));
                assert(obj_first_value(tail1, entity_type_key()) == JsonView::Text(et_v));
                assert(obj_first_value(es, entity_type_key()) == JsonView::Text(et_v));
                assert(obj_has_key(tail2, entity_id_key()));
                assert(obj_has_key(tail1, entity_id_key()));
                assert(obj_has_key(es, entity_id_key()));
                assert(obj_first_value(tail2, entity_id_key()) == JsonView::Text(eid_v));
                assert(obj_first_value(tail1, entity_id_key()) == JsonView::Text(eid_v));
                assert(obj_first_value(es, entity_id_key()) == JsonView::Text(eid_v));
                if ev.well_formed() {
                    lemma_obj_has_key_exists(exv, project_id_key());
                    lemma_obj_has_key_exists(exv, entity_type_key());
                    lemma_obj_has_key_exists(exv, entity_id_key());
                    assert forall|i: int| 0 <= i < exv.len() implies !project_keys().contains(
                        #[trigger] exv[i].0,
                    ) by {
                        assert(project_keys().len() == 3);
                        assert(exv[i].0 != project_keys()[0]);
                        assert(exv[i].0 != project_keys()[1]);
                        assert(exv[i].0 != project_keys()[2]);
                    }
                    lemma_obj_without_keys_absent(exv, project_keys());
                    assert(project_keys().contains(es[0].0));
                    assert(project_keys().contains(tail1[0].0));
                    assert(project_keys().contains(tail2[0].0));
                    assert(obj_without_keys(es, project_keys()) == obj_without_keys(
                        tail1,
                        project_keys(),
                    ));
                    assert(obj_without_keys(tail1, project_keys()) == obj_without_keys(
                        tail2,
                        project_keys(),
                    ));
                    assert(obj_without_keys(tail2, project_keys()) == obj_without_keys(
                        tail2.drop_first(),
                        project_keys(),
                    ));
                    assert(tail2.drop_first() =~= exv);
                    assert(classify_spec(JsonView::Obj(es))
                        == project_from_entries(es));
                    assert(project_from_entries(es) matches Ok(got) && got =~= ev);
                }
            }
            let r = JsonValue::Obj(out);
            proof {
                assert(r@ =~= encode_spec(ev));
            }
            r
        },
        Event::Account(a) => {
            let AccountEvent { account_id, event_data } = a;
            let ghost exv = entry_views(event_data@);
            let mut out: Vec<(String, JsonValue)> = Vec::new();
            out.push((String::from_str("AccountId"), JsonValue::UInt(account_id)));
            let ghost head = entry_views(out@);
            proof {
                lemma_entry_views_index(out@);
                assert(head =~= seq![(account_id_key(), JsonView::UInt(account_id))]);
            }
            let mut extra = event_data;
            out.append(&mut extra);
            let ghost es = entry_views(out@);
            proof {
                lemma_entry_views_concat(out@.subrange(0, 1), event_data@);
                assert(out@.subrange(0, 1) + event_data@ =~= out@);
                assert(entry_views(out@.subrange(0, 1)) == head) by {
                    lemma_entry_views_index(out@.subrange(0, 1));
                    lemma_entry_views_index(out@);
                    assert(entry_views(out@.subrange(0, 1)) =~= head);
                }
                assert(es =~= head + exv);
                assert(es[0] == (account_id_key(), JsonView::UInt(account_id)));
                assert(obj_has_key(es, account_id_key()));
                assert(obj_first_value(es, account_id_key()) == JsonView::UInt(account_id));
                if ev.well_formed() {
                    lemma_obj_has_key_exists(exv, account_id_key());
                    lemma_obj_has_key_exists(exv, project_id_key());
                    // No `ProjectId` anywhere, so the account branch is taken.
                    assert(es.drop_first() =~= exv);
                    assert(!obj_has_key(es, project_id_key()));
                    assert forall|i: int| 0 <= i < exv.len() implies !account_keys().contains(
                        #[trigger] exv[i].0,
                    ) by {
                        assert(account_keys().len() == 1);
                        assert(exv[i].0 != account_keys()[0]);
                    }
                    lemma_obj_without_keys_absent(exv, account_keys());
                    assert(account_keys()[0] == account_id_key());
                    assert(account_keys().contains(es[0].0));
                    assert(obj_without_keys(es, account_keys()) == obj_without_keys(
                        es.drop_first(),
                        account_keys(),
                    ));
                    assert(classify_spec(JsonView::Obj(es)) == account_from_entries(es));
                    assert(account_from_entries(es) matches Ok(got) && got =~= ev);
                }
            }
            let r = JsonValue::Obj(out);
            proof {
                assert(r@ =~= encode_spec(ev));
            }
            r
        },
    }
}

} // verus!

