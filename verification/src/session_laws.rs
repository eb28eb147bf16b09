//! What becomes of a session in a merge, told of calls and their results.

use crate::extrapolation::extrapolate_settings_cache;
use crate::json::{JsonValue, JsonView};
use crate::parts;
use crate::session::{
    encoded_default, plan_merge, ClientConnectionDesc, MergeError, MergePlan, SessionDesc,
    SettingsDefinition,
};
use crate::settings::{is_readable, json_cache_to_settings};
use vstd::prelude::*;

verus! {

/// Whether two clients are the same, field by field.
pub open spec fn same_client(first: ClientConnectionDesc, second: ClientConnectionDesc) -> bool {
    &&& first.state == second.state
    &&& first.last_update_ms_since_epoch == second.last_update_ms_since_epoch
    &&& first.address@ == second.address@
    &&& first.handshake_packet.packet_type == second.handshake_packet.packet_type
    &&& first.handshake_packet.alvr_name@ == second.handshake_packet.alvr_name@
    &&& first.handshake_packet.version@ == second.handshake_packet.version@
    &&& first.handshake_packet.device_name@ == second.handshake_packet.device_name@
    &&& first.handshake_packet.client_refresh_rate == second.handshake_packet.client_refresh_rate
    &&& first.handshake_packet.render_width == second.handshake_packet.render_width
    &&& first.handshake_packet.render_height == second.handshake_packet.render_height
}

/// Whether two sessions are the same but for their settings caches: the setup
/// wizard, and each client in its order.
pub open spec fn same_but_for_cache(first: SessionDesc, second: SessionDesc) -> bool {
    &&& first.setup_wizard == second.setup_wizard
    &&& first.last_clients@.len() == second.last_clients@.len()
    &&& forall|i: int|
        0 <= i < first.last_clients@.len() ==> same_client(
            #[trigger] first.last_clients@[i],
            second.last_clients@[i],
        )
}

/// Whether a session is that of a first run: the setup wizard is due, no
/// client was seen, and each setting has its default.
pub open spec fn is_first_run(session: SessionDesc, definition: SettingsDefinition) -> bool {
    &&& session.setup_wizard
    &&& session.last_clients@.len() == 0
    &&& session.settings_cache@ == definition.cache_default@
}

/// Sessions with one model are the same, field by field.
pub(crate) proof fn lemma_same_model_same_fields(first: SessionDesc, second: SessionDesc)
    ensures
        first@ == second@ <==> same_but_for_cache(first, second) && first.settings_cache@
            == second.settings_cache@,
        first@.setup_wizard == second@.setup_wizard && first@.last_clients == second@.last_clients
            <==> same_but_for_cache(first, second),
{
    let clients = first@.last_clients;
    let others = second@.last_clients;
    if clients == others {
        assert(first.last_clients@.len() == clients.len());
        assert(second.last_clients@.len() == others.len());
        assert forall|i: int| 0 <= i < first.last_clients@.len() implies same_client(
            #[trigger] first.last_clients@[i],
            second.last_clients@[i],
        ) by {
            assert(clients[i] == first.last_clients@[i]@);
            assert(others[i] == second.last_clients@[i]@);
        }
    }
    if same_but_for_cache(first, second) {
        assert forall|i: int| 0 <= i < clients.len() implies #[trigger] clients[i]
            == others[i] by {
            assert(same_client(first.last_clients@[i], second.last_clients@[i]));
        }
        assert(clients =~= others);
    }
}

/// The session of a first run is the one with the model of a first run.
pub(crate) proof fn lemma_first_run(session: SessionDesc, definition: SettingsDefinition)
    ensures
        is_first_run(session, definition) <==> session@ == crate::session::default_session(
            definition.cache_default@,
        ),
{
    let clients = session@.last_clients;
    assert(clients.len() == session.last_clients@.len());
    if clients.len() == 0 {
        assert(clients =~= Seq::empty());
    }
}

/// How a merge leaves a session, where the plan was decoded, or not: what is
/// not the settings cache comes from the session that was decoded, and from
/// that of a first run where none was; so does the settings cache, unless it
/// was decoded on its own.
pub open spec fn is_merged(
    after: SessionDesc,
    decoded_session: Option<SessionDesc>,
    decoded_cache: Result<JsonValue, String>,
    definition: SettingsDefinition,
    result: Result<(), MergeError>,
) -> bool {
    &&& match decoded_session {
        Some(decoded) => same_but_for_cache(after, decoded),
        None => after.setup_wizard && after.last_clients@.len() == 0,
    }
    &&& match decoded_cache {
        Ok(cache) => result is Ok && after.settings_cache@ == cache@,
        Err(error) => {
            &&& result matches Err(MergeError::SettingsCacheExtrapolationFailed(e)) && e@ == error@
            &&& after.settings_cache@ == match decoded_session {
                Some(decoded) => decoded.settings_cache@,
                None => definition.cache_default@,
            }
        },
    }
}

/// How a merge ends gives the session that `is_merged` asks for.
proof fn lemma_finished_is_merged(
    before: SessionDesc,
    decoded_session: Option<SessionDesc>,
    decoded_cache: Result<JsonValue, String>,
    definition: SettingsDefinition,
    after: SessionDesc,
    result: Result<(), MergeError>,
)
    requires
        crate::session::finished(
            before,
            decoded_session,
            Some(decoded_cache),
            &definition,
            after,
            result,
        ),
    ensures
        is_merged(after, decoded_session, decoded_cache, definition, result),
{
    match decoded_session {
        Some(decoded) => {
            lemma_same_model_same_fields(after, decoded);
        },
        None => {
            assert(after@.last_clients.len() == after.last_clients@.len());
        },
    }
}

/// The session of a first run.
pub proof fn lemma_default_is_that_of_a_first_run(
    definition: SettingsDefinition,
    session: SessionDesc,
)
    requires
        call_ensures(SessionDesc::default, (&definition,), session),
    ensures
        is_first_run(session, definition),
{
    lemma_first_run(session, definition);
}

/// What is written as the default session is the session of a first run.
pub proof fn lemma_first_run_is_what_is_encoded<EncodeSession>(
    definition: SettingsDefinition,
    encode_session: EncodeSession,
    json: Result<JsonValue, String>,
) where EncodeSession: Fn(&SessionDesc) -> Result<JsonValue, String>
    requires
        call_ensures(encoded_default::<EncodeSession>, (&definition, &encode_session), json),
    ensures
        exists|session: SessionDesc|
            is_first_run(session, definition) && #[trigger] call_ensures(
                encode_session,
                (&session,),
                json,
            ),
{
    let session = choose|session: SessionDesc|
        session@ == crate::session::default_session(definition.cache_default@)
            && #[trigger] call_ensures(encode_session, (&session,), json);
    lemma_first_run(session, definition);
}

/// The settings of a session are those of its settings cache.
pub proof fn lemma_settings_are_those_of_the_cache(
    session: SessionDesc,
    definition: SettingsDefinition,
    settings: JsonValue,
    cache_settings: JsonValue,
)
    requires
        call_ensures(SessionDesc::to_settings, (&session, &definition), settings),
        call_ensures(
            json_cache_to_settings,
            (&session.settings_cache, &definition.schema),
            cache_settings,
        ),
    ensures
        settings@ == cache_settings@,
{
}

/// Whether these are the fields that a merge has to have decoded: those of the
/// default session, with the stored value where there is one, and the default
/// settings cache in any case.
pub open spec fn are_merged_fields(
    old_fields: Map<Seq<char>, JsonView>,
    json_value: JsonView,
    cache_default: JsonView,
    fields: Map<Seq<char>, JsonView>,
) -> bool {
    forall|name: Seq<char>|
        {
            &&& #[trigger] fields.dom().contains(name) <==> old_fields.dom().contains(name)
            &&& old_fields.dom().contains(name) ==> fields[name] == if name
                == "settingsCache"@ {
                cache_default
            } else if parts::has_member(json_value, name) {
                json_value->Object_0[name]
            } else {
                old_fields[name]
            }
        }
}

/// The fields that are asked for are the merged ones.
proof fn lemma_merged_fields_are_those(
    old_fields: Map<Seq<char>, JsonView>,
    json_value: JsonView,
    cache_default: JsonView,
    fields: Map<Seq<char>, JsonView>,
)
    ensures
        are_merged_fields(old_fields, json_value, cache_default, fields) <==> fields
            == crate::session::merged_fields(old_fields, json_value, cache_default),
{
    let merged = crate::session::merged_fields(old_fields, json_value, cache_default);
    if are_merged_fields(old_fields, json_value, cache_default, fields) {
        assert forall|name: Seq<char>| #[trigger]
            fields.dom().contains(name) <==> merged.dom().contains(name) by {}
        assert forall|name: Seq<char>| #[trigger]
            fields.dom().contains(name) implies fields[name] == merged[name] by {}
        assert(fields =~= merged);
    }
}

/// The plan of a merge asks for the stored fields that the default session
/// has too, and for the stored settings cache, carried over on top of that of
/// the default session. Without a default session there is no plan.
pub proof fn lemma_plan_asks_for_what_is_stored(
    json_value: JsonValue,
    old_session_json: Result<JsonValue, String>,
    definition: SettingsDefinition,
    plan: Result<MergePlan, MergeError>,
    old_cache: JsonValue,
    new_cache: JsonValue,
    cache: JsonValue,
)
    requires
        call_ensures(plan_merge, (&json_value, old_session_json, &definition), plan),
    ensures
        old_session_json matches Err(error) ==> (plan matches Err(MergeError::DefaultSession(e))
            && e == error),
        old_session_json matches Ok(old_session) && !(old_session@ is Object)
            ==> plan matches Err(MergeError::DefaultSessionNotObject),
        old_session_json matches Ok(old_session) && old_session@ is Object ==> {
            &&& plan is Ok
            &&& plan->Ok_0.session@ is Object
            &&& are_merged_fields(
                old_session_json->Ok_0@->Object_0,
                json_value@,
                definition.cache_default@,
                plan->Ok_0.session@->Object_0,
            )
            &&& plan->Ok_0.settings_cache is Some <==> parts::has_member(
                json_value@,
                "settingsCache"@,
            )
            &&& parts::has_member(json_value@, "settingsCache"@) && parts::is_part(
                old_session_json->Ok_0@,
                "settingsCache"@,
                old_cache@,
            ) && parts::is_part(json_value@, "settingsCache"@, new_cache@) && call_ensures(
                extrapolate_settings_cache,
                (&old_cache, &new_cache, &definition.schema),
                cache,
            ) ==> plan->Ok_0.settings_cache->Some_0@ == cache@
        },
{
    if let Ok(plan) = plan {
        lemma_merged_fields_are_those(
            old_session_json->Ok_0@->Object_0,
            json_value@,
            definition.cache_default@,
            plan.session@->Object_0,
        );
    }
}

/// The last step of a merge: the session that was decoded is taken, with every
/// client that it knows, and only its settings cache is replaced; without a
/// settings cache, the session stays as it was.
pub proof fn lemma_decoded_session_is_taken(
    session: &mut SessionDesc,
    decoded_session: Option<SessionDesc>,
    decoded_cache: Option<Result<JsonValue, String>>,
    definition: SettingsDefinition,
    result: Result<(), MergeError>,
)
    requires
        call_ensures(
            SessionDesc::finish_merge,
            (session, decoded_session, decoded_cache, &definition),
            result,
        ),
    ensures
        match decoded_cache {
            None => {
                &&& result matches Err(MergeError::SettingsCacheMissing)
                &&& *final(session) == *old(session)
            },
            Some(decoded_cache) => is_merged(
                *final(session),
                decoded_session,
                decoded_cache,
                definition,
                result,
            ),
        },
{
    if let Some(decoded_cache) = decoded_cache {
        lemma_finished_is_merged(
            *old(session),
            decoded_session,
            decoded_cache,
            definition,
            *final(session),
            result,
        );
    }
}

/// Whether this is what a session decoder replies to a JSON value.
pub open spec fn replies_session<DecodeSession>(
    decode_session: DecodeSession,
    json_value: JsonView,
    expected: Option<SessionDesc>,
) -> bool where DecodeSession: Fn(&JsonValue) -> Option<SessionDesc> {
    forall|value: &JsonValue, reply: Option<SessionDesc>|
        value@ == json_value && #[trigger] call_ensures(decode_session, (value,), reply) ==> (
        match (reply, expected) {
            (Some(decoded), Some(expected)) => {
                &&& same_but_for_cache(decoded, expected)
                &&& decoded.settings_cache@ == expected.settings_cache@
            },
            (None, None) => true,
            _ => false,
        })
}

/// Whether this is what a settings cache decoder replies to a JSON value.
pub open spec fn replies_cache<DecodeCache>(
    decode_cache: DecodeCache,
    json_value: JsonView,
    expected: Result<JsonValue, String>,
) -> bool where DecodeCache: Fn(&JsonValue) -> Result<JsonValue, String> {
    forall|value: &JsonValue, reply: Result<JsonValue, String>|
        value@ == json_value && #[trigger] call_ensures(decode_cache, (value,), reply) ==> (match (
            reply,
            expected,
        ) {
            (Ok(decoded), Ok(expected)) => decoded@ == expected@,
            (Err(error), Err(expected)) => error@ == expected@,
            _ => false,
        })
}

/// Whether the session of a first run is written as this.
pub open spec fn first_run_is_written_as<EncodeSession>(
    definition: SettingsDefinition,
    encode_session: EncodeSession,
    expected: Result<JsonView, Seq<char>>,
) -> bool where EncodeSession: Fn(&SessionDesc) -> Result<JsonValue, String> {
    forall|session: &SessionDesc, json: Result<JsonValue, String>|
        is_first_run(*session, definition) && #[trigger] call_ensures(
            encode_session,
            (session,),
            json,
        ) ==> (match (json, expected) {
            (Ok(written), Ok(expected)) => written@ == expected,
            (Err(error), Err(expected)) => error@ == expected,
            _ => false,
        })
}

/// The encoded default session is written as it is expected.
proof fn lemma_encoded_as_expected<EncodeSession>(
    definition: SettingsDefinition,
    encode_session: EncodeSession,
    expected: Result<JsonView, Seq<char>>,
    json: Result<JsonValue, String>,
) where EncodeSession: Fn(&SessionDesc) -> Result<JsonValue, String>
    requires
        first_run_is_written_as(definition, encode_session, expected),
        crate::session::encodes_default(&definition, encode_session, json),
    ensures
        match (json, expected) {
            (Ok(written), Ok(expected)) => written@ == expected,
            (Err(error), Err(expected)) => error@ == expected,
            _ => false,
        },
{
    let session = choose|session: SessionDesc|
        session@ == crate::session::default_session(definition.cache_default@)
            && #[trigger] call_ensures(encode_session, (&session,), json);
    lemma_first_run(session, definition);
    assert(call_ensures(encode_session, (&session,), json));
}

/// What a merge has to work with: what the decoders and the encoder say of a
/// stored session of another version that has a settings cache.
pub open spec fn gives_a_plan<EncodeSession, DecodeSession, DecodeCache>(
    json_value: JsonView,
    definition: SettingsDefinition,
    encode_session: EncodeSession,
    decode_session: DecodeSession,
    decode_cache: DecodeCache,
    old_fields: Map<Seq<char>, JsonView>,
    fields: Map<Seq<char>, JsonView>,
    decoded_session: Option<SessionDesc>,
    old_cache: JsonValue,
    new_cache: JsonValue,
    cache: JsonValue,
    decoded_cache: Result<JsonValue, String>,
) -> bool where
    EncodeSession: Fn(&SessionDesc) -> Result<JsonValue, String>,
    DecodeSession: Fn(&JsonValue) -> Option<SessionDesc>,
    DecodeCache: Fn(&JsonValue) -> Result<JsonValue, String>,
 {
    &&& replies_session(decode_session, json_value, None)
    &&& first_run_is_written_as(definition, encode_session, Ok(JsonView::Object(old_fields)))
    &&& are_merged_fields(old_fields, json_value, definition.cache_default@, fields)
    &&& replies_session(decode_session, JsonView::Object(fields), decoded_session)
    &&& parts::has_member(json_value, "settingsCache"@)
    &&& parts::is_part(JsonView::Object(old_fields), "settingsCache"@, old_cache@)
    &&& parts::is_part(json_value, "settingsCache"@, new_cache@)
    &&& call_ensures(
        extrapolate_settings_cache,
        (&old_cache, &new_cache, &definition.schema),
        cache,
    )
    &&& replies_cache(decode_cache, cache@, decoded_cache)
}

/// A merge of a stored session of another version, over what it is known to
/// do.
pub(crate) proof fn lemma_merged_by_plan<EncodeSession, DecodeSession, DecodeCache>(
    before: SessionDesc,
    json_value: JsonValue,
    definition: SettingsDefinition,
    encode_session: EncodeSession,
    decode_session: DecodeSession,
    decode_cache: DecodeCache,
    old_fields: Map<Seq<char>, JsonView>,
    fields: Map<Seq<char>, JsonView>,
    decoded_session: Option<SessionDesc>,
    old_cache: JsonValue,
    new_cache: JsonValue,
    cache: JsonValue,
    decoded_cache: Result<JsonValue, String>,
    after: SessionDesc,
    result: Result<(), MergeError>,
) where
    EncodeSession: Fn(&SessionDesc) -> Result<JsonValue, String>,
    DecodeSession: Fn(&JsonValue) -> Option<SessionDesc>,
    DecodeCache: Fn(&JsonValue) -> Result<JsonValue, String>,

    requires
        crate::session::merged(
            before,
            json_value,
            &definition,
            encode_session,
            decode_session,
            decode_cache,
            after,
            result,
        ),
        gives_a_plan(
            json_value@,
            definition,
            encode_session,
            decode_session,
            decode_cache,
            old_fields,
            fields,
            decoded_session,
            old_cache,
            new_cache,
            cache,
            decoded_cache,
        ),
    ensures
        is_merged(after, decoded_session, decoded_cache, definition, result),
{
    let (whole, old_session_json, plan, session_reply, cache_reply) = crate::session::merge_steps(
        before,
        json_value,
        &definition,
        encode_session,
        decode_session,
        decode_cache,
        after,
        result,
    );
    assert(whole is None);
    lemma_encoded_as_expected(
        definition,
        encode_session,
        Ok(JsonView::Object(old_fields)),
        old_session_json,
    );
    lemma_merged_fields_are_those(old_fields, json_value@, definition.cache_default@, fields);
    assert(plan.session@ == JsonView::Object(fields));
    assert(call_ensures(decode_session, (&plan.session,), session_reply));
    assert(plan.settings_cache->Some_0@ == cache@);
    assert(call_ensures(decode_cache, (&plan.settings_cache->Some_0,), cache_reply->Some_0));
    lemma_finished_is_merged(
        before,
        session_reply,
        cache_reply->Some_0,
        definition,
        after,
        result,
    );
    if let Some(decoded) = decoded_session {
        lemma_same_model_same_fields(after, session_reply->Some_0);
        lemma_same_model_same_fields(session_reply->Some_0, decoded);
        lemma_same_model_same_fields(after, decoded);
    }
}

/// A stored session of another version: afterwards the session is the one that
/// the stored fields decode as, with its setup wizard and each of its clients,
/// and only the settings cache is replaced, by the one that the stored settings
/// cache, carried over, decodes as. Where that does not decode, the session
/// keeps the settings cache that it was decoded with, and the merge tells why.
pub proof fn lemma_merge_takes_over_what_is_stored<EncodeSession, DecodeSession, DecodeCache>(
    session: &mut SessionDesc,
    json_value: JsonValue,
    definition: SettingsDefinition,
    encode_session: EncodeSession,
    decode_session: DecodeSession,
    decode_cache: DecodeCache,
    old_fields: Map<Seq<char>, JsonView>,
    fields: Map<Seq<char>, JsonView>,
    decoded_session: Option<SessionDesc>,
    old_cache: JsonValue,
    new_cache: JsonValue,
    cache: JsonValue,
    decoded_cache: Result<JsonValue, String>,
    result: Result<(), MergeError>,
) where
    EncodeSession: Fn(&SessionDesc) -> Result<JsonValue, String>,
    DecodeSession: Fn(&JsonValue) -> Option<SessionDesc>,
    DecodeCache: Fn(&JsonValue) -> Result<JsonValue, String>,

    requires
        call_ensures(
            SessionDesc::merge_from_json::<EncodeSession, DecodeSession, DecodeCache>,
            (session, json_value, &definition, &encode_session, &decode_session, &decode_cache),
            result,
        ),
        gives_a_plan(
            json_value@,
            definition,
            encode_session,
            decode_session,
            decode_cache,
            old_fields,
            fields,
            decoded_session,
            old_cache,
            new_cache,
            cache,
            decoded_cache,
        ),
    ensures
        is_merged(*final(session), decoded_session, decoded_cache, definition, result),
{
    lemma_merged_by_plan(
        *old(session),
        json_value,
        definition,
        encode_session,
        decode_session,
        decode_cache,
        old_fields,
        fields,
        decoded_session,
        old_cache,
        new_cache,
        cache,
        decoded_cache,
        *final(session),
        result,
    );
}

/// A stored session of this version is taken as it is, field by field.
pub proof fn lemma_merge_takes_a_session_of_this_version<
    EncodeSession,
    DecodeSession,
    DecodeCache,
>(
    session: &mut SessionDesc,
    json_value: JsonValue,
    definition: SettingsDefinition,
    encode_session: EncodeSession,
    decode_session: DecodeSession,
    decode_cache: DecodeCache,
    decoded: SessionDesc,
    result: Result<(), MergeError>,
) where
    EncodeSession: Fn(&SessionDesc) -> Result<JsonValue, String>,
    DecodeSession: Fn(&JsonValue) -> Option<SessionDesc>,
    DecodeCache: Fn(&JsonValue) -> Result<JsonValue, String>,

    requires
        call_ensures(
            SessionDesc::merge_from_json::<EncodeSession, DecodeSession, DecodeCache>,
            (session, json_value, &definition, &encode_session, &decode_session, &decode_cache),
            result,
        ),
        replies_session(decode_session, json_value@, Some(decoded)),
    ensures
        result is Ok,
        same_but_for_cache(*final(session), decoded),
        final(session).settings_cache@ == decoded.settings_cache@,
{
    let steps = crate::session::merge_steps(
        *old(session),
        json_value,
        &definition,
        encode_session,
        decode_session,
        decode_cache,
        *final(session),
        result,
    );
    assert(call_ensures(decode_session, (&json_value,), steps.0));
}

/// Whether a merge of a stored session of another version has nothing to work
/// with, and what it tells then.
pub open spec fn stops_with<EncodeSession>(
    json_value: JsonView,
    definition: SettingsDefinition,
    encode_session: EncodeSession,
    written: Result<JsonView, Seq<char>>,
    error: MergeError,
) -> bool where EncodeSession: Fn(&SessionDesc) -> Result<JsonValue, String> {
    &&& first_run_is_written_as(definition, encode_session, written)
    &&& match written {
        Err(text) => error matches MergeError::DefaultSession(e) && e@ == text,
        Ok(json) => if json is Object {
            &&& !parts::has_member(json_value, "settingsCache"@)
            &&& error is SettingsCacheMissing
        } else {
            error is DefaultSessionNotObject
        },
    }
}

/// Whether two errors of a merge tell the same.
pub open spec fn same_error(first: MergeError, second: MergeError) -> bool {
    match (first, second) {
        (MergeError::DefaultSession(first), MergeError::DefaultSession(second)) => first@
            == second@,
        (MergeError::DefaultSessionNotObject, MergeError::DefaultSessionNotObject) => true,
        (MergeError::SettingsCacheMissing, MergeError::SettingsCacheMissing) => true,
        (
            MergeError::SettingsCacheExtrapolationFailed(first),
            MergeError::SettingsCacheExtrapolationFailed(second),
        ) => first@ == second@,
        _ => false,
    }
}

/// A merge that stops, over what it is known to do.
pub(crate) proof fn lemma_stopped<EncodeSession, DecodeSession, DecodeCache>(
    before: SessionDesc,
    json_value: JsonValue,
    definition: SettingsDefinition,
    encode_session: EncodeSession,
    decode_session: DecodeSession,
    decode_cache: DecodeCache,
    written: Result<JsonView, Seq<char>>,
    error: MergeError,
    after: SessionDesc,
    result: Result<(), MergeError>,
) where
    EncodeSession: Fn(&SessionDesc) -> Result<JsonValue, String>,
    DecodeSession: Fn(&JsonValue) -> Option<SessionDesc>,
    DecodeCache: Fn(&JsonValue) -> Result<JsonValue, String>,

    requires
        crate::session::merged(
            before,
            json_value,
            &definition,
            encode_session,
            decode_session,
            decode_cache,
            after,
            result,
        ),
        replies_session(decode_session, json_value@, None),
        stops_with(json_value@, definition, encode_session, written, error),
    ensures
        result matches Err(e) && same_error(e, error),
        after == before,
{
    let steps = crate::session::merge_steps(
        before,
        json_value,
        &definition,
        encode_session,
        decode_session,
        decode_cache,
        after,
        result,
    );
    assert(call_ensures(decode_session, (&json_value,), steps.0));
    lemma_encoded_as_expected(definition, encode_session, written, steps.1);
}

/// A merge of a stored session of another version that has no default session
/// to build on, or no settings cache to carry over, tells which, and leaves
/// the session as it was.
pub proof fn lemma_merge_without_a_plan_changes_nothing<
    EncodeSession,
    DecodeSession,
    DecodeCache,
>(
    session: &mut SessionDesc,
    json_value: JsonValue,
    definition: SettingsDefinition,
    encode_session: EncodeSession,
    decode_session: DecodeSession,
    decode_cache: DecodeCache,
    written: Result<JsonView, Seq<char>>,
    error: MergeError,
    result: Result<(), MergeError>,
) where
    EncodeSession: Fn(&SessionDesc) -> Result<JsonValue, String>,
    DecodeSession: Fn(&JsonValue) -> Option<SessionDesc>,
    DecodeCache: Fn(&JsonValue) -> Result<JsonValue, String>,

    requires
        call_ensures(
            SessionDesc::merge_from_json::<EncodeSession, DecodeSession, DecodeCache>,
            (session, json_value, &definition, &encode_session, &decode_session, &decode_cache),
            result,
        ),
        replies_session(decode_session, json_value@, None),
        stops_with(json_value@, definition, encode_session, written, error),
    ensures
        result matches Err(e) && same_error(e, error),
        *final(session) == *old(session),
{
    lemma_stopped(
        *old(session),
        json_value,
        definition,
        encode_session,
        decode_session,
        decode_cache,
        written,
        error,
        *final(session),
        result,
    );
}

/// Any stored value can be merged into any session, with an encoder that
/// writes any session and decoders that answer to any value; and the settings
/// of any session can be read whose settings cache can.
pub proof fn lemma_anything_can_be_merged<EncodeSession, DecodeSession, DecodeCache>(
    session: &mut SessionDesc,
    json_value: JsonValue,
    old_session_json: Result<JsonValue, String>,
    definition: SettingsDefinition,
    encode_session: EncodeSession,
    decode_session: DecodeSession,
    decode_cache: DecodeCache,
    decoded_session: Option<SessionDesc>,
    decoded_cache: Option<Result<JsonValue, String>>,
) where
    EncodeSession: Fn(&SessionDesc) -> Result<JsonValue, String>,
    DecodeSession: Fn(&JsonValue) -> Option<SessionDesc>,
    DecodeCache: Fn(&JsonValue) -> Result<JsonValue, String>,

    requires
        forall|session: &SessionDesc| call_requires(encode_session, (session,)),
        forall|value: &JsonValue| call_requires(decode_session, (value,)),
        forall|value: &JsonValue| call_requires(decode_cache, (value,)),
    ensures
        call_requires(SessionDesc::default, (&definition,)),
        call_requires(encoded_default::<EncodeSession>, (&definition, &encode_session)),
        call_requires(plan_merge, (&json_value, old_session_json, &definition)),
        call_requires(
            SessionDesc::finish_merge,
            (session, decoded_session, decoded_cache, &definition),
        ),
        call_requires(
            SessionDesc::merge_from_json::<EncodeSession, DecodeSession, DecodeCache>,
            (session, json_value, &definition, &encode_session, &decode_session, &decode_cache),
        ),
        call_ensures(is_readable, (&old(session).settings_cache, &definition.schema), true)
            ==> call_requires(SessionDesc::to_settings, (&*old(session), &definition)),
{
}

} // verus!
