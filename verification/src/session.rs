//! The session: what the server remembers between two runs.

use crate::extrapolation::extrapolate_settings_cache;
use crate::json::{JsonMap, JsonValue, JsonView};
use crate::schema::SchemaNode;
use crate::settings::json_cache_to_settings;
use vstd::prelude::*;

verus! {

/// What a client tells of itself.
#[derive(Debug, PartialEq)]
pub struct ClientHandshakePacket {
    pub packet_type: u32,
    pub alvr_name: [u8; 4],
    pub version: [u8; 32],
    pub device_name: [u8; 32],
    pub client_refresh_rate: u16,
    pub render_width: u32,
    pub render_height: u32,
}

/// Whether a client can be reached, and whether it is trusted.
#[derive(Debug)]
pub enum ClientConnectionState {
    AvailableUntrusted,
    AvailableTrusted,
    UnavailableTrusted,
}

/// A client that was seen.
#[derive(Debug)]
pub struct ClientConnectionDesc {
    pub state: ClientConnectionState,
    pub last_update_ms_since_epoch: u64,
    pub address: String,
    pub handshake_packet: ClientHandshakePacket,
}

/// The session. The settings cache is held as the JSON value that it is
/// stored as.
#[derive(Debug)]
pub struct SessionDesc {
    pub setup_wizard: bool,
    pub last_clients: Vec<ClientConnectionDesc>,
    pub settings_cache: JsonValue,
}

/// What a client told of itself, whatever holds it.
pub struct ClientHandshakeView {
    pub packet_type: u32,
    pub alvr_name: Seq<u8>,
    pub version: Seq<u8>,
    pub device_name: Seq<u8>,
    pub client_refresh_rate: u16,
    pub render_width: u32,
    pub render_height: u32,
}

impl View for ClientHandshakePacket {
    type V = ClientHandshakeView;

    open spec fn view(&self) -> ClientHandshakeView {
        ClientHandshakeView {
            packet_type: self.packet_type,
            alvr_name: self.alvr_name@,
            version: self.version@,
            device_name: self.device_name@,
            client_refresh_rate: self.client_refresh_rate,
            render_width: self.render_width,
            render_height: self.render_height,
        }
    }
}

/// What a client that was seen is, whatever holds it.
pub struct ClientView {
    pub state: ClientConnectionState,
    pub last_update_ms_since_epoch: u64,
    pub address: Seq<char>,
    pub handshake_packet: ClientHandshakeView,
}

impl View for ClientConnectionDesc {
    type V = ClientView;

    open spec fn view(&self) -> ClientView {
        ClientView {
            state: self.state,
            last_update_ms_since_epoch: self.last_update_ms_since_epoch,
            address: self.address@,
            handshake_packet: self.handshake_packet@,
        }
    }
}

/// What a session is, whatever holds it.
pub struct SessionView {
    pub setup_wizard: bool,
    pub last_clients: Seq<ClientView>,
    pub settings_cache: JsonView,
}

impl View for SessionDesc {
    type V = SessionView;

    open spec fn view(&self) -> SessionView {
        SessionView {
            setup_wizard: self.setup_wizard,
            last_clients: self.last_clients@.map_values(|client: ClientConnectionDesc| client@),
            settings_cache: self.settings_cache@,
        }
    }
}

/// The settings of this version: their schema, and the cache that holds the
/// default of each.
#[derive(Debug)]
pub struct SettingsDefinition {
    pub schema: SchemaNode,
    pub cache_default: JsonValue,
}

/// Why a stored session could not be merged.
#[derive(Debug)]
pub enum MergeError {
    /// The default session could not be written as JSON.
    DefaultSession(String),
    /// The default session is not a JSON object.
    DefaultSessionNotObject,
    /// The stored session has no settings cache.
    SettingsCacheMissing,
    /// The extrapolated settings cache is not a settings cache.
    SettingsCacheExtrapolationFailed(String),
}

/// The session of a first run.
pub open spec fn default_session(cache_default: JsonView) -> SessionView {
    SessionView {
        setup_wizard: true,
        last_clients: Seq::empty(),
        settings_cache: cache_default,
    }
}

/// The session that a merge starts from: the one that was decoded, or else the
/// default session.
pub open spec fn base_session(
    decoded_session: Option<SessionDesc>,
    definition: &SettingsDefinition,
) -> SessionView {
    match decoded_session {
        Some(session_desc) => session_desc@,
        None => default_session(definition.cache_default@),
    }
}

/// The fields of the stored session, as far as the default session has them
/// too; those of the default session for the rest, and the default settings
/// cache in any case.
pub open spec fn merged_fields(
    old_fields: Map<Seq<char>, JsonView>,
    json_value: JsonView,
    cache_default: JsonView,
) -> Map<Seq<char>, JsonView> {
    Map::new(
        |name: Seq<char>| old_fields.contains_key(name),
        |name: Seq<char>|
            if name == "settingsCache"@ {
                cache_default
            } else {
                match json_value.get(name) {
                    Some(value) => value,
                    None => old_fields[name],
                }
            },
    )
}

/// The settings cache of the stored session, carried over to this version.
pub open spec fn merged_cache(
    old_session: JsonView,
    json_value: JsonView,
    schema: crate::schema::SchemaView,
) -> Option<JsonView> {
    match json_value.get("settingsCache"@) {
        Some(new_cache) => Some(
            crate::extrapolation::carried_over(
                old_session.member("settingsCache"@),
                new_cache,
                schema,
            ),
        ),
        None => None,
    }
}

/// What a merge has to have decoded, where the stored session is not one of
/// this version.
#[derive(Debug)]
pub struct MergePlan {
    /// A session, with the default settings cache.
    pub session: JsonValue,
    /// The settings cache, if the stored session has one.
    pub settings_cache: Option<JsonValue>,
}

/// Builds the fields of the merged session: see `merged_fields`.
fn merge_fields(
    old_fields: &JsonMap,
    json_value: &JsonValue,
    cache_default: &JsonValue,
) -> (fields: JsonMap)
    ensures
        fields@ == merged_fields(old_fields@, json_value@, cache_default@),
{
    let settings_cache: String = "settingsCache".to_owned();
    let mut fields = JsonMap::new();
    let n: usize = old_fields.len();
    let ghost names = old_fields.names();
    let ghost expected = merged_fields(old_fields@, json_value@, cache_default@);
    let mut i: usize = 0;
    while i < n
        invariant
            i <= n,
            n == names.len(),
            names == old_fields.names(),
            settings_cache@ == "settingsCache"@,
            expected == merged_fields(old_fields@, json_value@, cache_default@),
            forall|name: Seq<char>|
                old_fields@.contains_key(name) <==> #[trigger] names.contains(name),
            forall|name: Seq<char>|
                #[trigger] fields@.contains_key(name) <==> names.take(i as int).contains(name),
            forall|name: Seq<char>| #[trigger]
                fields@.contains_key(name) ==> fields@[name] == expected[name],
        decreases n - i,
    {
        let (name, old_value) = old_fields.entry(i);
        let value = if *name == settings_cache {
            cache_default.clone()
        } else {
            match json_value.get(name.as_str()) {
                Some(value) => value.clone(),
                None => old_value.clone(),
            }
        };
        proof {
            let before = names.take(i as int);
            assert(names.take(i + 1) == before.push(name@));
            assert forall|other: Seq<char>| #[trigger]
                names.take(i + 1).contains(other) <==> before.contains(other) || other == name@ by {
                if before.contains(other) {
                    let j = choose|j: int| 0 <= j < before.len() && before[j] == other;
                    assert(names.take(i + 1)[j] == other);
                }
                assert(names.take(i + 1)[i as int] == name@);
            }
        }
        fields.insert(name.clone(), value);
        i += 1;
    }
    assert(names.take(i as int) == names);
    assert(fields@ =~= expected);
    fields
}

/// The parts of a stored session of another version that go into a merge.
///
/// `old_session_json` is the default session as JSON, or why it could not be
/// written.
pub fn plan_merge(
    json_value: &JsonValue,
    old_session_json: Result<JsonValue, String>,
    definition: &SettingsDefinition,
) -> (plan: Result<MergePlan, MergeError>)
    ensures
        match old_session_json {
            Err(error) => plan == Err::<MergePlan, _>(MergeError::DefaultSession(error)),
            Ok(old_session) => match old_session@ {
                JsonView::Object(old_fields) => plan matches Ok(plan) && plan.holds(
                    old_session@,
                    old_fields,
                    json_value@,
                    definition,
                ),
                _ => plan == Err::<MergePlan, _>(MergeError::DefaultSessionNotObject),
            },
        },
{
    let old_session = match old_session_json {
        Ok(old_session) => old_session,
        Err(error) => return Err(MergeError::DefaultSession(error)),
    };
    let old_fields = match &old_session {
        JsonValue::Object(old_fields) => old_fields,
        _ => return Err(MergeError::DefaultSessionNotObject),
    };
    let settings_cache = match json_value.get("settingsCache") {
        Some(new_cache) => Some(
            extrapolate_settings_cache(
                old_session.member("settingsCache"),
                new_cache,
                &definition.schema,
            ),
        ),
        None => None,
    };
    let fields = merge_fields(old_fields, json_value, &definition.cache_default);
    Ok(MergePlan { session: JsonValue::Object(fields), settings_cache })
}

impl MergePlan {
    /// The plan for merging `json_value`, on top of a default session with
    /// these fields.
    pub open spec fn holds(
        self,
        old_session: JsonView,
        old_fields: Map<Seq<char>, JsonView>,
        json_value: JsonView,
        definition: &SettingsDefinition,
    ) -> bool {
        &&& self.session@ == JsonView::Object(
            merged_fields(old_fields, json_value, definition.cache_default@),
        )
        &&& match self.settings_cache {
            Some(cache) => merged_cache(old_session, json_value, definition.schema@) == Some(
                cache@,
            ),
            None => merged_cache(old_session, json_value, definition.schema@) is None,
        }
    }
}

/// How a merge ends, once the parts of its plan have been decoded, or not.
pub open spec fn finished(
    before: SessionDesc,
    decoded_session: Option<SessionDesc>,
    decoded_cache: Option<Result<JsonValue, String>>,
    definition: &SettingsDefinition,
    after: SessionDesc,
    result: Result<(), MergeError>,
) -> bool {
    match decoded_cache {
        None => {
            &&& result == Err::<(), _>(MergeError::SettingsCacheMissing)
            &&& after == before
        },
        Some(Ok(cache)) => {
            &&& result == Ok::<_, MergeError>(())
            &&& after@ == (SessionView {
                settings_cache: cache@,
                ..base_session(decoded_session, definition)
            })
        },
        Some(Err(error)) => {
            &&& result == Err::<(), _>(MergeError::SettingsCacheExtrapolationFailed(error))
            &&& after@ == base_session(decoded_session, definition)
        },
    }
}

/// How the merge of a stored session that is not one of this version ends:
/// the parts of the plan are handed to the decoders, and what they reply
/// decides.
pub open spec fn extrapolated<DecodeSession, DecodeCache>(
    before: SessionDesc,
    json_value: JsonValue,
    old_session_json: Result<JsonValue, String>,
    definition: &SettingsDefinition,
    decode_session: DecodeSession,
    decode_cache: DecodeCache,
    after: SessionDesc,
    result: Result<(), MergeError>,
) -> bool where
    DecodeSession: Fn(&JsonValue) -> Option<SessionDesc>,
    DecodeCache: Fn(&JsonValue) -> Result<JsonValue, String>,
 {
    match old_session_json {
        Err(error) => {
            &&& result == Err::<(), _>(MergeError::DefaultSession(error))
            &&& after == before
        },
        Ok(old_session) => match old_session@ {
            JsonView::Object(old_fields) => exists|
                plan: MergePlan,
                decoded_session: Option<SessionDesc>,
                decoded_cache: Option<Result<JsonValue, String>>,
            |
                {
                    &&& #[trigger] plan.holds(old_session@, old_fields, json_value@, definition)
                    &&& call_ensures(decode_session, (&plan.session,), decoded_session)
                    &&& match plan.settings_cache {
                        Some(cache) => decoded_cache matches Some(reply) && call_ensures(
                            decode_cache,
                            (&cache,),
                            reply,
                        ),
                        None => decoded_cache is None,
                    }
                    &&& #[trigger] finished(
                        before,
                        decoded_session,
                        decoded_cache,
                        definition,
                        after,
                        result,
                    )
                },
            _ => {
                &&& result == Err::<(), _>(MergeError::DefaultSessionNotObject)
                &&& after == before
            },
        },
    }
}

/// Whether this is what the encoder makes of the session of a first run.
pub open spec fn encodes_default<EncodeSession>(
    definition: &SettingsDefinition,
    encode_session: EncodeSession,
    json: Result<JsonValue, String>,
) -> bool where EncodeSession: Fn(&SessionDesc) -> Result<JsonValue, String> {
    exists|session: SessionDesc|
        session@ == default_session(definition.cache_default@) && #[trigger] call_ensures(
            encode_session,
            (&session,),
            json,
        )
}

/// How the merge of a stored session ends. One that decodes as a session is
/// taken as it is. Any other is merged on top of the session of a first run,
/// as the encoder writes it.
pub open spec fn merged<EncodeSession, DecodeSession, DecodeCache>(
    before: SessionDesc,
    json_value: JsonValue,
    definition: &SettingsDefinition,
    encode_session: EncodeSession,
    decode_session: DecodeSession,
    decode_cache: DecodeCache,
    after: SessionDesc,
    result: Result<(), MergeError>,
) -> bool where
    EncodeSession: Fn(&SessionDesc) -> Result<JsonValue, String>,
    DecodeSession: Fn(&JsonValue) -> Option<SessionDesc>,
    DecodeCache: Fn(&JsonValue) -> Result<JsonValue, String>,
 {
    exists|whole: Option<SessionDesc>| #[trigger]
        call_ensures(decode_session, (&json_value,), whole) && match whole {
            Some(session_desc) => {
                &&& result == Ok::<_, MergeError>(())
                &&& after == session_desc
            },
            None => exists|old_session_json: Result<JsonValue, String>| #[trigger]
                encodes_default(definition, encode_session, old_session_json) && extrapolated(
                    before,
                    json_value,
                    old_session_json,
                    definition,
                    decode_session,
                    decode_cache,
                    after,
                    result,
                ),
        }
}

/// The session of a first run as JSON, or why it could not be written.
pub fn encoded_default<EncodeSession>(
    definition: &SettingsDefinition,
    encode_session: &EncodeSession,
) -> (json: Result<JsonValue, String>) where
    EncodeSession: Fn(&SessionDesc) -> Result<JsonValue, String>,

    requires
        forall|session: &SessionDesc| call_requires(*encode_session, (session,)),
    ensures
        encodes_default(definition, *encode_session, json),
{
    let session = SessionDesc::default(definition);
    encode_session(&session)
}

impl SessionDesc {
    /// The session of a first run: the setup wizard is due, no client was
    /// seen, and each setting has its default.
    pub fn default(definition: &SettingsDefinition) -> (session: SessionDesc)
        ensures
            session@ == default_session(definition.cache_default@),
    {
        let session = SessionDesc {
            setup_wizard: true,
            last_clients: Vec::new(),
            settings_cache: definition.cache_default.clone(),
        };
        assert(session@.last_clients =~= Seq::empty());
        session
    }

    /// The settings, as they are read off the settings cache.
    pub fn to_settings(&self, definition: &SettingsDefinition) -> (settings: JsonValue)
        requires
            crate::settings::readable(self@.settings_cache, definition.schema@),
        ensures
            settings@ == crate::settings::settings_of(self@.settings_cache, definition.schema@),
    {
        json_cache_to_settings(&self.settings_cache, &definition.schema)
    }

    /// The last step of a merge. `decoded_session` is the session of the plan,
    /// if it could be decoded: that it could not is passed over, and the
    /// default session takes its place. `decoded_cache` is the settings cache
    /// of the plan, or why it could not be decoded; none, if the plan has
    /// none.
    pub fn finish_merge(
        &mut self,
        decoded_session: Option<SessionDesc>,
        decoded_cache: Option<Result<JsonValue, String>>,
        definition: &SettingsDefinition,
    ) -> (result: Result<(), MergeError>)
        ensures
            finished(
                *old(self),
                decoded_session,
                decoded_cache,
                definition,
                *final(self),
                result,
            ),
    {
        let mut session_desc = match decoded_session {
            Some(session_desc) => session_desc,
            None => SessionDesc::default(definition),
        };
        match decoded_cache {
            None => Err(MergeError::SettingsCacheMissing),
            Some(Ok(settings_cache)) => {
                session_desc.settings_cache = settings_cache;
                *self = session_desc;
                Ok(())
            },
            Some(Err(error)) => {
                *self = session_desc;
                Err(MergeError::SettingsCacheExtrapolationFailed(error))
            },
        }
    }

    /// Takes over a stored session. One of this version is taken as it is. Of
    /// one of another version, as much as possible is extrapolated.
    ///
    /// `encode_session` writes a session as JSON. `decode_session` and
    /// `decode_cache` say whether a JSON value is a session, or a settings
    /// cache, of this version.
    pub fn merge_from_json<EncodeSession, DecodeSession, DecodeCache>(
        &mut self,
        json_value: JsonValue,
        definition: &SettingsDefinition,
        encode_session: &EncodeSession,
        decode_session: &DecodeSession,
        decode_cache: &DecodeCache,
    ) -> (result: Result<(), MergeError>) where
        EncodeSession: Fn(&SessionDesc) -> Result<JsonValue, String>,
        DecodeSession: Fn(&JsonValue) -> Option<SessionDesc>,
        DecodeCache: Fn(&JsonValue) -> Result<JsonValue, String>,

        requires
            forall|session: &SessionDesc| call_requires(*encode_session, (session,)),
            forall|value: &JsonValue| call_requires(*decode_session, (value,)),
            forall|value: &JsonValue| call_requires(*decode_cache, (value,)),
        ensures
            merged(
                *old(self),
                json_value,
                definition,
                *encode_session,
                *decode_session,
                *decode_cache,
                *final(self),
                result,
            ),
    {
        if let Some(session_desc) = decode_session(&json_value) {
            *self = session_desc;
            return Ok(());
        }
        let old_session_json = encoded_default(definition, encode_session);
        let plan = match plan_merge(&json_value, old_session_json, definition) {
            Ok(plan) => plan,
            Err(error) => return Err(error),
        };
        let decoded_session = decode_session(&plan.session);
        let decoded_cache = match &plan.settings_cache {
            Some(settings_cache) => Some(decode_cache(settings_cache)),
            None => None,
        };
        self.finish_merge(decoded_session, decoded_cache, definition)
    }
}

/// The merged session has the fields of the default session and no others;
/// its settings cache is the default one, and any other field is the stored
/// one, if there is one.
pub proof fn lemma_merged_fields(
    old_fields: Map<Seq<char>, JsonView>,
    json_value: JsonView,
    cache_default: JsonView,
    name: Seq<char>,
)
    ensures
        merged_fields(old_fields, json_value, cache_default).contains_key(name)
            <==> old_fields.contains_key(name),
        old_fields.contains_key(name) && name == "settingsCache"@ ==> merged_fields(
            old_fields,
            json_value,
            cache_default,
        )[name] == cache_default,
        old_fields.contains_key(name) && name != "settingsCache"@ ==> (match json_value.get(name) {
            Some(value) => merged_fields(old_fields, json_value, cache_default)[name] == value,
            None => merged_fields(old_fields, json_value, cache_default)[name]
                == old_fields[name],
        }),
{
}

/// A stored session that is one of this version is taken as it is.
pub proof fn lemma_stored_session_is_taken<EncodeSession, DecodeSession, DecodeCache>(
    before: SessionDesc,
    json_value: JsonValue,
    definition: &SettingsDefinition,
    encode_session: EncodeSession,
    decode_session: DecodeSession,
    decode_cache: DecodeCache,
    after: SessionDesc,
    result: Result<(), MergeError>,
) where
    EncodeSession: Fn(&SessionDesc) -> Result<JsonValue, String>,
    DecodeSession: Fn(&JsonValue) -> Option<SessionDesc>,
    DecodeCache: Fn(&JsonValue) -> Result<JsonValue, String>,

    requires
        merged(
            before,
            json_value,
            definition,
            encode_session,
            decode_session,
            decode_cache,
            after,
            result,
        ),
        forall|reply: Option<SessionDesc>| #[trigger]
            call_ensures(decode_session, (&json_value,), reply) ==> reply is Some,
    ensures
        result is Ok,
        call_ensures(decode_session, (&json_value,), Some(after)),
{
}

/// The settings cache of a merged session is one that was decoded, from the
/// stored settings cache as it was carried over.
pub proof fn lemma_merged_cache_was_decoded<EncodeSession, DecodeSession, DecodeCache>(
    before: SessionDesc,
    json_value: JsonValue,
    definition: &SettingsDefinition,
    encode_session: EncodeSession,
    decode_session: DecodeSession,
    decode_cache: DecodeCache,
    after: SessionDesc,
    result: Result<(), MergeError>,
) where
    EncodeSession: Fn(&SessionDesc) -> Result<JsonValue, String>,
    DecodeSession: Fn(&JsonValue) -> Option<SessionDesc>,
    DecodeCache: Fn(&JsonValue) -> Result<JsonValue, String>,

    requires
        merged(
            before,
            json_value,
            definition,
            encode_session,
            decode_session,
            decode_cache,
            after,
            result,
        ),
        forall|reply: Option<SessionDesc>| #[trigger]
            call_ensures(decode_session, (&json_value,), reply) ==> reply is None,
        result is Ok,
    ensures
        exists|old_session: JsonValue, extrapolated: JsonValue, decoded: JsonValue|
            {
                &&& #[trigger] encodes_default(
                    definition,
                    encode_session,
                    Ok::<JsonValue, String>(old_session),
                )
                &&& merged_cache(old_session@, json_value@, definition.schema@) == Some(
                    extrapolated@,
                )
                &&& #[trigger] call_ensures(
                    decode_cache,
                    (&extrapolated,),
                    Ok::<JsonValue, String>(decoded),
                )
                &&& after@.settings_cache == decoded@
            },
{
    let (whole, old_session_json, plan, decoded_session, decoded_cache) = merge_steps(
        before,
        json_value,
        definition,
        encode_session,
        decode_session,
        decode_cache,
        after,
        result,
    );
    let old_session = old_session_json->Ok_0;
    let extrapolated = plan.settings_cache->Some_0;
    let decoded = decoded_cache->Some_0->Ok_0;
    assert(encodes_default(definition, encode_session, Ok::<JsonValue, String>(old_session)));
    assert(call_ensures(decode_cache, (&extrapolated,), Ok::<JsonValue, String>(decoded)));
}

/// A merge that has no default session to build on, or no settings cache to
/// carry over, leaves the session as it was.
pub proof fn lemma_stopped_merge_changes_nothing<EncodeSession, DecodeSession, DecodeCache>(
    before: SessionDesc,
    json_value: JsonValue,
    definition: &SettingsDefinition,
    encode_session: EncodeSession,
    decode_session: DecodeSession,
    decode_cache: DecodeCache,
    after: SessionDesc,
    result: Result<(), MergeError>,
) where
    EncodeSession: Fn(&SessionDesc) -> Result<JsonValue, String>,
    DecodeSession: Fn(&JsonValue) -> Option<SessionDesc>,
    DecodeCache: Fn(&JsonValue) -> Result<JsonValue, String>,

    requires
        merged(
            before,
            json_value,
            definition,
            encode_session,
            decode_session,
            decode_cache,
            after,
            result,
        ),
        result matches Err(error) && !(error is SettingsCacheExtrapolationFailed),
    ensures
        after == before,
{
}

/// The steps of a merge: what became of the stored session as a whole, and,
/// where it is not one of this version, the default session as JSON, the plan,
/// and what became of its parts.
pub(crate) proof fn merge_steps<EncodeSession, DecodeSession, DecodeCache>(
    before: SessionDesc,
    json_value: JsonValue,
    definition: &SettingsDefinition,
    encode_session: EncodeSession,
    decode_session: DecodeSession,
    decode_cache: DecodeCache,
    after: SessionDesc,
    result: Result<(), MergeError>,
) -> (steps: (
    Option<SessionDesc>,
    Result<JsonValue, String>,
    MergePlan,
    Option<SessionDesc>,
    Option<Result<JsonValue, String>>,
)) where
    EncodeSession: Fn(&SessionDesc) -> Result<JsonValue, String>,
    DecodeSession: Fn(&JsonValue) -> Option<SessionDesc>,
    DecodeCache: Fn(&JsonValue) -> Result<JsonValue, String>,

    requires
        merged(
            before,
            json_value,
            definition,
            encode_session,
            decode_session,
            decode_cache,
            after,
            result,
        ),
    ensures
        call_ensures(decode_session, (&json_value,), steps.0),
        match steps.0 {
            Some(session_desc) => {
                &&& result == Ok::<_, MergeError>(())
                &&& after == session_desc
            },
            None => encodes_default(definition, encode_session, steps.1) && match steps.1 {
                Err(error) => {
                    &&& result == Err::<(), _>(MergeError::DefaultSession(error))
                    &&& after == before
                },
                Ok(old_session) => match old_session@ {
                    JsonView::Object(old_fields) => {
                        &&& steps.2.holds(old_session@, old_fields, json_value@, definition)
                        &&& call_ensures(decode_session, (&steps.2.session,), steps.3)
                        &&& match steps.2.settings_cache {
                            Some(cache) => steps.4 matches Some(reply) && call_ensures(
                                decode_cache,
                                (&cache,),
                                reply,
                            ),
                            None => steps.4 is None,
                        }
                        &&& finished(before, steps.3, steps.4, definition, after, result)
                    },
                    _ => {
                        &&& result == Err::<(), _>(MergeError::DefaultSessionNotObject)
                        &&& after == before
                    },
                },
            },
        },
{
    let whole = choose|whole: Option<SessionDesc>| #[trigger]
        call_ensures(decode_session, (&json_value,), whole) && match whole {
            Some(session_desc) => result is Ok && after == session_desc,
            None => exists|old_session_json: Result<JsonValue, String>| #[trigger]
                encodes_default(definition, encode_session, old_session_json) && extrapolated(
                    before,
                    json_value,
                    old_session_json,
                    definition,
                    decode_session,
                    decode_cache,
                    after,
                    result,
                ),
        };
    let old_session_json = choose|old_session_json: Result<JsonValue, String>| #[trigger]
        encodes_default(definition, encode_session, old_session_json) && extrapolated(
            before,
            json_value,
            old_session_json,
            definition,
            decode_session,
            decode_cache,
            after,
            result,
        );
    let old_session = old_session_json->Ok_0;
    let (plan, decoded_session, decoded_cache) = choose|
        plan: MergePlan,
        decoded_session: Option<SessionDesc>,
        decoded_cache: Option<Result<JsonValue, String>>,
    |
        {
            &&& #[trigger] plan.holds(
                old_session@,
                old_session@->Object_0,
                json_value@,
                definition,
            )
            &&& call_ensures(decode_session, (&plan.session,), decoded_session)
            &&& match plan.settings_cache {
                Some(cache) => decoded_cache matches Some(reply) && call_ensures(
                    decode_cache,
                    (&cache,),
                    reply,
                ),
                None => decoded_cache is None,
            }
            &&& #[trigger] finished(
                before,
                decoded_session,
                decoded_cache,
                definition,
                after,
                result,
            )
        };
    (whole, old_session_json, plan, decoded_session, decoded_cache)
}

/// Any other merge does not depend on the session that was there before.
pub proof fn lemma_merge_forgets<EncodeSession, DecodeSession, DecodeCache>(
    before: SessionDesc,
    other: SessionDesc,
    json_value: JsonValue,
    definition: &SettingsDefinition,
    encode_session: EncodeSession,
    decode_session: DecodeSession,
    decode_cache: DecodeCache,
    after: SessionDesc,
    result: Result<(), MergeError>,
) where
    EncodeSession: Fn(&SessionDesc) -> Result<JsonValue, String>,
    DecodeSession: Fn(&JsonValue) -> Option<SessionDesc>,
    DecodeCache: Fn(&JsonValue) -> Result<JsonValue, String>,

    requires
        merged(
            before,
            json_value,
            definition,
            encode_session,
            decode_session,
            decode_cache,
            after,
            result,
        ),
        result matches Err(error) ==> error is SettingsCacheExtrapolationFailed,
    ensures
        merged(
            other,
            json_value,
            definition,
            encode_session,
            decode_session,
            decode_cache,
            after,
            result,
        ),
{
    let (whole, old_session_json, plan, decoded_session, decoded_cache) = merge_steps(
        before,
        json_value,
        definition,
        encode_session,
        decode_session,
        decode_cache,
        after,
        result,
    );
    if whole is None {
        assert(plan.holds(
            old_session_json->Ok_0@,
            old_session_json->Ok_0@->Object_0,
            json_value@,
            definition,
        ));
        assert(finished(other, decoded_session, decoded_cache, definition, after, result));
        assert(encodes_default(definition, encode_session, old_session_json));
    }
}

/// Whether the fields other than the settings cache could be decoded has no
/// say in how a merge ends.
pub proof fn lemma_other_fields_are_not_notified(
    before: SessionDesc,
    first: Option<SessionDesc>,
    second: Option<SessionDesc>,
    decoded_cache: Option<Result<JsonValue, String>>,
    definition: &SettingsDefinition,
    after_first: SessionDesc,
    after_second: SessionDesc,
    first_result: Result<(), MergeError>,
    second_result: Result<(), MergeError>,
)
    requires
        finished(before, first, decoded_cache, definition, after_first, first_result),
        finished(before, second, decoded_cache, definition, after_second, second_result),
    ensures
        first_result == second_result,
{
}

/// Whether two decoded sessions are the same: neither is there, or both are
/// and are equal.
pub open spec fn same_session(first: Option<SessionDesc>, second: Option<SessionDesc>) -> bool {
    match (first, second) {
        (Some(first), Some(second)) => first@ == second@,
        (None, None) => true,
        _ => false,
    }
}

/// Whether two JSON values, or the errors that stand for them, are the same.
pub open spec fn same_json(
    first: Result<JsonValue, String>,
    second: Result<JsonValue, String>,
) -> bool {
    match (first, second) {
        (Ok(first), Ok(second)) => first@ == second@,
        (Err(first), Err(second)) => first@ == second@,
        _ => false,
    }
}

/// Whether two merges end the same way.
pub open spec fn same_result(
    first: Result<(), MergeError>,
    second: Result<(), MergeError>,
) -> bool {
    match (first, second) {
        (Ok(_), Ok(_)) => true,
        (Err(MergeError::DefaultSession(first)), Err(MergeError::DefaultSession(second))) => {
            first@ == second@
        },
        (Err(MergeError::DefaultSessionNotObject), Err(MergeError::DefaultSessionNotObject)) => {
            true
        },
        (Err(MergeError::SettingsCacheMissing), Err(MergeError::SettingsCacheMissing)) => true,
        (
            Err(MergeError::SettingsCacheExtrapolationFailed(first)),
            Err(MergeError::SettingsCacheExtrapolationFailed(second)),
        ) => first@ == second@,
        _ => false,
    }
}

/// Whether what a session encoder gives depends on what the session is alone.
pub open spec fn encodes_sessions_by_value<EncodeSession>(encode_session: EncodeSession) -> bool
    where EncodeSession: Fn(&SessionDesc) -> Result<JsonValue, String>
 {
    forall|
        first: &SessionDesc,
        second: &SessionDesc,
        first_json: Result<JsonValue, String>,
        second_json: Result<JsonValue, String>,
    |
        first@ == second@ && #[trigger] call_ensures(encode_session, (first,), first_json)
            && #[trigger] call_ensures(encode_session, (second,), second_json) ==> same_json(
            first_json,
            second_json,
        )
}

/// Whether the reply of a session decoder depends on the JSON value alone.
pub open spec fn decodes_sessions_by_value<DecodeSession>(decode_session: DecodeSession) -> bool
    where DecodeSession: Fn(&JsonValue) -> Option<SessionDesc>
 {
    forall|
        first: &JsonValue,
        second: &JsonValue,
        first_reply: Option<SessionDesc>,
        second_reply: Option<SessionDesc>,
    |
        first@ == second@ && #[trigger] call_ensures(decode_session, (first,), first_reply)
            && #[trigger] call_ensures(decode_session, (second,), second_reply) ==> same_session(
            first_reply,
            second_reply,
        )
}

/// Whether the reply of a settings cache decoder depends on the JSON value
/// alone.
pub open spec fn decodes_caches_by_value<DecodeCache>(decode_cache: DecodeCache) -> bool
    where DecodeCache: Fn(&JsonValue) -> Result<JsonValue, String>
 {
    forall|
        first: &JsonValue,
        second: &JsonValue,
        first_reply: Result<JsonValue, String>,
        second_reply: Result<JsonValue, String>,
    |
        first@ == second@ && #[trigger] call_ensures(decode_cache, (first,), first_reply)
            && #[trigger] call_ensures(decode_cache, (second,), second_reply) ==> same_json(
            first_reply,
            second_reply,
        )
}

/// Whether a session decoder reads a JSON value as this session.
pub open spec fn decodes_as<DecodeSession>(
    decode_session: DecodeSession,
    json_value: JsonView,
    session: SessionView,
) -> bool where DecodeSession: Fn(&JsonValue) -> Option<SessionDesc> {
    forall|value: &JsonValue, reply: Option<SessionDesc>|
        value@ == json_value && #[trigger] call_ensures(decode_session, (value,), reply) ==> (
        reply matches Some(decoded) && decoded@ == session)
}

/// Whether a stored session that is not one of this version gives nothing to
/// extrapolate, for want of a default session or of a settings cache.
pub open spec fn nothing_to_extrapolate<EncodeSession>(
    json_value: JsonView,
    definition: &SettingsDefinition,
    encode_session: EncodeSession,
) -> bool where EncodeSession: Fn(&SessionDesc) -> Result<JsonValue, String> {
    ||| json_value.get("settingsCache"@) is None
    ||| exists|old_session_json: Result<JsonValue, String>| #[trigger]
        encodes_default(definition, encode_session, old_session_json) && !(
        old_session_json matches Ok(old_session) && old_session@ is Object)
}

/// The session of a first run is written in one way only.
proof fn lemma_default_is_encoded_alike<EncodeSession>(
    definition: &SettingsDefinition,
    encode_session: EncodeSession,
    first_json: Result<JsonValue, String>,
    second_json: Result<JsonValue, String>,
) where EncodeSession: Fn(&SessionDesc) -> Result<JsonValue, String>
    requires
        encodes_sessions_by_value(encode_session),
        encodes_default(definition, encode_session, first_json),
        encodes_default(definition, encode_session, second_json),
    ensures
        same_json(first_json, second_json),
{
}

/// Two sessions that the same stored session is merged into end the same way,
/// and are equal afterwards. The one exception is a stored session that is not
/// one of this version and gives nothing to extrapolate: each session then
/// stays as it was.
pub proof fn lemma_merges_agree<EncodeSession, DecodeSession, DecodeCache>(
    first: SessionDesc,
    second: SessionDesc,
    first_json: JsonValue,
    second_json: JsonValue,
    definition: &SettingsDefinition,
    encode_session: EncodeSession,
    decode_session: DecodeSession,
    decode_cache: DecodeCache,
    after_first: SessionDesc,
    after_second: SessionDesc,
    first_result: Result<(), MergeError>,
    second_result: Result<(), MergeError>,
) where
    EncodeSession: Fn(&SessionDesc) -> Result<JsonValue, String>,
    DecodeSession: Fn(&JsonValue) -> Option<SessionDesc>,
    DecodeCache: Fn(&JsonValue) -> Result<JsonValue, String>,

    requires
        encodes_sessions_by_value(encode_session),
        decodes_sessions_by_value(decode_session),
        decodes_caches_by_value(decode_cache),
        first_json@ == second_json@,
        merged(
            first,
            first_json,
            definition,
            encode_session,
            decode_session,
            decode_cache,
            after_first,
            first_result,
        ),
        merged(
            second,
            second_json,
            definition,
            encode_session,
            decode_session,
            decode_cache,
            after_second,
            second_result,
        ),
    ensures
        same_result(first_result, second_result),
        if call_ensures(decode_session, (&first_json,), None::<SessionDesc>)
            && nothing_to_extrapolate(first_json@, definition, encode_session) {
            &&& first_result is Err
            &&& after_first == first
            &&& after_second == second
        } else {
            after_first@ == after_second@
        },
{
    let (whole, old_session_json, plan, decoded_session, decoded_cache) = merge_steps(
        first,
        first_json,
        definition,
        encode_session,
        decode_session,
        decode_cache,
        after_first,
        first_result,
    );
    let (other_whole, other_json, other_plan, other_session, other_cache) = merge_steps(
        second,
        second_json,
        definition,
        encode_session,
        decode_session,
        decode_cache,
        after_second,
        second_result,
    );
    assert(same_session(whole, other_whole));
    if whole is None {
        lemma_default_is_encoded_alike(definition, encode_session, old_session_json, other_json);
        if nothing_to_extrapolate(first_json@, definition, encode_session) && first_json@.get(
            "settingsCache"@,
        ) is Some {
            let unusable = choose|json: Result<JsonValue, String>| #[trigger]
                encodes_default(definition, encode_session, json) && !(json matches Ok(session)
                    && session@ is Object);
            lemma_default_is_encoded_alike(definition, encode_session, old_session_json, unusable);
        }
    }
    if whole is None && old_session_json is Ok && old_session_json->Ok_0@ is Object {
        assert(same_session(decoded_session, other_session));
        if let Some(cache) = plan.settings_cache {
            assert(same_json(decoded_cache->Some_0, other_cache->Some_0));
        }
    }
}

/// Merging the same stored session once more changes nothing, and ends the
/// same way.
pub proof fn lemma_merging_twice_is_merging_once<EncodeSession, DecodeSession, DecodeCache>(
    before: SessionDesc,
    once: SessionDesc,
    twice: SessionDesc,
    first_json: JsonValue,
    second_json: JsonValue,
    definition: &SettingsDefinition,
    encode_session: EncodeSession,
    decode_session: DecodeSession,
    decode_cache: DecodeCache,
    first_result: Result<(), MergeError>,
    second_result: Result<(), MergeError>,
) where
    EncodeSession: Fn(&SessionDesc) -> Result<JsonValue, String>,
    DecodeSession: Fn(&JsonValue) -> Option<SessionDesc>,
    DecodeCache: Fn(&JsonValue) -> Result<JsonValue, String>,

    requires
        encodes_sessions_by_value(encode_session),
        decodes_sessions_by_value(decode_session),
        decodes_caches_by_value(decode_cache),
        first_json@ == second_json@,
        merged(
            before,
            first_json,
            definition,
            encode_session,
            decode_session,
            decode_cache,
            once,
            first_result,
        ),
        merged(
            once,
            second_json,
            definition,
            encode_session,
            decode_session,
            decode_cache,
            twice,
            second_result,
        ),
    ensures
        twice@ == once@,
        same_result(first_result, second_result),
{
    lemma_merges_agree(
        before,
        once,
        first_json,
        second_json,
        definition,
        encode_session,
        decode_session,
        decode_cache,
        once,
        twice,
        first_result,
        second_result,
    );
}

/// Merging the JSON of a session gives that session, whatever the session was
/// before, and it is written as that JSON again: for a session that is read
/// back from the JSON that it is written as.
pub proof fn lemma_written_session_is_read_back<EncodeSession, DecodeSession, DecodeCache>(
    written: SessionDesc,
    before: SessionDesc,
    json_value: JsonValue,
    definition: &SettingsDefinition,
    encode_session: EncodeSession,
    decode_session: DecodeSession,
    decode_cache: DecodeCache,
    after: SessionDesc,
    result: Result<(), MergeError>,
) where
    EncodeSession: Fn(&SessionDesc) -> Result<JsonValue, String>,
    DecodeSession: Fn(&JsonValue) -> Option<SessionDesc>,
    DecodeCache: Fn(&JsonValue) -> Result<JsonValue, String>,

    requires
        encodes_sessions_by_value(encode_session),
        call_ensures(encode_session, (&written,), Ok::<JsonValue, String>(json_value)),
        decodes_as(decode_session, json_value@, written@),
        merged(
            before,
            json_value,
            definition,
            encode_session,
            decode_session,
            decode_cache,
            after,
            result,
        ),
    ensures
        result is Ok,
        after@ == written@,
        forall|json: Result<JsonValue, String>| #[trigger]
            call_ensures(encode_session, (&after,), json) ==> (json matches Ok(value) && value@
                == json_value@),
{
}

} // verus!
