//! The one who holds the session while the server runs.

use crate::json::JsonValue;
use crate::parse::parse_json;
use crate::session::{MergeError, SessionDesc, SettingsDefinition};
use crate::settings::is_readable;
use vstd::prelude::*;

verus! {

/// The name of the file that holds the session.
pub const SESSION_FNAME: &'static str = "session.json";

/// The name of the file that keeps a session of another version.
pub const SESSION_OLD_FNAME: &'static str = "session_old.json";

/// The name of the file that holds the settings of the session.
pub const SETTINGS_FNAME: &'static str = "settings.json";

/// Who updates the session, where it is the server itself.
pub const SERVER_SESSION_UPDATE_ID: &'static str = "";

/// What is left to do once the session manager is there, in this order.
#[derive(Debug)]
pub enum StartupAction {
    /// Keep this text as the session of another version.
    StoreOldSession(String),
    /// Tell that the session was extrapolated.
    ReportExtrapolated,
    /// Tell why the session was not extrapolated.
    ReportExtrapolationError(MergeError),
    /// Store the session.
    SaveSession,
}

/// The holder of the session, and where it is stored.
pub struct SessionManager<P> {
    session_desc: SessionDesc,
    dir: P,
}

/// Write access to the session. Once it ends, the session and its settings are
/// to be stored, and the update announced: see `update_actions`.
pub struct SessionLock<'a, P, U> {
    pub session_desc: &'a mut SessionDesc,
    pub dir: &'a P,
    pub update_author_id: &'a str,
    pub update_type: U,
}

/// The announcement that the session was updated.
#[derive(Debug)]
pub struct SessionUpdated<U> {
    pub web_client_id: String,
    pub update_type: U,
}

/// What is left to do once write access to the session ends, in this order.
#[derive(Debug)]
pub enum UpdateAction<U> {
    /// Store these settings.
    SaveSettings(JsonValue),
    /// Store the session.
    SaveSession,
    /// Announce that the session was updated.
    Announce(SessionUpdated<U>),
}

/// What comes of a stored session: the session that the manager starts with,
/// and what is left to do.
pub open spec fn restored<EncodeSession, DecodeSession, DecodeCache>(
    session_string: Seq<char>,
    json_value: JsonValue,
    definition: &SettingsDefinition,
    encode_session: EncodeSession,
    decode_session: DecodeSession,
    decode_cache: DecodeCache,
    session_desc: SessionDesc,
    actions: Seq<StartupAction>,
) -> bool where
    EncodeSession: Fn(&SessionDesc) -> Result<JsonValue, String>,
    DecodeSession: Fn(&JsonValue) -> Option<SessionDesc>,
    DecodeCache: Fn(&JsonValue) -> Result<JsonValue, String>,
 {
    exists|decoded: Option<SessionDesc>| #[trigger]
        call_ensures(decode_session, (&json_value,), decoded) && match decoded {
            Some(decoded) => session_desc == decoded && actions.len() == 0,
            None => exists|default: SessionDesc, result: Result<(), MergeError>|
                {
                    &&& default@ == crate::session::default_session(definition.cache_default@)
                    &&& #[trigger] crate::session::merged(
                        default,
                        json_value,
                        definition,
                        encode_session,
                        decode_session,
                        decode_cache,
                        session_desc,
                        result,
                    )
                    &&& actions.len() == 3
                    &&& actions[0] matches StartupAction::StoreOldSession(text) && text@
                        == session_string
                    &&& actions[1] == (match result {
                        Ok(_) => StartupAction::ReportExtrapolated,
                        Err(error) => StartupAction::ReportExtrapolationError(error),
                    })
                    &&& actions[2] == StartupAction::SaveSession
                },
        }
}

/// What a manager starts with: the session that was stored as this text, or
/// that of a first run.
pub open spec fn started_from<P, EncodeSession, DecodeSession, DecodeCache>(
    dir: P,
    session_string: Option<String>,
    definition: &SettingsDefinition,
    encode_session: EncodeSession,
    decode_session: DecodeSession,
    decode_cache: DecodeCache,
    manager: SessionManager<P>,
    actions: Seq<StartupAction>,
) -> bool where
    EncodeSession: Fn(&SessionDesc) -> Result<JsonValue, String>,
    DecodeSession: Fn(&JsonValue) -> Option<SessionDesc>,
    DecodeCache: Fn(&JsonValue) -> Result<JsonValue, String>,
 {
    &&& manager.dir() == dir
    &&& match session_string {
        None => {
            &&& manager.session()@ == crate::session::default_session(
                definition.cache_default@,
            )
            &&& actions.len() == 0
        },
        Some(text) => exists|json_value: JsonValue|
            crate::parse::json_text(text@) == Some(json_value@) && #[trigger] restored(
                text@,
                json_value,
                definition,
                encode_session,
                decode_session,
                decode_cache,
                manager.session(),
                actions,
            ),
    }
}

impl<P> SessionManager<P> {
    /// The session that the manager holds.
    pub closed spec fn session(self) -> SessionDesc {
        self.session_desc
    }

    /// Where the session is stored.
    pub closed spec fn dir(self) -> P {
        self.dir
    }

    /// The manager of the session that was stored as this text; of the session
    /// of a first run, if there is none.
    pub fn new<EncodeSession, DecodeSession, DecodeCache>(
        dir: P,
        session_string: Option<String>,
        definition: &SettingsDefinition,
        encode_session: &EncodeSession,
        decode_session: &DecodeSession,
        decode_cache: &DecodeCache,
    ) -> (started: (SessionManager<P>, Vec<StartupAction>)) where
        EncodeSession: Fn(&SessionDesc) -> Result<JsonValue, String>,
        DecodeSession: Fn(&JsonValue) -> Option<SessionDesc>,
        DecodeCache: Fn(&JsonValue) -> Result<JsonValue, String>,

        requires
            session_string matches Some(text) ==> crate::parse::json_text(text@) is Some,
            forall|session: &SessionDesc| call_requires(*encode_session, (session,)),
            forall|value: &JsonValue| call_requires(*decode_session, (value,)),
            forall|value: &JsonValue| call_requires(*decode_cache, (value,)),
        ensures
            started_from(
                dir,
                session_string,
                definition,
                *encode_session,
                *decode_session,
                *decode_cache,
                started.0,
                started.1@,
            ),
    {
        match session_string {
            None => (
                SessionManager { session_desc: SessionDesc::default(definition), dir },
                Vec::new(),
            ),
            Some(text) => match parse_json(text.as_str()) {
                Ok(json_value) => Self::restore(
                    dir,
                    text,
                    json_value,
                    definition,
                    encode_session,
                    decode_session,
                    decode_cache,
                ),
                Err(_) => {
                    assert(false);
                    (
                        SessionManager { session_desc: SessionDesc::default(definition), dir },
                        Vec::new(),
                    )
                },
            },
        }
    }

    /// The manager of the session that was stored as this text, if it is a
    /// JSON text: see `new`.
    pub fn try_new<EncodeSession, DecodeSession, DecodeCache>(
        dir: P,
        session_string: Option<String>,
        definition: &SettingsDefinition,
        encode_session: &EncodeSession,
        decode_session: &DecodeSession,
        decode_cache: &DecodeCache,
    ) -> (started: Option<(SessionManager<P>, Vec<StartupAction>)>) where
        EncodeSession: Fn(&SessionDesc) -> Result<JsonValue, String>,
        DecodeSession: Fn(&JsonValue) -> Option<SessionDesc>,
        DecodeCache: Fn(&JsonValue) -> Result<JsonValue, String>,

        requires
            forall|session: &SessionDesc| call_requires(*encode_session, (session,)),
            forall|value: &JsonValue| call_requires(*decode_session, (value,)),
            forall|value: &JsonValue| call_requires(*decode_cache, (value,)),
        ensures
            started is None <==> (session_string matches Some(text) && crate::parse::json_text(
                text@,
            ) is None),
            started matches Some(started) ==> started_from(
                dir,
                session_string,
                definition,
                *encode_session,
                *decode_session,
                *decode_cache,
                started.0,
                started.1@,
            ),
    {
        if let Some(text) = &session_string {
            if parse_json(text.as_str()).is_err() {
                return None;
            }
        }
        Some(
            Self::new(
                dir,
                session_string,
                definition,
                encode_session,
                decode_session,
                decode_cache,
            ),
        )
    }

    /// The manager of a session that was stored as this text, which holds this
    /// JSON value.
    pub fn restore<EncodeSession, DecodeSession, DecodeCache>(
        dir: P,
        session_string: String,
        json_value: JsonValue,
        definition: &SettingsDefinition,
        encode_session: &EncodeSession,
        decode_session: &DecodeSession,
        decode_cache: &DecodeCache,
    ) -> (started: (SessionManager<P>, Vec<StartupAction>)) where
        EncodeSession: Fn(&SessionDesc) -> Result<JsonValue, String>,
        DecodeSession: Fn(&JsonValue) -> Option<SessionDesc>,
        DecodeCache: Fn(&JsonValue) -> Result<JsonValue, String>,

        requires
            forall|session: &SessionDesc| call_requires(*encode_session, (session,)),
            forall|value: &JsonValue| call_requires(*decode_session, (value,)),
            forall|value: &JsonValue| call_requires(*decode_cache, (value,)),
        ensures
            started.0.dir() == dir,
            restored(
                session_string@,
                json_value,
                definition,
                *encode_session,
                *decode_session,
                *decode_cache,
                started.0.session(),
                started.1@,
            ),
    {
        let mut actions: Vec<StartupAction> = Vec::new();
        if let Some(session_desc) = decode_session(&json_value) {
            return (SessionManager { session_desc, dir }, actions);
        }
        actions.push(StartupAction::StoreOldSession(session_string));
        let mut session_desc = SessionDesc::default(definition);
        match session_desc.merge_from_json(
            json_value,
            definition,
            encode_session,
            decode_session,
            decode_cache,
        ) {
            Ok(_) => actions.push(StartupAction::ReportExtrapolated),
            Err(error) => actions.push(StartupAction::ReportExtrapolationError(error)),
        }
        actions.push(StartupAction::SaveSession);
        (SessionManager { session_desc, dir }, actions)
    }

    /// The session.
    pub fn get(&self) -> (session_desc: &SessionDesc)
        ensures
            *session_desc == self.session(),
    {
        &self.session_desc
    }

    /// Write access to the session, for the one who is named.
    pub fn get_mut<'a, U>(&'a mut self, update_author_id: &'a str, update_type: U) -> (lock:
        SessionLock<'a, P, U>)
        ensures
            lock.session() == old(self).session(),
            *lock.dir == old(self).dir(),
            lock.update_author_id == update_author_id,
            lock.update_type == update_type,
            final(self).session() == *final(lock.session_desc),
            final(self).dir() == old(self).dir(),
    {
        SessionLock {
            session_desc: &mut self.session_desc,
            dir: &self.dir,
            update_author_id,
            update_type,
        }
    }
}

/// What is left to do after an update of the session: to store its settings,
/// if they can be read off its settings cache; to store the session; and to
/// announce the update.
pub open spec fn ended<U>(
    session_desc: SessionDesc,
    update_author_id: Seq<char>,
    update_type: U,
    definition: &SettingsDefinition,
    actions: Seq<UpdateAction<U>>,
) -> bool {
    let cache = session_desc@.settings_cache;
    let schema = definition.schema@;
    let first: int = if crate::settings::readable(cache, schema) {
        1
    } else {
        0
    };
    &&& actions.len() == first + 2
    &&& first == 1 ==> (actions[0] matches UpdateAction::SaveSettings(settings) && settings@
        == crate::settings::settings_of(cache, schema))
    &&& actions[first] is SaveSession
    &&& actions[first + 1] matches UpdateAction::Announce(event) && event.web_client_id@
        == update_author_id && event.update_type == update_type
}

impl<'a, P, U> SessionLock<'a, P, U> {
    /// The session as it stands.
    pub open spec fn session(self) -> SessionDesc {
        *self.session_desc
    }

    /// The session.
    pub fn deref(&self) -> (session_desc: &SessionDesc)
        ensures
            *session_desc == self.session(),
    {
        &*self.session_desc
    }

    /// The session, to be written.
    pub fn deref_mut(&mut self) -> (session_desc: &mut SessionDesc)
        ensures
            *session_desc == old(self).session(),
            final(self).session() == *final(session_desc),
            *final(final(self).session_desc) == *final(old(self).session_desc),
            final(self).dir == old(self).dir,
            final(self).update_author_id == old(self).update_author_id,
            final(self).update_type == old(self).update_type,
    {
        &mut *self.session_desc
    }

    /// The settings that are to be stored once the access ends: those of the
    /// session, if they can be read off its settings cache.
    pub fn saved_settings(&self, definition: &SettingsDefinition) -> (settings: Option<JsonValue>)
        ensures
            settings is Some <==> crate::settings::readable(
                self.session()@.settings_cache,
                definition.schema@,
            ),
            settings matches Some(settings) ==> settings@ == crate::settings::settings_of(
                self.session()@.settings_cache,
                definition.schema@,
            ),
    {
        let session_desc = self.deref();
        if is_readable(&session_desc.settings_cache, &definition.schema) {
            Some(session_desc.to_settings(definition))
        } else {
            None
        }
    }

    /// What is announced once the access ends.
    pub fn session_updated(&self) -> (event: SessionUpdated<U>) where U: Copy
        ensures
            event.web_client_id@ == self.update_author_id@,
            event.update_type == self.update_type,
    {
        SessionUpdated {
            web_client_id: self.update_author_id.to_owned(),
            update_type: self.update_type,
        }
    }

    /// What is left to do once the access ends: the settings are stored, if
    /// they can be read; then, in any case, the session; and last, the update
    /// is announced, once.
    pub fn update_actions(&self, definition: &SettingsDefinition) -> (actions: Vec<
        UpdateAction<U>,
    >) where U: Copy
        ensures
            ended(self.session(), self.update_author_id@, self.update_type, definition, actions@),
    {
        let mut actions: Vec<UpdateAction<U>> = Vec::new();
        if let Some(settings) = self.saved_settings(definition) {
            actions.push(UpdateAction::SaveSettings(settings));
        }
        actions.push(UpdateAction::SaveSession);
        actions.push(UpdateAction::Announce(self.session_updated()));
        actions
    }
}

/// Whether two stored texts are the same: neither is there, or both are and
/// are equal.
pub open spec fn same_text(first: Option<String>, second: Option<String>) -> bool {
    match (first, second) {
        (Some(first), Some(second)) => first@ == second@,
        (None, None) => true,
        _ => false,
    }
}

/// Whether a stored text is a JSON text that is read as this session.
pub open spec fn stores<DecodeSession>(
    session_string: Option<String>,
    decode_session: DecodeSession,
    session: crate::session::SessionView,
) -> bool where DecodeSession: Fn(&JsonValue) -> Option<SessionDesc> {
    session_string matches Some(text) && crate::parse::json_text(text@) matches Some(json_value)
        && crate::session::decodes_as(decode_session, json_value, session)
}

/// A manager that starts after another one has the same session and nothing
/// left to do: where the first had nothing to do and the stored text is still
/// the same, and where the text that is stored now is read as the session of
/// the first.
pub proof fn lemma_next_start_is_quiet<P, EncodeSession, DecodeSession, DecodeCache>(
    first_dir: P,
    second_dir: P,
    first_string: Option<String>,
    second_string: Option<String>,
    definition: &SettingsDefinition,
    encode_session: EncodeSession,
    decode_session: DecodeSession,
    decode_cache: DecodeCache,
    first: SessionManager<P>,
    second: SessionManager<P>,
    first_actions: Seq<StartupAction>,
    second_actions: Seq<StartupAction>,
) where
    EncodeSession: Fn(&SessionDesc) -> Result<JsonValue, String>,
    DecodeSession: Fn(&JsonValue) -> Option<SessionDesc>,
    DecodeCache: Fn(&JsonValue) -> Result<JsonValue, String>,

    requires
        crate::session::decodes_sessions_by_value(decode_session),
        started_from(
            first_dir,
            first_string,
            definition,
            encode_session,
            decode_session,
            decode_cache,
            first,
            first_actions,
        ),
        started_from(
            second_dir,
            second_string,
            definition,
            encode_session,
            decode_session,
            decode_cache,
            second,
            second_actions,
        ),
        ({
            ||| first_actions.len() == 0 && same_text(first_string, second_string)
            ||| stores(second_string, decode_session, first.session()@)
        }),
    ensures
        second.session()@ == first.session()@,
        second_actions.len() == 0,
{
}

} // verus!
