//! What a manager starts with, and what is left to do after an update, told of
//! calls and their results.

use crate::json::{JsonValue, JsonView};
use crate::manager::{
    SessionLock, SessionManager, SessionUpdated, StartupAction, UpdateAction,
};
use crate::session::{MergeError, SessionDesc, SettingsDefinition};
use crate::settings::{is_readable, json_cache_to_settings};
use vstd::prelude::*;

verus! {

/// Whether a manager was started from a stored text that holds this JSON
/// value, in one of the ways to start one.
pub open spec fn starts<P, EncodeSession, DecodeSession, DecodeCache>(
    dir: P,
    text: String,
    json_value: JsonView,
    definition: SettingsDefinition,
    encode_session: EncodeSession,
    decode_session: DecodeSession,
    decode_cache: DecodeCache,
    started: (SessionManager<P>, Vec<StartupAction>),
) -> bool where
    EncodeSession: Fn(&SessionDesc) -> Result<JsonValue, String>,
    DecodeSession: Fn(&JsonValue) -> Option<SessionDesc>,
    DecodeCache: Fn(&JsonValue) -> Result<JsonValue, String>,
 {
    ||| crate::parse::json_text(text@) == Some(json_value) && call_ensures(
        SessionManager::<P>::new::<EncodeSession, DecodeSession, DecodeCache>,
        (dir, Some(text), &definition, &encode_session, &decode_session, &decode_cache),
        started,
    )
    ||| crate::parse::json_text(text@) == Some(json_value) && call_ensures(
        SessionManager::<P>::try_new::<EncodeSession, DecodeSession, DecodeCache>,
        (dir, Some(text), &definition, &encode_session, &decode_session, &decode_cache),
        Some(started),
    )
    ||| exists|value: JsonValue|
        value@ == json_value && #[trigger] call_ensures(
            SessionManager::<P>::restore::<EncodeSession, DecodeSession, DecodeCache>,
            (dir, text, value, &definition, &encode_session, &decode_session, &decode_cache),
            started,
        )
}

/// What comes of a start, over what the ways to start are known to do.
proof fn restored_value<P, EncodeSession, DecodeSession, DecodeCache>(
    dir: P,
    text: String,
    json_value: JsonView,
    definition: SettingsDefinition,
    encode_session: EncodeSession,
    decode_session: DecodeSession,
    decode_cache: DecodeCache,
    started: (SessionManager<P>, Vec<StartupAction>),
) -> (value: JsonValue) where
    EncodeSession: Fn(&SessionDesc) -> Result<JsonValue, String>,
    DecodeSession: Fn(&JsonValue) -> Option<SessionDesc>,
    DecodeCache: Fn(&JsonValue) -> Result<JsonValue, String>,

    requires
        starts(
            dir,
            text,
            json_value,
            definition,
            encode_session,
            decode_session,
            decode_cache,
            started,
        ),
    ensures
        value@ == json_value,
        started.0.dir() == dir,
        crate::manager::restored(
            text@,
            value,
            &definition,
            encode_session,
            decode_session,
            decode_cache,
            started.0.session(),
            started.1@,
        ),
{
    choose|value: JsonValue|
        value@ == json_value && #[trigger] crate::manager::restored(
            text@,
            value,
            &definition,
            encode_session,
            decode_session,
            decode_cache,
            started.0.session(),
            started.1@,
        )
}

/// The merge behind a start, where the stored session is refused as it is.
proof fn start_steps<EncodeSession, DecodeSession, DecodeCache>(
    text: Seq<char>,
    value: JsonValue,
    definition: SettingsDefinition,
    encode_session: EncodeSession,
    decode_session: DecodeSession,
    decode_cache: DecodeCache,
    session: SessionDesc,
    actions: Seq<StartupAction>,
) -> (steps: (SessionDesc, Result<(), MergeError>)) where
    EncodeSession: Fn(&SessionDesc) -> Result<JsonValue, String>,
    DecodeSession: Fn(&JsonValue) -> Option<SessionDesc>,
    DecodeCache: Fn(&JsonValue) -> Result<JsonValue, String>,

    requires
        crate::manager::restored(
            text,
            value,
            &definition,
            encode_session,
            decode_session,
            decode_cache,
            session,
            actions,
        ),
        crate::session_laws::replies_session(decode_session, value@, None),
    ensures
        steps.0@ == crate::session::default_session(definition.cache_default@),
        crate::session::merged(
            steps.0,
            value,
            &definition,
            encode_session,
            decode_session,
            decode_cache,
            session,
            steps.1,
        ),
        are_extrapolation_actions(text, steps.1, actions),
{
    choose|default: SessionDesc, result: Result<(), MergeError>|
        {
            &&& default@ == crate::session::default_session(definition.cache_default@)
            &&& #[trigger] crate::session::merged(
                default,
                value,
                &definition,
                encode_session,
                decode_session,
                decode_cache,
                session,
                result,
            )
            &&& actions.len() == 3
            &&& actions[0] matches StartupAction::StoreOldSession(old) && old@ == text
            &&& actions[1] == (match result {
                Ok(_) => StartupAction::ReportExtrapolated,
                Err(error) => StartupAction::ReportExtrapolationError(error),
            })
            &&& actions[2] == StartupAction::SaveSession
        }
}

/// Whether these are the actions after an extrapolation: to keep the old text,
/// to report how it ended, and to store the session.
pub open spec fn are_extrapolation_actions(
    text: Seq<char>,
    result: Result<(), MergeError>,
    actions: Seq<StartupAction>,
) -> bool {
    &&& actions.len() == 3
    &&& actions[0] matches StartupAction::StoreOldSession(old) && old@ == text
    &&& match result {
        Ok(_) => actions[1] is ReportExtrapolated,
        Err(error) => actions[1] matches StartupAction::ReportExtrapolationError(e)
            && crate::session_laws::same_error(e, error),
    }
    &&& actions[2] is SaveSession
}

/// Without a stored text, the manager starts with the session of a first run,
/// and there is nothing left to do.
pub proof fn lemma_first_start<P, EncodeSession, DecodeSession, DecodeCache>(
    dir: P,
    definition: SettingsDefinition,
    encode_session: EncodeSession,
    decode_session: DecodeSession,
    decode_cache: DecodeCache,
    started: (SessionManager<P>, Vec<StartupAction>),
    session: &SessionDesc,
) where
    EncodeSession: Fn(&SessionDesc) -> Result<JsonValue, String>,
    DecodeSession: Fn(&JsonValue) -> Option<SessionDesc>,
    DecodeCache: Fn(&JsonValue) -> Result<JsonValue, String>,

    requires
        call_ensures(
            SessionManager::<P>::new::<EncodeSession, DecodeSession, DecodeCache>,
            (dir, None, &definition, &encode_session, &decode_session, &decode_cache),
            started,
        ) || call_ensures(
            SessionManager::<P>::try_new::<EncodeSession, DecodeSession, DecodeCache>,
            (dir, None, &definition, &encode_session, &decode_session, &decode_cache),
            Some(started),
        ),
        call_ensures(SessionManager::<P>::get, (&started.0,), session),
    ensures
        crate::session_laws::is_first_run(*session, definition),
        started.1@.len() == 0,
{
    crate::session_laws::lemma_first_run(*session, definition);
}

/// A manager can be started without a stored text and from any JSON text, and
/// from no other.
pub proof fn lemma_start_needs_json<P, EncodeSession, DecodeSession, DecodeCache>(
    dir: P,
    text: Option<String>,
    definition: SettingsDefinition,
    encode_session: EncodeSession,
    decode_session: DecodeSession,
    decode_cache: DecodeCache,
    started: Option<(SessionManager<P>, Vec<StartupAction>)>,
) where
    EncodeSession: Fn(&SessionDesc) -> Result<JsonValue, String>,
    DecodeSession: Fn(&JsonValue) -> Option<SessionDesc>,
    DecodeCache: Fn(&JsonValue) -> Result<JsonValue, String>,

    requires
        call_ensures(
            SessionManager::<P>::try_new::<EncodeSession, DecodeSession, DecodeCache>,
            (dir, text, &definition, &encode_session, &decode_session, &decode_cache),
            started,
        ),
    ensures
        match text {
            None => started is Some,
            Some(text) => started is Some <==> crate::parse::json_text(text@) is Some,
        },
{
}

/// From a stored session of this version, the manager starts with that
/// session, field by field, and there is nothing left to do.
pub proof fn lemma_start_with_a_session_of_this_version<
    P,
    EncodeSession,
    DecodeSession,
    DecodeCache,
>(
    dir: P,
    text: String,
    json_value: JsonView,
    definition: SettingsDefinition,
    encode_session: EncodeSession,
    decode_session: DecodeSession,
    decode_cache: DecodeCache,
    decoded: SessionDesc,
    started: (SessionManager<P>, Vec<StartupAction>),
    session: &SessionDesc,
) where
    EncodeSession: Fn(&SessionDesc) -> Result<JsonValue, String>,
    DecodeSession: Fn(&JsonValue) -> Option<SessionDesc>,
    DecodeCache: Fn(&JsonValue) -> Result<JsonValue, String>,

    requires
        starts(
            dir,
            text,
            json_value,
            definition,
            encode_session,
            decode_session,
            decode_cache,
            started,
        ),
        crate::session_laws::replies_session(decode_session, json_value, Some(decoded)),
        call_ensures(SessionManager::<P>::get, (&started.0,), session),
    ensures
        crate::session_laws::same_but_for_cache(*session, decoded),
        session.settings_cache@ == decoded.settings_cache@,
        started.1@.len() == 0,
{
    let value = restored_value(
        dir,
        text,
        json_value,
        definition,
        encode_session,
        decode_session,
        decode_cache,
        started,
    );
}

/// From a stored session of another version, the manager starts with the
/// session that the stored fields decode as: its setup wizard and each of its
/// clients. Its settings cache is the stored one, carried over and decoded.
/// The old text is to be kept, how it went to be reported, and the session to
/// be stored.
pub proof fn lemma_start_with_a_session_of_another_version<
    P,
    EncodeSession,
    DecodeSession,
    DecodeCache,
>(
    dir: P,
    text: String,
    json_value: JsonView,
    definition: SettingsDefinition,
    encode_session: EncodeSession,
    decode_session: DecodeSession,
    decode_cache: DecodeCache,
    old_fields: Map<Seq<char>, JsonView>,
    fields: Map<Seq<char>, JsonView>,
    decoded_session: Option<SessionDesc>,
    old_cache: JsonValue,
    new_cache: JsonValue,
    cache: JsonValue,
    decoded_cache: Result<JsonValue, String>,
    started: (SessionManager<P>, Vec<StartupAction>),
    session: &SessionDesc,
) where
    EncodeSession: Fn(&SessionDesc) -> Result<JsonValue, String>,
    DecodeSession: Fn(&JsonValue) -> Option<SessionDesc>,
    DecodeCache: Fn(&JsonValue) -> Result<JsonValue, String>,

    requires
        starts(
            dir,
            text,
            json_value,
            definition,
            encode_session,
            decode_session,
            decode_cache,
            started,
        ),
        crate::session_laws::gives_a_plan(
            json_value,
            definition,
            encode_session,
            decode_session,
            decode_cache,
            old_fields,
            fields,
            decoded_session,
            old_cache,
            new_cache,
            cache,
            decoded_cache,
        ),
        call_ensures(SessionManager::<P>::get, (&started.0,), session),
    ensures
        exists|result: Result<(), MergeError>|
            {
                &&& #[trigger] crate::session_laws::is_merged(
                    *session,
                    decoded_session,
                    decoded_cache,
                    definition,
                    result,
                )
                &&& are_extrapolation_actions(text@, result, started.1@)
            },
{
    let value = restored_value(
        dir,
        text,
        json_value,
        definition,
        encode_session,
        decode_session,
        decode_cache,
        started,
    );
    let (default, result) = start_steps(
        text@,
        value,
        definition,
        encode_session,
        decode_session,
        decode_cache,
        *session,
        started.1@,
    );
    crate::session_laws::lemma_merged_by_plan(
        default,
        value,
        definition,
        encode_session,
        decode_session,
        decode_cache,
        old_fields,
        fields,
        decoded_session,
        old_cache,
        new_cache,
        cache,
        decoded_cache,
        *session,
        result,
    );
}

/// From a stored session of another version that gives nothing to extrapolate,
/// the manager starts with the session of a first run. The old text is to be
/// kept, the reason to be reported, and the session to be stored.
pub proof fn lemma_start_without_a_plan<P, EncodeSession, DecodeSession, DecodeCache>(
    dir: P,
    text: String,
    json_value: JsonView,
    definition: SettingsDefinition,
    encode_session: EncodeSession,
    decode_session: DecodeSession,
    decode_cache: DecodeCache,
    written: Result<JsonView, Seq<char>>,
    error: MergeError,
    started: (SessionManager<P>, Vec<StartupAction>),
    session: &SessionDesc,
) where
    EncodeSession: Fn(&SessionDesc) -> Result<JsonValue, String>,
    DecodeSession: Fn(&JsonValue) -> Option<SessionDesc>,
    DecodeCache: Fn(&JsonValue) -> Result<JsonValue, String>,

    requires
        starts(
            dir,
            text,
            json_value,
            definition,
            encode_session,
            decode_session,
            decode_cache,
            started,
        ),
        crate::session_laws::replies_session(decode_session, json_value, None),
        crate::session_laws::stops_with(json_value, definition, encode_session, written, error),
        call_ensures(SessionManager::<P>::get, (&started.0,), session),
    ensures
        crate::session_laws::is_first_run(*session, definition),
        are_extrapolation_actions(text@, Err(error), started.1@),
{
    let value = restored_value(
        dir,
        text,
        json_value,
        definition,
        encode_session,
        decode_session,
        decode_cache,
        started,
    );
    let (default, result) = start_steps(
        text@,
        value,
        definition,
        encode_session,
        decode_session,
        decode_cache,
        *session,
        started.1@,
    );
    crate::session_laws::lemma_stopped(
        default,
        value,
        definition,
        encode_session,
        decode_session,
        decode_cache,
        written,
        error,
        *session,
        result,
    );
    crate::session_laws::lemma_first_run(*session, definition);
}

/// Starting from a stored session gives, field by field, the session that
/// merging it into the session of a first run gives; and where there is
/// something to report, it is how that merge ends.
pub proof fn lemma_start_is_a_merge_into_a_first_run<
    P,
    EncodeSession,
    DecodeSession,
    DecodeCache,
>(
    dir: P,
    text: String,
    json_value: JsonValue,
    definition: SettingsDefinition,
    encode_session: EncodeSession,
    decode_session: DecodeSession,
    decode_cache: DecodeCache,
    started: (SessionManager<P>, Vec<StartupAction>),
    session: &SessionDesc,
    merged: &mut SessionDesc,
    result: Result<(), MergeError>,
) where
    EncodeSession: Fn(&SessionDesc) -> Result<JsonValue, String>,
    DecodeSession: Fn(&JsonValue) -> Option<SessionDesc>,
    DecodeCache: Fn(&JsonValue) -> Result<JsonValue, String>,

    requires
        crate::session::encodes_sessions_by_value(encode_session),
        crate::session::decodes_sessions_by_value(decode_session),
        crate::session::decodes_caches_by_value(decode_cache),
        starts(
            dir,
            text,
            json_value@,
            definition,
            encode_session,
            decode_session,
            decode_cache,
            started,
        ),
        call_ensures(SessionManager::<P>::get, (&started.0,), session),
        crate::session_laws::is_first_run(*old(merged), definition),
        call_ensures(
            SessionDesc::merge_from_json::<EncodeSession, DecodeSession, DecodeCache>,
            (merged, json_value, &definition, &encode_session, &decode_session, &decode_cache),
            result,
        ),
    ensures
        crate::session_laws::same_but_for_cache(*session, *final(merged)),
        session.settings_cache@ == final(merged).settings_cache@,
        started.1@.len() == 0 && result is Ok || are_extrapolation_actions(
            text@,
            result,
            started.1@,
        ),
{
    let value = restored_value(
        dir,
        text,
        json_value@,
        definition,
        encode_session,
        decode_session,
        decode_cache,
        started,
    );
    crate::session_laws::lemma_first_run(*old(merged), definition);
    let (whole, old_json, plan, decoded, cache) = crate::session::merge_steps(
        *old(merged),
        json_value,
        &definition,
        encode_session,
        decode_session,
        decode_cache,
        *final(merged),
        result,
    );
    assert(call_ensures(decode_session, (&json_value,), whole));
    match whole {
        Some(taken) => {
            assert(session@ == final(merged)@);
        },
        None => {
            let (default, start_result) = start_steps(
                text@,
                value,
                definition,
                encode_session,
                decode_session,
                decode_cache,
                *session,
                started.1@,
            );
            crate::session::lemma_merges_agree(
                default,
                *old(merged),
                value,
                json_value,
                &definition,
                encode_session,
                decode_session,
                decode_cache,
                *session,
                *final(merged),
                start_result,
                result,
            );
            assert(session@ == final(merged)@);
        },
    }
    crate::session_laws::lemma_same_model_same_fields(*session, *final(merged));
}

/// Write access gives the session of the manager, and the place, the author
/// and the kind of the update that it was asked for; and what it leaves is the
/// session that the manager has afterwards.
pub proof fn lemma_write_access_is_to_the_session<P, U>(
    manager: &mut SessionManager<P>,
    update_author_id: &str,
    update_type: U,
    lock: SessionLock<P, U>,
    before: &SessionDesc,
    seen: &SessionDesc,
    after: &SessionDesc,
)
    requires
        call_ensures(SessionManager::<P>::get, (&*old(manager),), before),
        call_ensures(
            SessionManager::<P>::get_mut::<U>,
            (manager, update_author_id, update_type),
            lock,
        ),
        call_ensures(SessionLock::<P, U>::deref, (&lock,), seen),
        call_ensures(SessionManager::<P>::get, (&*final(manager),), after),
    ensures
        *seen == *before,
        *after == *final(lock.session_desc),
        lock.update_author_id@ == update_author_id@,
        lock.update_type == update_type,
{
}

/// Write access stores where the manager was told to when it was started.
pub proof fn lemma_write_access_stores_where_it_was_told<
    P,
    U,
    EncodeSession,
    DecodeSession,
    DecodeCache,
>(
    dir: P,
    text: Option<String>,
    json_value: JsonValue,
    definition: SettingsDefinition,
    encode_session: EncodeSession,
    decode_session: DecodeSession,
    decode_cache: DecodeCache,
    actions: Vec<StartupAction>,
    manager: &mut SessionManager<P>,
    update_author_id: &str,
    update_type: U,
    lock: SessionLock<P, U>,
) where
    EncodeSession: Fn(&SessionDesc) -> Result<JsonValue, String>,
    DecodeSession: Fn(&JsonValue) -> Option<SessionDesc>,
    DecodeCache: Fn(&JsonValue) -> Result<JsonValue, String>,

    requires
        call_ensures(
            SessionManager::<P>::new::<EncodeSession, DecodeSession, DecodeCache>,
            (dir, text, &definition, &encode_session, &decode_session, &decode_cache),
            (*old(manager), actions),
        ) || call_ensures(
            SessionManager::<P>::try_new::<EncodeSession, DecodeSession, DecodeCache>,
            (dir, text, &definition, &encode_session, &decode_session, &decode_cache),
            Some((*old(manager), actions)),
        ) || (text is Some && call_ensures(
            SessionManager::<P>::restore::<EncodeSession, DecodeSession, DecodeCache>,
            (
                dir,
                text->Some_0,
                json_value,
                &definition,
                &encode_session,
                &decode_session,
                &decode_cache,
            ),
            (*old(manager), actions),
        )),
        call_ensures(
            SessionManager::<P>::get_mut::<U>,
            (manager, update_author_id, update_type),
            lock,
        ),
    ensures
        *lock.dir == dir,
{
}

/// What is written through the access is what is seen through it afterwards,
/// and nothing else about the access changes.
pub proof fn lemma_what_is_written_is_seen<'a, P, U>(
    lock: &mut SessionLock<'a, P, U>,
    before: &SessionDesc,
    written: &mut SessionDesc,
    after: &SessionDesc,
)
    requires
        call_ensures(SessionLock::<'a, P, U>::deref, (&*old(lock),), before),
        call_ensures(SessionLock::<'a, P, U>::deref_mut, (lock,), written),
        call_ensures(SessionLock::<'a, P, U>::deref, (&*final(lock),), after),
    ensures
        *old(written) == *before,
        *after == *final(written),
        *final(final(lock).session_desc) == *final(old(lock).session_desc),
        final(lock).dir == old(lock).dir,
        final(lock).update_author_id == old(lock).update_author_id,
        final(lock).update_type == old(lock).update_type,
{
}

/// The announcement tells who updated the session, and how.
pub proof fn lemma_announcement_tells_who_and_how<P, U: Copy>(
    lock: SessionLock<P, U>,
    event: SessionUpdated<U>,
)
    requires
        call_ensures(SessionLock::<P, U>::session_updated, (&lock,), event),
    ensures
        event.web_client_id@ == lock.update_author_id@,
        event.update_type == lock.update_type,
{
}

/// The settings to be stored are those of the session, if they can be read.
pub proof fn lemma_saved_settings_are_those_of_the_session<P, U>(
    lock: SessionLock<P, U>,
    definition: SettingsDefinition,
    session: &SessionDesc,
    saved: Option<JsonValue>,
    answer: bool,
    settings: JsonValue,
)
    requires
        call_ensures(SessionLock::<P, U>::deref, (&lock,), session),
        call_ensures(SessionLock::<P, U>::saved_settings, (&lock, &definition), saved),
        call_ensures(is_readable, (&session.settings_cache, &definition.schema), answer),
    ensures
        saved is Some <==> answer,
        saved is Some && call_ensures(
            json_cache_to_settings,
            (&session.settings_cache, &definition.schema),
            settings,
        ) ==> saved->Some_0@ == settings@,
{
}

/// Whoever updated the session, and however: once the access ends, the session
/// is stored once, and after that the update is announced, once and last.
/// Before that, the settings of the session are stored, if they can be read.
pub proof fn lemma_every_update_is_stored_and_announced<P, U: Copy>(
    lock: SessionLock<P, U>,
    definition: SettingsDefinition,
    session: &SessionDesc,
    actions: Vec<UpdateAction<U>>,
    answer: bool,
    settings: JsonValue,
)
    requires
        call_ensures(SessionLock::<P, U>::update_actions, (&lock, &definition), actions),
        call_ensures(SessionLock::<P, U>::deref, (&lock,), session),
    ensures
        2 <= actions@.len() <= 3,
        forall|i: int|
            0 <= i < actions@.len() ==> ((#[trigger] actions@[i]) is SaveSession <==> i
                == actions@.len() - 2),
        forall|i: int|
            0 <= i < actions@.len() ==> ((#[trigger] actions@[i]) is Announce <==> i
                == actions@.len() - 1),
        actions@[actions@.len() - 1] matches UpdateAction::Announce(event) && event.web_client_id@
            == lock.update_author_id@ && event.update_type == lock.update_type,
        call_ensures(is_readable, (&session.settings_cache, &definition.schema), answer) ==> (
        answer <==> actions@.len() == 3),
        actions@.len() == 3 && call_ensures(
            json_cache_to_settings,
            (&session.settings_cache, &definition.schema),
            settings,
        ) ==> (actions@[0] matches UpdateAction::SaveSettings(saved) && saved@ == settings@),
{
}

/// The author and the kind of an update have a say in its announcement only:
/// after two updates that leave the same settings cache, the same is to be
/// stored, in the same order.
pub proof fn lemma_author_has_a_say_in_the_announcement_only<P, Q, U: Copy, V: Copy>(
    first: SessionLock<P, U>,
    second: SessionLock<Q, V>,
    definition: SettingsDefinition,
    first_session: &SessionDesc,
    second_session: &SessionDesc,
    first_actions: Vec<UpdateAction<U>>,
    second_actions: Vec<UpdateAction<V>>,
)
    requires
        call_ensures(SessionLock::<P, U>::update_actions, (&first, &definition), first_actions),
        call_ensures(SessionLock::<Q, V>::update_actions, (&second, &definition), second_actions),
        call_ensures(SessionLock::<P, U>::deref, (&first,), first_session),
        call_ensures(SessionLock::<Q, V>::deref, (&second,), second_session),
        first_session.settings_cache@ == second_session.settings_cache@,
    ensures
        first_actions@.len() == second_actions@.len(),
        forall|i: int|
            0 <= i < first_actions@.len() ==> match (#[trigger] first_actions@[i], second_actions@[i]) {
                (UpdateAction::SaveSettings(saved), UpdateAction::SaveSettings(other)) => saved@
                    == other@,
                (UpdateAction::SaveSession, UpdateAction::SaveSession) => true,
                (UpdateAction::Announce(_), UpdateAction::Announce(_)) => true,
                _ => false,
            },
{
}

/// A manager can be started from anything, if need be by `try_new`; the session
/// can be read and written at any time; and what is left to do after an update
/// can be asked of any access.
pub proof fn lemma_a_manager_can_always_be_started<
    P,
    U: Copy,
    EncodeSession,
    DecodeSession,
    DecodeCache,
>(
    dir: P,
    session_string: Option<String>,
    text: String,
    json_value: JsonValue,
    definition: SettingsDefinition,
    encode_session: EncodeSession,
    decode_session: DecodeSession,
    decode_cache: DecodeCache,
    manager: &mut SessionManager<P>,
    update_author_id: &str,
    update_type: U,
    lock: SessionLock<P, U>,
) where
    EncodeSession: Fn(&SessionDesc) -> Result<JsonValue, String>,
    DecodeSession: Fn(&JsonValue) -> Option<SessionDesc>,
    DecodeCache: Fn(&JsonValue) -> Result<JsonValue, String>,

    requires
        forall|session: &SessionDesc| call_requires(encode_session, (session,)),
        forall|value: &JsonValue| call_requires(decode_session, (value,)),
        forall|value: &JsonValue| call_requires(decode_cache, (value,)),
    ensures
        call_requires(
            SessionManager::<P>::try_new::<EncodeSession, DecodeSession, DecodeCache>,
            (dir, session_string, &definition, &encode_session, &decode_session, &decode_cache),
        ),
        call_requires(
            SessionManager::<P>::restore::<EncodeSession, DecodeSession, DecodeCache>,
            (dir, text, json_value, &definition, &encode_session, &decode_session, &decode_cache),
        ),
        session_string is None || crate::parse::json_text(session_string->Some_0@) is Some
            ==> call_requires(
            SessionManager::<P>::new::<EncodeSession, DecodeSession, DecodeCache>,
            (dir, session_string, &definition, &encode_session, &decode_session, &decode_cache),
        ),
        call_requires(SessionManager::<P>::get, (&*old(manager),)),
        call_requires(
            SessionManager::<P>::get_mut::<U>,
            (manager, update_author_id, update_type),
        ),
        call_requires(SessionLock::<P, U>::update_actions, (&lock, &definition)),
{
}

/// Each access to the session stores at the same place as the one before.
pub proof fn lemma_place_stays<P, U, V>(
    manager: &mut SessionManager<P>,
    same_manager: &mut SessionManager<P>,
    update_author_id: &str,
    next_author_id: &str,
    update_type: U,
    next_type: V,
    lock: SessionLock<P, U>,
    next_lock: SessionLock<P, V>,
)
    requires
        call_ensures(
            SessionManager::<P>::get_mut::<U>,
            (manager, update_author_id, update_type),
            lock,
        ),
        *old(same_manager) == *final(manager),
        call_ensures(
            SessionManager::<P>::get_mut::<V>,
            (same_manager, next_author_id, next_type),
            next_lock,
        ),
    ensures
        *next_lock.dir == *lock.dir,
{
}

} // verus!
