use alvr_session::json::{JsonMap, JsonNumber, JsonValue};
use alvr_session::manager::{
    SessionManager, StartupAction, SERVER_SESSION_UPDATE_ID, SESSION_FNAME, SESSION_OLD_FNAME,
    SETTINGS_FNAME, UpdateAction,
};
use alvr_session::parse::parse_json;
use alvr_session::schema::SchemaNode;
use alvr_session::session::{
    encoded_default, plan_merge, ClientConnectionDesc, ClientConnectionState, ClientHandshakePacket, MergeError,
    SessionDesc, SettingsDefinition,
};
use alvr_session::settings::is_readable;

fn json(text: &str) -> JsonValue {
    parse_json(text).unwrap()
}

fn flag(value: &JsonValue) -> Option<bool> {
    match value {
        JsonValue::Bool(b) => Some(*b),
        _ => None,
    }
}

fn definition() -> SettingsDefinition {
    SettingsDefinition {
        schema: SchemaNode::Section {
            entries: vec![
                ("flag".to_string(), Some(SchemaNode::Boolean)),
                (
                    "foveation".to_string(),
                    Some(SchemaNode::Switch { content: Box::new(SchemaNode::Float) }),
                ),
                (
                    "resolution".to_string(),
                    Some(SchemaNode::Choice {
                        variants: vec![
                            ("scale".to_string(), Some(SchemaNode::Float)),
                            ("native".to_string(), None),
                        ],
                    }),
                ),
            ],
        },
        cache_default: json(
            r#"{"flag": true, "foveation": {"enabled": true, "content": 2.0}, "resolution": {"variant": "scale", "scale": 0.75}}"#,
        ),
    }
}

fn client() -> ClientConnectionDesc {
    ClientConnectionDesc {
        state: ClientConnectionState::AvailableTrusted,
        last_update_ms_since_epoch: 5,
        address: "10.0.0.2".to_string(),
        handshake_packet: ClientHandshakePacket {
            packet_type: 1,
            alvr_name: [1; 4],
            version: [2; 32],
            device_name: [3; 32],
            client_refresh_rate: 72,
            render_width: 2880,
            render_height: 1600,
        },
    }
}

// A session without clients, written as JSON.
fn encode(session: &SessionDesc) -> JsonValue {
    let mut fields = JsonMap::new();
    fields.insert("setupWizard".to_string(), JsonValue::Bool(session.setup_wizard));
    fields.insert("lastClients".to_string(), JsonValue::Array(vec![]));
    fields.insert("settingsCache".to_string(), session.settings_cache.clone());
    JsonValue::Object(fields)
}

fn encode_session(session: &SessionDesc) -> Result<JsonValue, String> {
    Ok(encode(session))
}

fn decode_cache(value: &JsonValue) -> Result<JsonValue, String> {
    let known = match value.member("resolution").member("variant") {
        JsonValue::String(s) => s == "scale" || s == "native",
        _ => false,
    };
    let enabled = value.member("foveation").member("enabled").is_boolean();
    if known && enabled && value.member("flag").is_boolean() {
        Ok(value.clone())
    } else {
        Err("invalid cache".to_string())
    }
}

fn decode_session(value: &JsonValue) -> Option<SessionDesc> {
    let setup_wizard = flag(value.get("setupWizard")?)?;
    match value.get("lastClients")? {
        JsonValue::Array(items) if items.is_empty() => {}
        _ => return None,
    }
    let settings_cache = decode_cache(value.get("settingsCache")?).ok()?;
    Some(SessionDesc { setup_wizard, last_clients: vec![], settings_cache })
}

fn merge(session: &mut SessionDesc, value: JsonValue) -> Result<(), MergeError> {
    session.merge_from_json(value, &definition(), &encode_session, &decode_session, &decode_cache)
}

#[test]
fn test_session_to_settings() {
    let definition = definition();
    let session = SessionDesc::default(&definition);
    assert!(is_readable(&session.settings_cache, &definition.schema));
    let _settings = session.to_settings(&definition);
    assert_eq!(flag(_settings.member("flag")), Some(true));
    match _settings.member("foveation").member("type") {
        JsonValue::String(s) => assert_eq!(s, "enabled"),
        _ => panic!("no tag"),
    }
}

#[test]
fn test_session_extrapolation_trivial() {
    let mut session = SessionDesc::default(&definition());
    let value = encode(&SessionDesc::default(&definition()));
    merge(&mut session, value).unwrap();
    assert!(session.setup_wizard);
}

#[test]
fn default_session() {
    let session = SessionDesc::default(&definition());
    assert!(session.setup_wizard);
    assert!(session.last_clients.is_empty());
    assert_eq!(flag(session.settings_cache.member("flag")), Some(true));
}

#[test]
fn session_of_this_version_is_taken_as_it_is() {
    let mut session = SessionDesc::default(&definition());
    session.last_clients.push(client());
    let value = json(
        r#"{"setupWizard": false, "lastClients": [], "settingsCache": {"flag": false, "foveation": {"enabled": false}, "resolution": {"variant": "native"}, "more": 1}}"#,
    );
    merge(&mut session, value).unwrap();
    assert!(!session.setup_wizard);
    assert!(session.last_clients.is_empty());
    assert_eq!(flag(session.settings_cache.member("flag")), Some(false));
    assert!(session.settings_cache.get("more").is_some());
}

#[test]
fn session_of_another_version_is_extrapolated() {
    let mut session = SessionDesc::default(&definition());
    let value = json(
        r#"{"setupWizard": false, "lastClients": [], "gone": 1, "settingsCache": {"flag": false, "foveation": 3, "old": true}}"#,
    );
    merge(&mut session, value).unwrap();
    assert!(!session.setup_wizard);
    assert_eq!(flag(session.settings_cache.member("flag")), Some(false));
    assert_eq!(flag(session.settings_cache.member("foveation").member("enabled")), Some(true));
    assert!(session.settings_cache.get("old").is_none());
}

#[test]
fn other_fields_are_not_notified() {
    let mut session = SessionDesc::default(&definition());
    session.last_clients.push(client());
    let value = json(r#"{"setupWizard": 0, "settingsCache": {"flag": false}}"#);
    merge(&mut session, value).unwrap();
    assert!(session.setup_wizard);
    assert!(session.last_clients.is_empty());
    assert_eq!(flag(session.settings_cache.member("flag")), Some(false));
}

#[test]
fn merge_forgets_the_session_before() {
    let text = r#"{"setupWizard": false, "lastClients": [], "settingsCache": {"flag": false}}"#;
    let mut first = SessionDesc::default(&definition());
    let mut second = SessionDesc::default(&definition());
    second.last_clients.push(client());
    second.settings_cache = JsonValue::Null;
    merge(&mut first, json(text)).unwrap();
    merge(&mut second, json(text)).unwrap();
    for session in [&first, &second] {
        assert!(!session.setup_wizard);
        assert!(session.last_clients.is_empty());
        assert_eq!(flag(session.settings_cache.member("flag")), Some(false));
        assert_eq!(flag(session.settings_cache.member("foveation").member("enabled")), Some(true));
    }
}

#[test]
fn two_sessions_merge_alike() {
    for text in [
        r#"{"setupWizard": false, "lastClients": [], "settingsCache": {"flag": false, "foveation": {"enabled": false}, "resolution": {"variant": "native"}}}"#,
        r#"{"setupWizard": false, "settingsCache": {"flag": 3}}"#,
        r#"{"setupWizard": false, "settingsCache": {"resolution": {"variant": "unheard of"}}}"#,
    ] {
        let mut first = SessionDesc::default(&definition());
        let mut second = SessionDesc::default(&definition());
        second.settings_cache = json(r#"{"flag": false}"#);
        second.last_clients.push(client());
        let first_result = merge(&mut first, json(text));
        let second_result = merge(&mut second, json(text));
        assert_eq!(first_result.is_ok(), second_result.is_ok());
        assert_eq!(format!("{:?}", first), format!("{:?}", second));
    }
}

#[test]
fn merging_twice_is_merging_once() {
    for text in [
        r#"{"setupWizard": false, "lastClients": [], "settingsCache": {"flag": false}}"#,
        r#"{"setupWizard": false}"#,
        r#"{"settingsCache": {"resolution": {"variant": "unheard of"}}}"#,
    ] {
        let mut session = SessionDesc::default(&definition());
        session.last_clients.push(client());
        let once_result = merge(&mut session, json(text));
        let once = format!("{:?}", session);
        let twice_result = merge(&mut session, json(text));
        assert_eq!(format!("{:?}", session), once);
        assert_eq!(format!("{:?}", once_result), format!("{:?}", twice_result));
    }
}

#[test]
fn written_session_is_read_back() {
    let mut written = SessionDesc::default(&definition());
    written.setup_wizard = false;
    written.settings_cache = json(
        r#"{"flag": false, "foveation": {"enabled": false, "content": 1.5}, "resolution": {"variant": "native"}}"#,
    );
    let mut session = SessionDesc::default(&definition());
    session.last_clients.push(client());
    merge(&mut session, encode(&written)).unwrap();
    assert_eq!(format!("{:?}", session), format!("{:?}", written));
    assert_eq!(format!("{:?}", encode(&session)), format!("{:?}", encode(&written)));
}

#[test]
fn clients_are_taken_over() {
    let decode = |value: &JsonValue| {
        Some(SessionDesc {
            setup_wizard: false,
            last_clients: vec![client()],
            settings_cache: value.clone(),
        })
    };
    let mut first = SessionDesc::default(&definition());
    let mut second = SessionDesc::default(&definition());
    second.last_clients.push(client());
    second.last_clients.push(client());
    for session in [&mut first, &mut second] {
        session
            .merge_from_json(json("1"), &definition(), &encode_session, &decode, &decode_cache)
            .unwrap();
        assert_eq!(session.last_clients.len(), 1);
        assert_eq!(session.last_clients[0].address, "10.0.0.2");
    }
    assert_eq!(format!("{:?}", first), format!("{:?}", second));
}

#[test]
fn default_session_is_what_is_encoded() {
    let definition = definition();
    let encoded = encoded_default(&definition, &encode_session).unwrap();
    assert_eq!(flag(encoded.member("setupWizard")), Some(true));
    assert_eq!(flag(encoded.member("settingsCache").member("flag")), Some(true));
    let seen = encoded_default(&definition, &|session: &SessionDesc| {
        assert!(session.setup_wizard);
        assert!(session.last_clients.is_empty());
        Err("seen".to_string())
    });
    assert!(matches!(seen, Err(e) if e == "seen"));
}

#[test]
fn missing_cache_leaves_the_session() {
    let mut session = SessionDesc::default(&definition());
    session.last_clients.push(client());
    session.setup_wizard = false;
    let result = merge(&mut session, json(r#"{"setupWizard": true}"#));
    assert!(matches!(result, Err(MergeError::SettingsCacheMissing)));
    assert!(!session.setup_wizard);
    assert_eq!(session.last_clients.len(), 1);
    assert_eq!(session.last_clients[0].address, "10.0.0.2");
    assert!(session.last_clients[0].handshake_packet == client().handshake_packet);
}

#[test]
fn undecodable_cache_is_an_error_and_the_default_remains() {
    let mut session = SessionDesc::default(&definition());
    session.last_clients.push(client());
    let value = json(
        r#"{"setupWizard": false, "settingsCache": {"flag": false, "resolution": {"variant": "unheard of"}}}"#,
    );
    match merge(&mut session, value) {
        Err(MergeError::SettingsCacheExtrapolationFailed(e)) => assert_eq!(e, "invalid cache"),
        _ => panic!("merged"),
    }
    assert!(!session.setup_wizard);
    assert!(session.last_clients.is_empty());
    assert_eq!(flag(session.settings_cache.member("flag")), Some(true));
}

#[test]
fn default_session_that_is_no_object() {
    let definition = definition();
    let mut session = SessionDesc::default(&definition);
    session.setup_wizard = false;
    let result = session.merge_from_json(
        json("{}"),
        &definition,
        &|_: &SessionDesc| Ok(JsonValue::Null),
        &decode_session,
        &decode_cache,
    );
    assert!(matches!(result, Err(MergeError::DefaultSessionNotObject)));
    let result = session.merge_from_json(
        json("{}"),
        &definition,
        &|_: &SessionDesc| Err("no".to_string()),
        &decode_session,
        &decode_cache,
    );
    match result {
        Err(MergeError::DefaultSession(e)) => assert_eq!(e, "no"),
        _ => panic!("merged"),
    }
    assert!(!session.setup_wizard);
}

#[test]
fn plan_has_the_fields_of_the_default_session() {
    let definition = definition();
    let old = json(r#"{"setupWizard": true, "lastClients": [], "settingsCache": 1}"#);
    let stored = json(r#"{"setupWizard": false, "unknown": 1, "settingsCache": {"flag": false}}"#);
    let plan = match plan_merge(&stored, Ok(old), &definition) {
        Ok(plan) => plan,
        Err(_) => panic!("no plan"),
    };
    assert_eq!(flag(plan.session.member("setupWizard")), Some(false));
    assert!(matches!(plan.session.get("lastClients"), Some(JsonValue::Array(_))));
    assert!(plan.session.get("unknown").is_none());
    assert_eq!(flag(plan.session.member("settingsCache").member("flag")), Some(true));
    let cache = plan.settings_cache.unwrap();
    assert_eq!(flag(cache.member("flag")), Some(false));
    assert!(matches!(cache.member("resolution").member("variant"), JsonValue::Null));
}

fn start(text: Option<&str>) -> Option<(SessionManager<u8>, Vec<StartupAction>)> {
    SessionManager::try_new(
        7,
        text.map(|t| t.to_string()),
        &definition(),
        &encode_session,
        &decode_session,
        &decode_cache,
    )
}

#[test]
fn manager_of_a_first_run() {
    let (mut manager, actions) = start(None).unwrap();
    assert!(manager.get().setup_wizard);
    assert_eq!(*manager.get_mut("", ()).dir, 7);
    assert!(actions.is_empty());
}

#[test]
fn manager_refuses_text_that_is_not_json() {
    assert!(start(Some("{")).is_none());
}

#[test]
fn manager_of_a_session_of_this_version() {
    let text = r#"{"setupWizard": false, "lastClients": [], "settingsCache": {"flag": false, "foveation": {"enabled": false}, "resolution": {"variant": "native"}}}"#;
    let (manager, actions) = start(Some(text)).unwrap();
    assert!(!manager.get().setup_wizard);
    assert!(actions.is_empty());
    let definition = definition();
    let (manager, actions) = SessionManager::new(
        1u8,
        Some(text.to_string()),
        &definition,
        &encode_session,
        &decode_session,
        &decode_cache,
    );
    assert!(!manager.get().setup_wizard);
    assert!(actions.is_empty());
}

#[test]
fn manager_of_a_session_of_another_version() {
    let text = r#"{"setupWizard": false, "lastClients": [], "settingsCache": {"flag": false}}"#;
    let (manager, actions) = start(Some(text)).unwrap();
    assert!(!manager.get().setup_wizard);
    assert_eq!(flag(manager.get().settings_cache.member("flag")), Some(false));
    assert_eq!(actions.len(), 3);
    match &actions[0] {
        StartupAction::StoreOldSession(old) => assert_eq!(old, text),
        _ => panic!("not stored"),
    }
    assert!(matches!(actions[1], StartupAction::ReportExtrapolated));
    assert!(matches!(actions[2], StartupAction::SaveSession));
}

#[test]
fn manager_reports_a_failed_merge() {
    let (manager, actions) = start(Some("[]")).unwrap();
    assert!(manager.get().setup_wizard);
    assert_eq!(actions.len(), 3);
    assert!(matches!(
        actions[1],
        StartupAction::ReportExtrapolationError(MergeError::SettingsCacheMissing)
    ));
}

// The same JSON as text; a session without clients has no other values.
fn text_of(value: &JsonValue) -> String {
    match value {
        JsonValue::Bool(b) => b.to_string(),
        JsonValue::Number(JsonNumber::Float(bits)) => format!("{:?}", f64::from_bits(*bits)),
        JsonValue::String(s) => format!("{:?}", s),
        JsonValue::Array(_) => "[]".to_string(),
        JsonValue::Object(map) => {
            let members: Vec<String> = (0..map.len())
                .map(|i| map.entry(i))
                .map(|(name, value)| format!("{:?}: {}", name, text_of(value)))
                .collect();
            format!("{{{}}}", members.join(", "))
        }
        _ => panic!("no such value"),
    }
}

#[test]
fn next_start_is_quiet() {
    let text = r#"{"setupWizard": false, "settingsCache": {"flag": false}}"#;
    let (first, actions) = start(Some(text)).unwrap();
    assert_eq!(actions.len(), 3);
    let saved = text_of(&encode(first.get()));
    let (second, actions) = start(Some(&saved)).unwrap();
    assert!(actions.is_empty());
    assert!(!second.get().setup_wizard);
    assert_eq!(text_of(&encode(second.get())), saved);
    let (third, actions) = start(Some(&saved)).unwrap();
    assert!(actions.is_empty());
    assert_eq!(format!("{:?}", third.get()), format!("{:?}", second.get()));
    let (first_run, _) = start(None).unwrap();
    let (second_run, actions) = start(None).unwrap();
    assert!(actions.is_empty());
    assert_eq!(format!("{:?}", first_run.get()), format!("{:?}", second_run.get()));
}

#[test]
fn saved_settings_are_those_of_the_session() {
    let definition = definition();
    let (mut manager, _) = start(None).unwrap();
    let mut lock = manager.get_mut("client", ());
    lock.deref_mut().settings_cache = json(
        r#"{"flag": false, "foveation": {"enabled": false, "content": 1.5}, "resolution": {"variant": "native"}}"#,
    );
    let settings = lock.saved_settings(&definition).unwrap();
    assert_eq!(flag(settings.member("flag")), Some(false));
    match settings.member("foveation").member("type") {
        JsonValue::String(s) => assert_eq!(s, "disabled"),
        _ => panic!("no tag"),
    }
    match settings.member("resolution").member("type") {
        JsonValue::String(s) => assert_eq!(s, "native"),
        _ => panic!("no tag"),
    }
    lock.deref_mut().settings_cache = JsonValue::Null;
    assert!(lock.saved_settings(&definition).is_none());
}

#[test]
fn end_of_the_lock_saves_and_announces() {
    let definition = definition();
    let (mut manager, _) = start(None).unwrap();
    let mut lock = manager.get_mut("client", 4u32);
    let actions = lock.update_actions(&definition);
    assert_eq!(actions.len(), 3);
    match &actions[0] {
        UpdateAction::SaveSettings(settings) => {
            assert_eq!(flag(settings.member("flag")), Some(true))
        }
        _ => panic!("no settings"),
    }
    assert!(matches!(actions[1], UpdateAction::SaveSession));
    match &actions[2] {
        UpdateAction::Announce(event) => {
            assert_eq!(event.web_client_id, "client");
            assert_eq!(event.update_type, 4);
        }
        _ => panic!("not announced"),
    }
    lock.deref_mut().settings_cache = JsonValue::Null;
    let actions = lock.update_actions(&definition);
    assert_eq!(actions.len(), 2);
    assert!(matches!(actions[0], UpdateAction::SaveSession));
    assert!(matches!(actions[1], UpdateAction::Announce(_)));
}

#[test]
fn what_the_lock_writes_is_read() {
    let (mut manager, _) = start(None).unwrap();
    {
        let mut lock = manager.get_mut("client", 4u32);
        assert!(lock.deref().setup_wizard);
        lock.deref_mut().setup_wizard = false;
        assert!(!lock.deref().setup_wizard);
        let event = lock.session_updated();
        assert_eq!(event.web_client_id, "client");
        assert_eq!(event.update_type, 4);
        assert_eq!(*lock.dir, 7);
    }
    assert!(!manager.get().setup_wizard);
}

#[test]
fn names() {
    assert_eq!(SESSION_FNAME, "session.json");
    assert_eq!(SESSION_OLD_FNAME, "session_old.json");
    assert_eq!(SETTINGS_FNAME, "settings.json");
    assert_eq!(SERVER_SESSION_UPDATE_ID, "");
}
