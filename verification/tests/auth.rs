use phi_launcher::auth::{
    build_phira_data_json, login_outcome, user_json, LauncherData, LoginState, Tokens, User,
    API_URL, CHARACTER_INTRO, DEFAULT_MP_ADDRESS,
};
use phi_launcher::auth::{launcher_data_file, login_url, me_url, synced_data_file};
use phi_launcher::auth::{login_sync_message, sync_message};
use phi_launcher::auth::{error_field, login_failure_from_body, login_failure_message, profile_failure_message};
use phi_launcher::json::JsonValue;
use phi_launcher::path::FsPath;

fn user() -> User {
    User {
        id: 42,
        name: "Lute".to_string(),
        email: "l@example.com".to_string(),
        avatar: Some("https://a/x.png".to_string()),
        rks_bits: 15.5f32.to_bits(),
        badge: None,
        language: Some("zh-CN".to_string()),
        bio: None,
        exp: 1234,
        roles: 3,
        joined: None,
        last_login: Some("2024-01-01".to_string()),
    }
}

fn tokens() -> Tokens {
    Tokens { token: "SECRET-REDACTED".to_string(), refresh_token: "r".to_string() }
}

fn member<'a>(obj: &'a JsonValue, key: &str) -> &'a JsonValue {
    match obj {
        JsonValue::Object(m) => &m.iter().find(|(k, _)| k == key).expect(key).1,
        _ => panic!("not an object"),
    }
}

fn keys(obj: &JsonValue) -> Vec<&str> {
    match obj {
        JsonValue::Object(m) => m.iter().map(|(k, _)| k.as_str()).collect(),
        _ => panic!("not an object"),
    }
}

#[test]
fn default_data() {
    let d = LauncherData::default();
    assert!(d.me.is_none() && d.tokens.is_none());
    assert_eq!(d.mp_address, DEFAULT_MP_ADDRESS);
    assert_eq!(d.mp_address, "mp2.phira.cn:12345");
    assert!(!d.mp_enabled);
    assert_eq!(d.language, "zh-CN");
    assert_eq!(d.theme, 0);
    assert_eq!(d.player_name, "");
    assert_eq!(f32::from_bits(d.player_rks_bits), 0.0);
    assert!(!d.is_logged_in());
    assert_eq!(API_URL, "https://phira.5wyxi.com");
}

#[test]
fn login_then_logout() {
    let mut d = LauncherData::default();
    d.mp_enabled = true;
    let (state, new) = login_outcome(d, Ok((user(), tokens())));
    assert!(matches!(state, LoginState::Success));
    let mut d = new.unwrap();
    assert!(d.is_logged_in());
    assert_eq!(d.player_name, "Lute");
    assert_eq!(f32::from_bits(d.player_rks_bits), 15.5);
    assert!(d.mp_enabled);
    d.logout();
    assert!(!d.is_logged_in());
    assert_eq!(d.player_name, "");
    assert_eq!(d.player_rks_bits, 0);
    assert!(d.mp_enabled);
    assert_eq!(d.mp_address, "mp2.phira.cn:12345");
}

#[test]
fn failed_login_keeps_nothing() {
    let (state, new) = login_outcome(LauncherData::default(), Err("登录失败，状态码 401".to_string()));
    assert!(matches!(state, LoginState::Failed(m) if m == "登录失败，状态码 401"));
    assert!(new.is_none());
}

#[test]
fn user_object_has_every_field() {
    let j = user_json(&user());
    assert_eq!(keys(&j), vec!["id", "name", "email", "avatar", "rks", "badge", "language", "bio", "exp", "roles", "joined", "last_login"]);
    assert!(matches!(member(&j, "id"), JsonValue::Int(42)));
    assert!(matches!(member(&j, "badge"), JsonValue::Null));
    assert!(matches!(member(&j, "rks"), JsonValue::Real(b) if f32::from_bits(*b) == 15.5));
    assert!(matches!(member(&j, "exp"), JsonValue::Int(1234)));
}

#[test]
fn data_json_document() {
    let mut d = LauncherData::default();
    d.mp_address = "mp.example:1".to_string();
    d.theme = -2;
    let d = d.with_login(user(), tokens());
    let doc = build_phira_data_json(&d);
    assert_eq!(keys(&doc).len(), 22);
    assert!(matches!(member(&doc, "tokens"), JsonValue::Null));
    assert!(matches!(member(&doc, "theme"), JsonValue::Int(-2)));
    assert!(matches!(member(&doc, "language"), JsonValue::Str(s) if s == "zh-CN"));
    assert!(matches!(member(&doc, "me"), JsonValue::Object(m) if m.len() == 12));
    let config = member(&doc, "config");
    assert_eq!(keys(config).len(), 40);
    assert!(matches!(member(config, "mpAddress"), JsonValue::Str(s) if s == "mp.example:1"));
    assert!(matches!(member(config, "playerName"), JsonValue::Str(s) if s == "Lute"));
    assert!(matches!(member(config, "playerRks"), JsonValue::Real(b) if f32::from_bits(*b) == 15.5));
    assert!(matches!(member(config, "noteScale"), JsonValue::Real(b) if f32::from_bits(*b) == 1.0));
    assert!(matches!(member(config, "sampleCount"), JsonValue::Int(1)));
    let character = member(&doc, "character");
    assert!(matches!(member(character, "intro"), JsonValue::Str(s) if s == CHARACTER_INTRO));
    assert!(matches!(member(character, "illu_adjust"), JsonValue::Array(v) if v.len() == 4));
    assert!(matches!(member(&doc, "collection_uuids"), JsonValue::Array(v) if v.len() == 1));
    // The tokens never reach the document: logged out data gives a null profile.
    let mut out = d;
    out.logout();
    assert!(matches!(member(&build_phira_data_json(&out), "me"), JsonValue::Null));
}

#[test]
fn avatar_only_when_present() {
    let mut d = LauncherData::default();
    assert_eq!(d.avatar_url(), None);
    let mut u = user();
    u.avatar = Some(String::new());
    d = d.with_login(u, tokens());
    assert_eq!(d.avatar_url(), None);
    let d = LauncherData::default().with_login(user(), tokens());
    assert_eq!(d.avatar_url().as_deref(), Some("https://a/x.png"));
}

#[test]
fn endpoints_and_data_files() {
    assert_eq!(login_url(), "https://phira.5wyxi.com/login");
    assert_eq!(me_url(), "https://phira.5wyxi.com/me");
    let base = FsPath { parts: vec!["/pl".to_string()] };
    assert_eq!(launcher_data_file(&base).parts, vec!["/pl", "data", "data.json"]);
    let v = FsPath { parts: vec!["/pl/versions/phira/v1".to_string()] };
    assert_eq!(synced_data_file(&v).parts, vec!["/pl/versions/phira/v1", "data", "data.json"]);
}

#[test]
fn login_failure_messages() {
    assert_eq!(
        login_failure_message("401 Unauthorized", Some("密码错误")),
        "登录失败 (401 Unauthorized): 密码错误"
    );
    assert_eq!(login_failure_message("502 Bad Gateway", None), "登录失败，状态码 502 Bad Gateway");
    assert_eq!(profile_failure_message("403 Forbidden"), "获取用户信息失败，状态码 403 Forbidden");
}

#[test]
fn login_failure_from_response_body() {
    assert_eq!(error_field(r#"{"error":"bad password","code":3}"#), Some("bad password".to_string()));
    assert_eq!(error_field(r#"{"error":42}"#), None);
    assert_eq!(error_field(r#"["error"]"#), None);
    assert_eq!(error_field("not json"), None);
    assert_eq!(
        login_failure_from_body("401 Unauthorized", r#"{"error":"密码错误"}"#),
        "登录失败 (401 Unauthorized): 密码错误"
    );
    assert_eq!(login_failure_from_body("500 Internal Server Error", "<html>"), "登录失败，状态码 500 Internal Server Error");
}

#[test]
fn login_sync_messages() {
    assert_eq!(login_sync_message(Ok(3)), "✅ 登录成功！已同步到 3 个版本");
    assert_eq!(login_sync_message(Ok(0)), "✅ 登录成功！已同步到 0 个版本");
    assert_eq!(login_sync_message(Ok(120)), "✅ 登录成功！已同步到 120 个版本");
    assert_eq!(login_sync_message(Err("权限不足".to_string())), "⚠️ 登录成功，但同步失败: 权限不足");
}

#[test]
fn manual_sync_messages() {
    assert_eq!(sync_message(Ok(2)), "已同步到 2 个版本目录");
    assert_eq!(sync_message(Err("磁盘已满".to_string())), "同步失败: 磁盘已满");
}
