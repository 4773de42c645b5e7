use dgrlauncher::auth::{
    access_token_from, account_from_profile, auth_code_from, minecraft_login_request, minecraft_token_from,
    poll_body, poll_result, refresh_body, xbox_auth_request, xbox_user_from, xsts_from, xsts_request, WaitProgress,
};
use dgrlauncher::json::Json;

fn conv(v: &serde_json::Value) -> Json {
    match v {
        serde_json::Value::Null => Json::Null,
        serde_json::Value::Bool(b) => Json::Bool(*b),
        serde_json::Value::Number(n) => Json::Number(n.to_string()),
        serde_json::Value::String(s) => Json::Str(s.clone()),
        serde_json::Value::Array(a) => Json::Array(a.iter().map(conv).collect()),
        serde_json::Value::Object(o) => Json::Object(o.iter().map(|(k, v)| (k.clone(), conv(v))).collect()),
    }
}

fn json(text: &str) -> Json {
    conv(&serde_json::from_str(text).unwrap())
}

fn back(j: &Json) -> serde_json::Value {
    match j {
        Json::Null => serde_json::Value::Null,
        Json::Bool(b) => serde_json::Value::Bool(*b),
        Json::Number(n) => serde_json::from_str(n).unwrap(),
        Json::Str(s) => serde_json::Value::String(s.clone()),
        Json::Array(a) => serde_json::Value::Array(a.iter().map(back).collect()),
        Json::Object(e) => serde_json::Value::Object(e.iter().map(|(k, v)| (k.clone(), back(v))).collect()),
    }
}

#[test]
fn device_code_answer() {
    let c = auth_code_from(&json(r#"{"user_code": "ABCD", "verification_uri": "https://m/link", "device_code": "dc"}"#)).unwrap();
    assert_eq!((c.code.as_str(), c.link.as_str(), c.device_code.as_str()), ("ABCD", "https://m/link", "dc"));
    assert_eq!(auth_code_from(&json("{}")).unwrap_err(), "Auth response has no code.");
    assert_eq!(auth_code_from(&json(r#"{"user_code": "A"}"#)).unwrap_err(), "Auth response has no link.");
    assert_eq!(
        auth_code_from(&json(r#"{"user_code": "A", "verification_uri": "l"}"#)).unwrap_err(),
        "Auth response has no device code."
    );
}

#[test]
fn poll_and_refresh_bodies() {
    assert_eq!(
        poll_body("dc"),
        "client_id=7f8e9d75-ca8f-4603-b2ab-ae7fc0f871d9&scope=XboxLive.signin offline_access&grant_type=urn:ietf:params:oauth:grant-type:device_code&device_code=dc"
    );
    assert_eq!(
        refresh_body("rt"),
        "client_id=7f8e9d75-ca8f-4603-b2ab-ae7fc0f871d9&scope=XboxLive.signin offline_access&grant_type=refresh_token&refresh_token=rt"
    );
}

#[test]
fn poll_answers() {
    let ok = json(r#"{"access_token": "at", "refresh_token": "rt"}"#);
    match poll_result(true, Some(&ok)) {
        WaitProgress::GotAuthToken(t) => assert_eq!((t.access_token.as_str(), t.refresh_token.as_str()), ("at", "rt")),
        other => panic!("unexpected {other:?}"),
    }
    assert!(matches!(poll_result(false, Some(&ok)), WaitProgress::Waiting));
    assert!(matches!(poll_result(true, None), WaitProgress::Waiting));
    assert!(matches!(poll_result(true, Some(&json(r#"{"access_token": "at"}"#))), WaitProgress::Waiting));
    assert_eq!(access_token_from(&ok), Some("at".to_string()));
    assert_eq!(access_token_from(&json("{}")), None);
}

#[test]
fn xbox_requests_and_answers() {
    let r = back(&xbox_auth_request("tok"));
    let expected: serde_json::Value = serde_json::from_str(
        r#"{"Properties": {"AuthMethod": "RPS", "SiteName": "user.auth.xboxlive.com", "RpsTicket": "d=tok"},
            "RelyingParty": "http://auth.xboxlive.com", "TokenType": "JWT"}"#,
    )
    .unwrap();
    assert_eq!(r, expected);
    let x = back(&xsts_request("xt"));
    let expected: serde_json::Value = serde_json::from_str(
        r#"{"Properties": {"SandboxId": "RETAIL", "UserTokens": ["xt"]},
            "RelyingParty": "rp://api.minecraftservices.com/", "TokenType": "JWT"}"#,
    )
    .unwrap();
    assert_eq!(x, expected);
    let (t, h) = xbox_user_from(&json(r#"{"Token": "xt", "DisplayClaims": {"xui": [{"uhs": "123"}]}}"#)).unwrap();
    assert_eq!((t.as_str(), h.as_str()), ("xt", "123"));
    assert_eq!(xbox_user_from(&json(r#"{"Token": "xt"}"#)).unwrap_err(), "Xbox response has no user hash.");
    assert_eq!(xbox_user_from(&json("{}")).unwrap_err(), "Xbox response has no token.");
    let data = xsts_from(&json(r#"{"Token": "xsts"}"#), "123".to_string()).unwrap();
    let login = back(&minecraft_login_request(&data));
    assert_eq!(login, serde_json::from_str::<serde_json::Value>(r#"{"identityToken": "XBL3.0 x=123;xsts"}"#).unwrap());
    assert_eq!(xsts_from(&json("{}"), "1".into()).unwrap_err(), "Xbox XSTS response has no token.");
}

#[test]
fn minecraft_answers() {
    assert_eq!(minecraft_token_from(&json(r#"{"access_token": "mc"}"#)).unwrap(), "mc");
    assert_eq!(minecraft_token_from(&json("{}")).unwrap_err(), "Minecraft response has no token.");
    let a = account_from_profile(&json(r#"{"id": "uuid", "name": "Steve"}"#), "mc".into()).unwrap();
    assert_eq!((a.username.as_str(), a.token.as_str(), a.uuid.as_str()), ("Steve", "mc", "uuid"));
    assert_eq!(account_from_profile(&json(r#"{"name": "x"}"#), "t".into()).unwrap_err(), "Minecraft profile has no id.");
    assert_eq!(account_from_profile(&json(r#"{"id": "x"}"#), "t".into()).unwrap_err(), "Minecraft profile has no name.");
}
