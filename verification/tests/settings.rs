use dgrlauncher::json::Json;
use dgrlauncher::settings::{
    account_from, account_json, accounts_from, persist_current_java_name, persist_custom_java, save_account,
    update_settings, update_user_settings, with_setting_defaults, Account, save_custom_java, store_accounts,
};

fn back(j: &Json) -> serde_json::Value {
    match j {
        Json::Null => serde_json::Value::Null,
        Json::Bool(b) => serde_json::Value::Bool(*b),
        Json::Number(n) => serde_json::from_str(n).unwrap(),
        Json::Str(s) => serde_json::Value::String(s.clone()),
        Json::Array(a) => serde_json::Value::Array(a.iter().map(back).collect()),
        Json::Object(e) => serde_json::Value::Object(e.iter().map(|(k, v)| (k.clone(), back(v))).collect()),
    }
}

fn conv(v: &serde_json::Value) -> Json {
    match v {
        serde_json::Value::Null => Json::Null,
        serde_json::Value::Bool(b) => Json::Bool(*b),
        serde_json::Value::Number(n) => Json::Number(n.to_string()),
        serde_json::Value::String(s) => Json::Str(s.clone()),
        serde_json::Value::Array(a) => Json::Array(a.iter().map(conv).collect()),
        serde_json::Value::Object(o) => Json::Object(o.iter().map(|(k, v)| (k.clone(), conv(v))).collect()),
    }
}

fn json(text: &str) -> Json {
    conv(&serde_json::from_str(text).unwrap())
}

#[test]
fn defaults_fill_only_missing_keys() {
    let c = with_setting_defaults(json(r#"{"game_ram": 4, "extra": 1}"#));
    let v = back(&c);
    let expected: serde_json::Value = serde_json::from_str(
        r#"{"custom_java_path": "", "custom_java_flags": "", "accounts": [],
            "current_account": {"microsoft": false, "username": "", "refresh_token": ""},
            "current_version": "", "game_ram": 4, "current_java_name": "Automatic",
            "game_enviroment_variables": "", "game_wrapper_commands": "", "show_all_versions": false, "extra": 1}"#,
    )
    .unwrap();
    assert_eq!(v, expected);
    let fresh = back(&with_setting_defaults(Json::Object(vec![])));
    assert_eq!(fresh["game_ram"], serde_json::Value::from(2.5));
    assert!(matches!(with_setting_defaults(Json::Bool(true)), Json::Bool(true)));
}

#[test]
fn settings_writes() {
    let c = persist_current_java_name(json(r#"{"current_java_name": "Automatic", "k": 1}"#), "Custom");
    assert_eq!(back(&c), serde_json::from_str::<serde_json::Value>(r#"{"current_java_name": "Custom", "k": 1}"#).unwrap());
    let c = persist_custom_java(Json::Null, "/j", "-X");
    assert_eq!(back(&c), serde_json::from_str::<serde_json::Value>(r#"{"custom_java_path": "/j", "custom_java_flags": "-X"}"#).unwrap());
    let acc = Account { microsoft: true, username: "Steve".into(), refresh_token: "rt".into() };
    let c = update_user_settings(Json::Object(vec![]), &acc, "1.21.1");
    assert_eq!(
        back(&c),
        serde_json::from_str::<serde_json::Value>(
            r#"{"current_account": {"microsoft": true, "username": "Steve", "refresh_token": "rt"}, "current_version": "1.21.1"}"#
        )
        .unwrap()
    );
    let c = update_settings(Json::Object(vec![]), "3.5", "System Java", "w", "A=1", true);
    assert_eq!(
        back(&c),
        serde_json::from_str::<serde_json::Value>(
            r#"{"game_ram": 3.5, "current_java_name": "System Java", "game_wrapper_commands": "w", "show_all_versions": true, "game_enviroment_variables": "A=1"}"#
        )
        .unwrap()
    );
}

#[test]
fn accounts_stored_and_read() {
    let acc = Account { microsoft: false, username: "Alex".into(), refresh_token: String::new() };
    let back_acc = account_from(&account_json(&acc)).unwrap();
    assert_eq!((back_acc.microsoft, back_acc.username.as_str()), (false, "Alex"));
    let (c, list) = save_account(json(r#"{"accounts": [{"microsoft": true, "username": "Steve", "refresh_token": "rt"}]}"#), &acc);
    let list = list.unwrap();
    assert_eq!(list.len(), 2);
    assert_eq!(list[1].username, "Alex");
    assert_eq!(accounts_from(&c).unwrap().len(), 2);
    let (c2, list) = save_account(json(r#"{"x": 1}"#), &acc);
    assert!(list.unwrap().is_empty());
    assert_eq!(back(&c2), serde_json::from_str::<serde_json::Value>(r#"{"x": 1}"#).unwrap());
    assert!(accounts_from(&json(r#"{"accounts": [{"username": "no flag"}]}"#)).is_none());
}

#[test]
fn custom_java_form_saves_trimmed_values() {
    let c = json(r#"{"current_java_name": "Automatic", "game_ram": 4}"#);
    assert_eq!(
        save_custom_java(json(r#"{"current_java_name": "Automatic", "game_ram": 4}"#), "   ", "-Xss1M").err(),
        Some(String::from("Enter a Java path or pick one from the scan results."))
    );
    let saved = save_custom_java(c, "  /opt/jdk/bin/java ", " -Xss1M  ").unwrap();
    let expected: serde_json::Value = serde_json::from_str(
        r#"{"current_java_name": "Custom", "game_ram": 4,
            "custom_java_path": "/opt/jdk/bin/java", "custom_java_flags": "-Xss1M"}"#,
    )
    .unwrap();
    assert_eq!(back(&saved), expected);
}

#[test]
fn stored_accounts_read_back() {
    let a = Account { microsoft: true, username: String::from("Alex"), refresh_token: String::from("tok") };
    let b = Account { microsoft: false, username: String::from("Steve"), refresh_token: String::new() };
    let c = store_accounts(json(r#"{"game_ram": 4, "accounts": [1]}"#), &vec![a.clone(), b.clone()], &b);
    let back_list = accounts_from(&c).unwrap();
    assert_eq!(back_list.len(), 2);
    assert_eq!((back_list[0].microsoft, back_list[0].username.as_str(), back_list[0].refresh_token.as_str()), (true, "Alex", "tok"));
    assert_eq!((back_list[1].microsoft, back_list[1].username.as_str()), (false, "Steve"));
    let cur = account_from(c.get("current_account")).unwrap();
    assert_eq!(cur.username, "Steve");
    assert_eq!(back(&c)["game_ram"], serde_json::Value::from(4));
}
