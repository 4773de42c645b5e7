//! The launcher's settings file as a JSON object: its defaults, the keys
//! each action writes, the stored accounts, and the launch options read
//! from it (Java choice, wrapper commands, environment variables).
use vstd::prelude::*;
use crate::json::{Json, get, as_str, as_bool, as_array, is_text, has_member, is_object_or_null, members, lookup};
use crate::text;
use crate::text::string_views;
use crate::launcher::JavaType;

verus! {

/// A stored account: Microsoft (with its refresh token) or local.
#[derive(Clone, Debug, Default)]
pub struct Account {
    pub microsoft: bool,
    pub username: String,
    pub refresh_token: String,
}

pub open spec fn account_view(a: Account) -> (bool, Seq<char>, Seq<char>) {
    (a.microsoft, a.username@, a.refresh_token@)
}

pub open spec fn accounts_view(v: Seq<Account>) -> Seq<(bool, Seq<char>, Seq<char>)> {
    v.map_values(|a: Account| account_view(a))
}

/// `j` is the stored form of an account.
pub open spec fn describes_account(j: Json, a: (bool, Seq<char>, Seq<char>)) -> bool {
    &&& members(j) == 3
    &&& as_bool(get(j, "microsoft"@)) == Some(a.0)
    &&& is_text(get(j, "username"@), a.1)
    &&& is_text(get(j, "refresh_token"@), a.2)
}

/// Stored form of an account.
pub fn account_json(a: &Account) -> (r: Json)
    ensures
        describes_account(r, account_view(*a)),
{
    let mut e: Vec<(String, Json)> = Vec::new();
    e.push(("microsoft".to_string(), Json::Bool(a.microsoft)));
    e.push(("username".to_string(), Json::Str(a.username.clone())));
    e.push(("refresh_token".to_string(), Json::Str(a.refresh_token.clone())));
    proof {
        reveal_strlit("microsoft");
        reveal_strlit("username");
        reveal_strlit("refresh_token");
        assert(e@[0].0@ == "microsoft"@);
        assert(e@[1].0@ == "username"@);
        assert("microsoft"@.len() != "username"@.len());
        assert("microsoft"@.len() != "refresh_token"@.len());
        assert("username"@.len() != "refresh_token"@.len());
        crate::json::lemma_lookup_at(e@, 0, "microsoft"@);
        crate::json::lemma_lookup_at(e@, 1, "username"@);
        crate::json::lemma_lookup_at(e@, 2, "refresh_token"@);
    }
    Json::Object(e)
}

pub open spec fn account_spec(j: Json) -> Option<(bool, Seq<char>, Seq<char>)> {
    match (as_bool(get(j, "microsoft"@)), as_str(get(j, "username"@)), as_str(get(j, "refresh_token"@))) {
        (Some(m), Some(u), Some(t)) => Some((m, u, t)),
        _ => None,
    }
}

/// An account read back from its stored form; `None` when a field is
/// missing or of the wrong kind.
pub fn account_from(j: &Json) -> (r: Option<Account>)
    ensures
        match r {
            Some(a) => account_spec(*j) == Some(account_view(a)),
            None => account_spec(*j) is None,
        },
{
    match (j.get("microsoft").as_bool(), j.get("username").as_str(), j.get("refresh_token").as_str()) {
        (Some(m), Some(u), Some(t)) => Some(Account { microsoft: m, username: u.clone(), refresh_token: t.clone() }),
        _ => None,
    }
}

/// Reading what `account_json` writes gives the account back.
pub proof fn law_account_read_back(j: Json, a: (bool, Seq<char>, Seq<char>))
    requires
        describes_account(j, a),
    ensures
        account_spec(j) == Some(a),
{
}

pub open spec fn all_accounts(list: Seq<Json>) -> bool {
    forall|i: int| 0 <= i < list.len() ==> account_spec(#[trigger] list[i]) is Some
}

pub open spec fn accounts_of(list: Seq<Json>) -> Seq<(bool, Seq<char>, Seq<char>)> {
    list.map_values(|j: Json| account_spec(j).unwrap())
}

/// The stored account list (`accounts`): empty when there is none, `None`
/// when an entry is not a well-formed account.
pub fn accounts_from(config: &Json) -> (r: Option<Vec<Account>>)
    ensures
        match as_array(get(*config, "accounts"@)) {
            Some(list) => match r {
                Some(v) => all_accounts(list) && accounts_view(v@) == accounts_of(list),
                None => !all_accounts(list),
            },
            None => r matches Some(v) && v@.len() == 0,
        },
{
    let mut out: Vec<Account> = Vec::new();
    match config.get("accounts").as_array() {
        None => Some(out),
        Some(list) => {
            let mut i: usize = 0;
            while i < list.len()
                invariant
                    i <= list.len(),
                    as_array(get(*config, "accounts"@)) == Some(list@),
                    out@.len() == i,
                    forall|j: int| 0 <= j < i ==> account_spec(#[trigger] list@[j]) == Some(account_view(out@[j])),
                decreases list.len() - i,
            {
                match account_from(&list[i]) {
                    Some(a) => out.push(a),
                    None => {
                        assert(!all_accounts(list@)) by {
                            assert(account_spec(list@[i as int]) is None);
                        }
                        return None;
                    },
                }
                i += 1;
            }
            assert(accounts_view(out@) =~= accounts_of(list@));
            Some(out)
        },
    }
}

/// Reading back a list written with `account_json` gives the accounts
/// back, in order.
pub proof fn law_accounts_read_back(list: Seq<Json>, accounts: Seq<(bool, Seq<char>, Seq<char>)>)
    requires
        list.len() == accounts.len(),
        forall|i: int| 0 <= i < list.len() ==> describes_account(#[trigger] list[i], accounts[i]),
    ensures
        all_accounts(list),
        accounts_of(list) == accounts,
{
    assert(accounts_of(list) =~= accounts);
}

/// Storing the account list and the current account (after a removal).
pub fn store_accounts(config: Json, accounts: &Vec<Account>, current: &Account) -> (r: Json)
    requires
        is_object_or_null(config),
    ensures
        r is Object,
        as_array(get(r, "accounts"@)) matches Some(list) && list.len() == accounts@.len()
            && forall|i: int| 0 <= i < list.len() ==> describes_account(#[trigger] list[i], account_view(accounts@[i])),
        describes_account(get(r, "current_account"@), account_view(*current)),
        forall|k: Seq<char>| k != "accounts"@ && k != "current_account"@ ==> #[trigger] get(r, k) == get(config, k),
{
    let mut list: Vec<Json> = Vec::new();
    let mut i: usize = 0;
    while i < accounts.len()
        invariant
            i <= accounts.len(),
            list@.len() == i,
            forall|j: int| 0 <= j < i ==> describes_account(#[trigger] list@[j], account_view(accounts@[j])),
        decreases accounts.len() - i,
    {
        list.push(account_json(&accounts[i]));
        i += 1;
    }
    let c = config.with_member("accounts", Json::Array(list));
    proof {
        reveal_strlit("accounts");
        reveal_strlit("current_account");
        assert("accounts"@.len() != "current_account"@.len());
    }
    persist_current_account(c, current)
}

/// Keys of the settings file and the value each gets when missing.
pub open spec fn default_setting(key: Seq<char>, v: Json) -> bool {
    if key == "accounts"@ {
        as_array(v) == Some(Seq::<Json>::empty())
    } else if key == "current_account"@ {
        describes_account(v, (false, Seq::empty(), Seq::empty()))
    } else if key == "game_ram"@ {
        v matches Json::Number(n) && n@ == "2.5"@
    } else if key == "current_java_name"@ {
        is_text(v, "Automatic"@)
    } else if key == "show_all_versions"@ {
        as_bool(v) == Some(false)
    } else {
        is_text(v, Seq::empty())
    }
}

pub open spec fn setting_keys() -> Seq<Seq<char>> {
    seq![
        "custom_java_path"@,
        "custom_java_flags"@,
        "accounts"@,
        "current_account"@,
        "current_version"@,
        "game_ram"@,
        "current_java_name"@,
        "game_enviroment_variables"@,
        "game_wrapper_commands"@,
        "show_all_versions"@,
    ]
}

fn default_value(key: &str) -> (r: Json)
    ensures
        default_setting(key@, r),
{
    if text::str_eq(key, "accounts") {
        Json::Array(Vec::new())
    } else if text::str_eq(key, "current_account") {
        account_json(&Account { microsoft: false, username: String::new(), refresh_token: String::new() })
    } else if text::str_eq(key, "game_ram") {
        Json::Number("2.5".to_string())
    } else if text::str_eq(key, "current_java_name") {
        Json::Str("Automatic".to_string())
    } else if text::str_eq(key, "show_all_versions") {
        Json::Bool(false)
    } else {
        Json::Str(String::new())
    }
}

pub open spec fn settled(conf: Json, r: Json, key: Seq<char>) -> bool {
    &&& has_member(r, key)
    &&& has_member(conf, key) ==> get(r, key) == get(conf, key)
    &&& !has_member(conf, key) ==> default_setting(key, get(r, key))
}

fn ensure_key(conf: Json, key: &str) -> (r: Json)
    requires
        conf is Object,
    ensures
        r is Object,
        settled(conf, r, key@),
        forall|k: Seq<char>| k != key@ ==> #[trigger] get(r, k) == get(conf, k),
        forall|k: Seq<char>| k != key@ ==> #[trigger] has_member(r, k) == has_member(conf, k),
{
    if conf.has_key(key) {
        conf
    } else {
        let v = default_value(key);
        conf.with_member(key, v)
    }
}

/// The settings file with every missing key given its default (see
/// `default_setting`); present keys and other members keep their values.
/// Anything but an object is left as it is.
pub fn with_setting_defaults(conf: Json) -> (r: Json)
    ensures
        conf is Object ==> {
            &&& r is Object
            &&& forall|i: int| 0 <= i < setting_keys().len() ==> settled(conf, r, #[trigger] setting_keys()[i])
            &&& forall|k: Seq<char>| !setting_keys().contains(k) ==> #[trigger] get(r, k) == get(conf, k)
        },
        !(conf is Object) ==> r == conf,
{
    if !(match conf { Json::Object(_) => true, _ => false }) {
        return conf;
    }
    let ghost c0 = conf;
    let keys = [
        "custom_java_path",
        "custom_java_flags",
        "accounts",
        "current_account",
        "current_version",
        "game_ram",
        "current_java_name",
        "game_enviroment_variables",
        "game_wrapper_commands",
        "show_all_versions",
    ];
    proof {
        reveal_strlit("custom_java_path");
        reveal_strlit("custom_java_flags");
        reveal_strlit("accounts");
        reveal_strlit("current_account");
        reveal_strlit("current_version");
        reveal_strlit("game_ram");
        reveal_strlit("current_java_name");
        reveal_strlit("game_enviroment_variables");
        reveal_strlit("game_wrapper_commands");
        reveal_strlit("show_all_versions");
        assert(keys@.map_values(|k: &str| k@) =~= setting_keys());
        assert forall|a: int, b: int| 0 <= a < b < 10 implies #[trigger] setting_keys()[a] != #[trigger] setting_keys()[b] by {
            assert(setting_keys()[a].len() != setting_keys()[b].len() || setting_keys()[a][1] != setting_keys()[b][1]
                || setting_keys()[a][8] != setting_keys()[b][8] || setting_keys()[a][9] != setting_keys()[b][9]);
        }
    }
    let mut c = conf;
    let mut i: usize = 0;
    while i < 10
        invariant
            i <= 10,
            c is Object,
            keys@.map_values(|k: &str| k@) == setting_keys(),
            forall|a: int, b: int| 0 <= a < b < 10 ==> #[trigger] setting_keys()[a] != #[trigger] setting_keys()[b],
            forall|j: int| 0 <= j < i ==> settled(c0, c, #[trigger] setting_keys()[j]),
            forall|k: Seq<char>| !setting_keys().take(i as int).contains(k) ==> #[trigger] get(c, k) == get(c0, k),
            forall|k: Seq<char>| !setting_keys().take(i as int).contains(k) ==> #[trigger] has_member(c, k) == has_member(c0, k),
        decreases 10 - i,
    {
        let key = keys[i];
        let ghost before = c;
        assert(key@ == setting_keys()[i as int]);
        c = ensure_key(c, key);
        proof {
            let sk = setting_keys();
            assert(!sk.take(i as int).contains(key@)) by {
                if sk.take(i as int).contains(key@) {
                    let j = choose|j: int| 0 <= j < i && sk.take(i as int)[j] == key@;
                    assert(sk[j] == sk[i as int]);
                }
            }
            assert forall|j: int| 0 <= j < i + 1 implies settled(c0, c, #[trigger] sk[j]) by {
                if j < i {
                    assert(sk[j] != key@);
                    assert(settled(c0, before, sk[j]));
                }
            }
            assert forall|k: Seq<char>| !sk.take(i + 1).contains(k) implies #[trigger] get(c, k) == get(c0, k) && has_member(c, k) == has_member(c0, k) by {
                assert(sk.take(i + 1)[i as int] == key@);
                if sk.take(i as int).contains(k) {
                    let j = choose|j: int| 0 <= j < i && sk.take(i as int)[j] == k;
                    assert(sk.take(i + 1)[j] == k);
                }
            }
        }
        i += 1;
    }
    assert(setting_keys().take(10) =~= setting_keys());
    c
}

/// The settings with one text member set (the file's other members kept).
pub fn set_text(config: Json, key: &str, value: &str) -> (r: Json)
    requires
        is_object_or_null(config),
    ensures
        r is Object,
        is_text(get(r, key@), value@),
        forall|k: Seq<char>| k != key@ ==> #[trigger] get(r, k) == get(config, k),
{
    config.with_member(key, Json::Str(value.to_string()))
}

/// Storing the chosen Java.
pub fn persist_current_java_name(config: Json, name: &str) -> (r: Json)
    requires
        is_object_or_null(config),
    ensures
        r is Object,
        is_text(get(r, "current_java_name"@), name@),
        forall|k: Seq<char>| k != "current_java_name"@ ==> #[trigger] get(r, k) == get(config, k),
{
    set_text(config, "current_java_name", name)
}

/// Storing the custom Java binary and its flags.
pub fn persist_custom_java(config: Json, path: &str, flags: &str) -> (r: Json)
    requires
        is_object_or_null(config),
    ensures
        r is Object,
        is_text(get(r, "custom_java_path"@), path@),
        is_text(get(r, "custom_java_flags"@), flags@),
        forall|k: Seq<char>| k != "custom_java_path"@ && k != "custom_java_flags"@ ==> #[trigger] get(r, k) == get(config, k),
{
    let c = set_text(config, "custom_java_path", path);
    proof {
        reveal_strlit("custom_java_path");
        reveal_strlit("custom_java_flags");
        assert("custom_java_path"@.len() != "custom_java_flags"@.len());
    }
    set_text(c, "custom_java_flags", flags)
}

/// Saving the Custom Java form: refused while the path is blank;
/// otherwise the trimmed path and flags are stored and Custom becomes the
/// chosen Java.
pub fn save_custom_java(config: Json, path: &str, flags: &str) -> (r: Result<Json, String>)
    requires
        is_object_or_null(config),
    ensures
        text::trim(path@).len() == 0 ==> (r matches Err(e) && e@ == "Enter a Java path or pick one from the scan results."@),
        text::trim(path@).len() > 0 ==> (r matches Ok(c) && {
            &&& c is Object
            &&& is_text(get(c, "custom_java_path"@), text::trim(path@))
            &&& is_text(get(c, "custom_java_flags"@), text::trim(flags@))
            &&& is_text(get(c, "current_java_name"@), "Custom"@)
            &&& forall|k: Seq<char>| k != "custom_java_path"@ && k != "custom_java_flags"@ && k != "current_java_name"@
                ==> #[trigger] get(c, k) == get(config, k)
        }),
{
    let p = text::chars_of(path);
    let tp = text::chars_trim(&p);
    if tp.len() == 0 {
        return Err("Enter a Java path or pick one from the scan results.".to_string());
    }
    let f = text::chars_of(flags);
    let tf = text::chars_trim(&f);
    let ps = text::string_of(&tp);
    let fs = text::string_of(&tf);
    let c = persist_custom_java(config, ps.as_str(), fs.as_str());
    proof {
        reveal_strlit("custom_java_path");
        reveal_strlit("custom_java_flags");
        reveal_strlit("current_java_name");
        assert("custom_java_path"@.len() != "current_java_name"@.len());
        assert("custom_java_flags"@[2] != "current_java_name"@[2]);
    }
    Ok(persist_current_java_name(c, "Custom"))
}

/// Storing the current account.
pub fn persist_current_account(config: Json, account: &Account) -> (r: Json)
    requires
        is_object_or_null(config),
    ensures
        r is Object,
        describes_account(get(r, "current_account"@), account_view(*account)),
        forall|k: Seq<char>| k != "current_account"@ ==> #[trigger] get(r, k) == get(config, k),
{
    config.with_member("current_account", account_json(account))
}

/// Storing the current account and the selected version.
pub fn update_user_settings(config: Json, account: &Account, version: &str) -> (r: Json)
    requires
        is_object_or_null(config),
    ensures
        r is Object,
        describes_account(get(r, "current_account"@), account_view(*account)),
        is_text(get(r, "current_version"@), version@),
        forall|k: Seq<char>| k != "current_account"@ && k != "current_version"@ ==> #[trigger] get(r, k) == get(config, k),
{
    let c = persist_current_account(config, account);
    proof {
        reveal_strlit("current_account");
        reveal_strlit("current_version");
        assert("current_account"@[8] != "current_version"@[8]);
    }
    set_text(c, "current_version", version)
}

/// Storing the game settings; `ram` is the number text of the RAM size.
pub fn update_settings(config: Json, ram: &str, java_name: &str, wrapper_commands: &str, env_variables: &str, show_all_versions: bool) -> (r: Json)
    requires
        is_object_or_null(config),
    ensures
        r is Object,
        get(r, "game_ram"@) matches Json::Number(n) && n@ == ram@,
        is_text(get(r, "current_java_name"@), java_name@),
        is_text(get(r, "game_wrapper_commands"@), wrapper_commands@),
        as_bool(get(r, "show_all_versions"@)) == Some(show_all_versions),
        is_text(get(r, "game_enviroment_variables"@), env_variables@),
        forall|k: Seq<char>| !seq!["game_ram"@, "current_java_name"@, "game_wrapper_commands"@, "show_all_versions"@, "game_enviroment_variables"@].contains(k)
            ==> #[trigger] get(r, k) == get(config, k),
{
    proof {
        reveal_strlit("game_ram");
        reveal_strlit("current_java_name");
        reveal_strlit("game_wrapper_commands");
        reveal_strlit("show_all_versions");
        reveal_strlit("game_enviroment_variables");
    }
    let c1 = config.with_member("game_ram", Json::Number(ram.to_string()));
    let c2 = c1.with_member("current_java_name", Json::Str(java_name.to_string()));
    let c3 = c2.with_member("game_wrapper_commands", Json::Str(wrapper_commands.to_string()));
    let c4 = c3.with_member("show_all_versions", Json::Bool(show_all_versions));
    let c5 = c4.with_member("game_enviroment_variables", Json::Str(env_variables.to_string()));
    proof {
        reveal_strlit("game_ram");
        reveal_strlit("current_java_name");
        reveal_strlit("game_wrapper_commands");
        reveal_strlit("show_all_versions");
        reveal_strlit("game_enviroment_variables");
        assert("game_ram"@.len() == 8);
        assert("current_java_name"@.len() == 17);
        assert("game_wrapper_commands"@.len() == 21);
        assert("show_all_versions"@.len() == 17);
        assert("game_enviroment_variables"@.len() == 25);
        assert("current_java_name"@[0] != "show_all_versions"@[0]);
        assert("game_ram"@ != "current_java_name"@ && "game_ram"@ != "game_wrapper_commands"@ && "game_ram"@ != "show_all_versions"@
            && "game_ram"@ != "game_enviroment_variables"@);
        assert("current_java_name"@ != "game_wrapper_commands"@ && "current_java_name"@ != "show_all_versions"@
            && "current_java_name"@ != "game_enviroment_variables"@);
        assert("game_wrapper_commands"@ != "show_all_versions"@ && "game_wrapper_commands"@ != "game_enviroment_variables"@);
        assert("show_all_versions"@ != "game_enviroment_variables"@);
    }
    assert(get(c5, "game_ram"@) == get(c4, "game_ram"@));
    assert(get(c4, "game_ram"@) == get(c3, "game_ram"@));
    assert(get(c3, "game_ram"@) == get(c2, "game_ram"@));
    assert(get(c2, "game_ram"@) == get(c1, "game_ram"@));
    assert(get(c5, "current_java_name"@) == get(c4, "current_java_name"@));
    assert(get(c4, "current_java_name"@) == get(c3, "current_java_name"@));
    assert(get(c3, "current_java_name"@) == get(c2, "current_java_name"@));
    assert(get(c5, "game_wrapper_commands"@) == get(c4, "game_wrapper_commands"@));
    assert(get(c4, "game_wrapper_commands"@) == get(c3, "game_wrapper_commands"@));
    assert(get(c5, "show_all_versions"@) == get(c4, "show_all_versions"@));
    proof {
        assert forall|k: Seq<char>| !seq!["game_ram"@, "current_java_name"@, "game_wrapper_commands"@, "show_all_versions"@, "game_enviroment_variables"@].contains(k)
            implies #[trigger] get(c5, k) == get(config, k) by {
            assert(seq!["game_ram"@, "current_java_name"@, "game_wrapper_commands"@, "show_all_versions"@, "game_enviroment_variables"@][0] == "game_ram"@);
            assert(seq!["game_ram"@, "current_java_name"@, "game_wrapper_commands"@, "show_all_versions"@, "game_enviroment_variables"@][1] == "current_java_name"@);
            assert(seq!["game_ram"@, "current_java_name"@, "game_wrapper_commands"@, "show_all_versions"@, "game_enviroment_variables"@][2] == "game_wrapper_commands"@);
            assert(seq!["game_ram"@, "current_java_name"@, "game_wrapper_commands"@, "show_all_versions"@, "game_enviroment_variables"@][3] == "show_all_versions"@);
            assert(seq!["game_ram"@, "current_java_name"@, "game_wrapper_commands"@, "show_all_versions"@, "game_enviroment_variables"@][4] == "game_enviroment_variables"@);
        }
    }
    c5
}

/// Adding an account to the stored list (when the file has one) and
/// reading the list back.
pub fn save_account(config: Json, account: &Account) -> (r: (Json, Option<Vec<Account>>))
    ensures
        match as_array(get(config, "accounts"@)) {
            Some(list) => as_array(get(r.0, "accounts"@)) matches Some(l2) && l2.len() == list.len() + 1
                && l2.take(list.len() as int) == list && describes_account(l2.last(), account_view(*account))
                && (forall|k: Seq<char>| k != "accounts"@ ==> #[trigger] get(r.0, k) == get(config, k)),
            None => forall|k: Seq<char>| #[trigger] get(r.0, k) == get(config, k),
        },
        match as_array(get(r.0, "accounts"@)) {
            Some(list) => match r.1 {
                Some(v) => all_accounts(list) && accounts_view(v@) == accounts_of(list),
                None => !all_accounts(list),
            },
            None => r.1 matches Some(v) && v@.len() == 0,
        },
{
    let updated = match config {
        Json::Object(mut e) => {
            let ghost o = e@;
            let mut k: usize = 0;
            while k < e.len() && !text::str_eq(e[k].0.as_str(), "accounts")
                invariant
                    k <= e.len(),
                    o == e@,
                    forall|j: int| 0 <= j < k ==> #[trigger] o[j].0@ != "accounts"@,
                decreases e.len() - k,
            {
                k += 1;
            }
            if k < e.len() {
                proof {
                    crate::json::lemma_lookup_at(o, k as int, "accounts"@);
                }
                let (key, val) = e.remove(k);
                match val {
                    Json::Array(mut list) => {
                        let ghost before = list@;
                        list.push(account_json(account));
                        assert(list@.take(before.len() as int) =~= before);
                        let entry = (key, Json::Array(list));
                        e.insert(k, entry);
                        proof {
                            assert(e@ =~= o.update(k as int, entry));
                            crate::json::lemma_lookup_at(e@, k as int, "accounts"@);
                            assert forall|kk: Seq<char>| kk != "accounts"@ implies lookup(e@, kk) == lookup(o, kk) by {
                                crate::json::lemma_lookup_update_other(o, k as int, entry, kk);
                            }
                        }
                        Json::Object(e)
                    },
                    other => {
                        let entry = (key, other);
                        e.insert(k, entry);
                        assert(e@ =~= o);
                        Json::Object(e)
                    },
                }
            } else {
                proof {
                    crate::json::lemma_lookup_none(o, "accounts"@);
                }
                Json::Object(e)
            }
        },
        other => other,
    };
    let accounts = accounts_from(&updated);
    (updated, accounts)
}

} // verus!
