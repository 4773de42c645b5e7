//! Microsoft / Xbox Live / Minecraft sign-in: the request bodies the
//! device-code flow sends and what the launcher takes from each answer.
use vstd::prelude::*;
use crate::json::{Json, get, at, as_str, is_text, lemma_lookup_at, members};
use crate::text;

verus! {

/// A signed-in (or offline) Minecraft account.
#[derive(Clone, Debug, Default, PartialEq, Eq, Hash)]
pub struct MinecraftAccount {
    pub username: String,
    pub token: String,
    pub uuid: String,
}

/// Device code shown to the user.
#[derive(Clone, Debug, Default)]
pub struct AuthCode {
    pub code: String,
    pub link: String,
    pub device_code: String,
}

/// Microsoft OAuth tokens.
#[derive(Debug, Clone, Default)]
pub struct AuthToken {
    pub access_token: String,
    pub refresh_token: String,
}

/// Xbox Live user hash and XSTS token.
#[derive(Clone, Debug, Default)]
pub struct XboxLiveData {
    user_hash: String,
    xsts_token: String,
}

/// Progress of the device-code login poll.
#[derive(Debug, Clone)]
pub enum WaitProgress {
    GotAuthToken(AuthToken),
    Waiting,
    Finished,
}

pub open spec fn azure_client_id() -> Seq<char> {
    "7f8e9d75-ca8f-4603-b2ab-ae7fc0f871d9"@
}

/// Client id of the launcher's Azure application.
pub fn azure_client_id_str() -> (r: &'static str)
    ensures
        r@ == azure_client_id(),
{
    "7f8e9d75-ca8f-4603-b2ab-ae7fc0f871d9"
}

pub open spec fn required_spec(j: Json, key: Seq<char>, msg: Seq<char>) -> Result<Seq<char>, Seq<char>> {
    match as_str(get(j, key)) {
        Some(s) => Ok(s),
        None => Err(msg),
    }
}

fn required(j: &Json, key: &str, msg: &str) -> (r: Result<String, String>)
    ensures
        match r {
            Ok(s) => required_spec(*j, key@, msg@) == Ok::<Seq<char>, Seq<char>>(s@),
            Err(e) => required_spec(*j, key@, msg@) == Err::<Seq<char>, Seq<char>>(e@),
        },
{
    match j.get(key).as_str() {
        Some(s) => Ok(s.clone()),
        None => Err(msg.to_string()),
    }
}

pub open spec fn auth_code_spec(resp: Json) -> Result<(Seq<char>, Seq<char>, Seq<char>), Seq<char>> {
    match required_spec(resp, "user_code"@, "Auth response has no code."@) {
        Err(e) => Err(e),
        Ok(code) => match required_spec(resp, "verification_uri"@, "Auth response has no link."@) {
            Err(e) => Err(e),
            Ok(link) => match required_spec(resp, "device_code"@, "Auth response has no device code."@) {
                Err(e) => Err(e),
                Ok(dc) => Ok((code, link, dc)),
            },
        },
    }
}

/// The device code answer: the code the user types, the page to type it
/// on, and the device code to poll with.
pub fn auth_code_from(resp: &Json) -> (r: Result<AuthCode, String>)
    ensures
        match r {
            Ok(c) => auth_code_spec(*resp) == Ok::<(Seq<char>, Seq<char>, Seq<char>), Seq<char>>((c.code@, c.link@, c.device_code@)),
            Err(e) => auth_code_spec(*resp) == Err::<(Seq<char>, Seq<char>, Seq<char>), Seq<char>>(e@),
        },
{
    let code = match required(resp, "user_code", "Auth response has no code.") {
        Ok(c) => c,
        Err(e) => {
            return Err(e);
        },
    };
    let link = match required(resp, "verification_uri", "Auth response has no link.") {
        Ok(c) => c,
        Err(e) => {
            return Err(e);
        },
    };
    let device_code = match required(resp, "device_code", "Auth response has no device code.") {
        Ok(c) => c,
        Err(e) => {
            return Err(e);
        },
    };
    Ok(AuthCode { code, link, device_code })
}

pub open spec fn poll_body_spec(device_code: Seq<char>) -> Seq<char> {
    "client_id="@ + azure_client_id() + "&scope=XboxLive.signin offline_access&grant_type=urn:ietf:params:oauth:grant-type:device_code&device_code="@ + device_code
}

/// Form body of one poll for the device-code token.
pub fn poll_body(device_code: &str) -> (r: String)
    ensures
        r@ == poll_body_spec(device_code@),
{
    let mut b = text::chars_of("client_id=");
    text::push_str(&mut b, azure_client_id_str());
    text::push_str(&mut b, "&scope=XboxLive.signin offline_access&grant_type=urn:ietf:params:oauth:grant-type:device_code&device_code=");
    text::push_str(&mut b, device_code);
    text::string_of(&b)
}

pub open spec fn refresh_body_spec(refresh_token: Seq<char>) -> Seq<char> {
    "client_id="@ + azure_client_id() + "&scope=XboxLive.signin offline_access&grant_type=refresh_token&refresh_token="@ + refresh_token
}

/// Form body that trades a refresh token for a new access token.
pub fn refresh_body(refresh_token: &str) -> (r: String)
    ensures
        r@ == refresh_body_spec(refresh_token@),
{
    let mut b = text::chars_of("client_id=");
    text::push_str(&mut b, azure_client_id_str());
    text::push_str(&mut b, "&scope=XboxLive.signin offline_access&grant_type=refresh_token&refresh_token=");
    text::push_str(&mut b, refresh_token);
    text::string_of(&b)
}

/// One poll answer: tokens when the status was OK and the answer holds
/// both of them; otherwise the poll waits and tries again.
pub fn poll_result(status_ok: bool, resp: Option<&Json>) -> (r: WaitProgress)
    ensures
        match r {
            WaitProgress::GotAuthToken(t) => status_ok && resp is Some
                && as_str(get(*resp.unwrap(), "access_token"@)) == Some(t.access_token@)
                && as_str(get(*resp.unwrap(), "refresh_token"@)) == Some(t.refresh_token@),
            WaitProgress::Waiting => !status_ok || resp is None
                || as_str(get(*resp.unwrap(), "access_token"@)) is None
                || as_str(get(*resp.unwrap(), "refresh_token"@)) is None,
            WaitProgress::Finished => false,
        },
{
    if !status_ok {
        return WaitProgress::Waiting;
    }
    match resp {
        None => WaitProgress::Waiting,
        Some(j) => match (j.get("access_token").as_str(), j.get("refresh_token").as_str()) {
            (Some(a), Some(rt)) => WaitProgress::GotAuthToken(AuthToken { access_token: a.clone(), refresh_token: rt.clone() }),
            _ => WaitProgress::Waiting,
        },
    }
}

/// The access token of a refresh answer, if it has one.
pub fn access_token_from(resp: &Json) -> (r: Option<String>)
    ensures
        match r {
            Some(t) => as_str(get(*resp, "access_token"@)) == Some(t@),
            None => as_str(get(*resp, "access_token"@)) is None,
        },
{
    match resp.get("access_token").as_str() {
        Some(t) => Some(t.clone()),
        None => None,
    }
}

fn obj(entries: Vec<(String, Json)>) -> (r: Json)
    ensures
        r == Json::Object(entries),
{
    Json::Object(entries)
}

fn text_value(s: &str) -> (r: Json)
    ensures
        as_str(r) == Some(s@),
{
    Json::Str(s.to_string())
}

fn entry(k: &str, v: Json) -> (r: (String, Json))
    ensures
        r.0@ == k@,
        r.1 == v,
{
    (k.to_string(), v)
}

/// Xbox Live user authentication request for a Microsoft access token.
pub fn xbox_auth_request(access_token: &str) -> (r: Json)
    ensures
        members(r) == 3,
        members(get(r, "Properties"@)) == 3,
        is_text(get(get(r, "Properties"@), "AuthMethod"@), "RPS"@),
        is_text(get(get(r, "Properties"@), "SiteName"@), "user.auth.xboxlive.com"@),
        is_text(get(get(r, "Properties"@), "RpsTicket"@), "d="@ + access_token@),
        is_text(get(r, "RelyingParty"@), "http://auth.xboxlive.com"@),
        is_text(get(r, "TokenType"@), "JWT"@),
{
    let mut t = text::chars_of("d=");
    text::push_str(&mut t, access_token);
    let ticket = text::string_of(&t);
    let mut props: Vec<(String, Json)> = Vec::new();
    props.push(entry("AuthMethod", text_value("RPS")));
    props.push(entry("SiteName", text_value("user.auth.xboxlive.com")));
    props.push(entry("RpsTicket", Json::Str(ticket)));
    let mut top: Vec<(String, Json)> = Vec::new();
    top.push(entry("Properties", Json::Object(props)));
    top.push(entry("RelyingParty", text_value("http://auth.xboxlive.com")));
    top.push(entry("TokenType", text_value("JWT")));
    let r = Json::Object(top);
    proof {
        reveal_strlit("AuthMethod");
        reveal_strlit("SiteName");
        reveal_strlit("RpsTicket");
        reveal_strlit("Properties");
        reveal_strlit("RelyingParty");
        reveal_strlit("TokenType");
        assert(top@[0].0@ == "Properties"@);
        assert(top@[1].0@ == "RelyingParty"@);
        assert("Properties"@.len() != "RelyingParty"@.len());
        assert("Properties"@.len() != "TokenType"@.len());
        assert("RelyingParty"@.len() != "TokenType"@.len());
        lemma_lookup_at(top@, 0, "Properties"@);
        lemma_lookup_at(top@, 1, "RelyingParty"@);
        lemma_lookup_at(top@, 2, "TokenType"@);
        assert(props@[0].0@ == "AuthMethod"@);
        assert(props@[1].0@ == "SiteName"@);
        assert("AuthMethod"@.len() != "SiteName"@.len());
        assert("AuthMethod"@.len() != "RpsTicket"@.len());
        assert("SiteName"@.len() != "RpsTicket"@.len());
        lemma_lookup_at(props@, 0, "AuthMethod"@);
        lemma_lookup_at(props@, 1, "SiteName"@);
        lemma_lookup_at(props@, 2, "RpsTicket"@);
    }
    r
}

/// XSTS authorization request for the Minecraft services, carrying the
/// Xbox Live user token.
pub fn xsts_request(xbox_token: &str) -> (r: Json)
    ensures
        members(r) == 3,
        members(get(r, "Properties"@)) == 2,
        is_text(get(get(r, "Properties"@), "SandboxId"@), "RETAIL"@),
        get(get(r, "Properties"@), "UserTokens"@) matches Json::Array(a) && a@.len() == 1 && is_text(a@[0], xbox_token@),
        is_text(get(r, "RelyingParty"@), "rp://api.minecraftservices.com/"@),
        is_text(get(r, "TokenType"@), "JWT"@),
{
    let mut tokens: Vec<Json> = Vec::new();
    tokens.push(text_value(xbox_token));
    let mut props: Vec<(String, Json)> = Vec::new();
    props.push(entry("SandboxId", text_value("RETAIL")));
    props.push(entry("UserTokens", Json::Array(tokens)));
    let mut top: Vec<(String, Json)> = Vec::new();
    top.push(entry("Properties", Json::Object(props)));
    top.push(entry("RelyingParty", text_value("rp://api.minecraftservices.com/")));
    top.push(entry("TokenType", text_value("JWT")));
    let r = Json::Object(top);
    proof {
        reveal_strlit("SandboxId");
        reveal_strlit("UserTokens");
        reveal_strlit("Properties");
        reveal_strlit("RelyingParty");
        reveal_strlit("TokenType");
        assert(top@[0].0@ == "Properties"@);
        assert(top@[1].0@ == "RelyingParty"@);
        assert("Properties"@.len() != "RelyingParty"@.len());
        assert("Properties"@.len() != "TokenType"@.len());
        assert("RelyingParty"@.len() != "TokenType"@.len());
        lemma_lookup_at(top@, 0, "Properties"@);
        lemma_lookup_at(top@, 1, "RelyingParty"@);
        lemma_lookup_at(top@, 2, "TokenType"@);
        assert(props@[0].0@ == "SandboxId"@);
        assert("SandboxId"@.len() != "UserTokens"@.len());
        lemma_lookup_at(props@, 0, "SandboxId"@);
        lemma_lookup_at(props@, 1, "UserTokens"@);
    }
    r
}

/// Minecraft login request: the identity token built from the Xbox user
/// hash and XSTS token.
pub fn minecraft_login_request(xbox: &XboxLiveData) -> (r: Json)
    ensures
        members(r) == 1,
        is_text(get(r, "identityToken"@), "XBL3.0 x="@ + xbox.hash_view() + ";"@ + xbox.token_view()),
{
    let mut t = text::chars_of("XBL3.0 x=");
    text::push_str(&mut t, xbox.user_hash.as_str());
    text::push_str(&mut t, ";");
    text::push_str(&mut t, xbox.xsts_token.as_str());
    let mut top: Vec<(String, Json)> = Vec::new();
    top.push(entry("identityToken", Json::Str(text::string_of(&t))));
    Json::Object(top)
}

impl XboxLiveData {
    pub closed spec fn hash_view(self) -> Seq<char> {
        self.user_hash@
    }

    pub closed spec fn token_view(self) -> Seq<char> {
        self.xsts_token@
    }
}

pub open spec fn xbox_user_spec(resp: Json) -> Result<(Seq<char>, Seq<char>), Seq<char>> {
    match required_spec(resp, "Token"@, "Xbox response has no token."@) {
        Err(e) => Err(e),
        Ok(t) => match as_str(get(at(get(get(resp, "DisplayClaims"@), "xui"@), 0), "uhs"@)) {
            None => Err("Xbox response has no user hash."@),
            Some(h) => Ok((t, h)),
        },
    }
}

/// The Xbox Live answer: its user token and the user hash of the first
/// claim.
pub fn xbox_user_from(resp: &Json) -> (r: Result<(String, String), String>)
    ensures
        match r {
            Ok((t, h)) => xbox_user_spec(*resp) == Ok::<(Seq<char>, Seq<char>), Seq<char>>((t@, h@)),
            Err(e) => xbox_user_spec(*resp) == Err::<(Seq<char>, Seq<char>), Seq<char>>(e@),
        },
{
    let token = match required(resp, "Token", "Xbox response has no token.") {
        Ok(t) => t,
        Err(e) => {
            return Err(e);
        },
    };
    match resp.get("DisplayClaims").get("xui").at(0).get("uhs").as_str() {
        None => Err("Xbox response has no user hash.".to_string()),
        Some(h) => Ok((token, h.clone())),
    }
}

/// The XSTS answer: its token, kept with the user hash.
pub fn xsts_from(resp: &Json, user_hash: String) -> (r: Result<XboxLiveData, String>)
    ensures
        match r {
            Ok(x) => required_spec(*resp, "Token"@, "Xbox XSTS response has no token."@) == Ok::<Seq<char>, Seq<char>>(x.token_view())
                && x.hash_view() == user_hash@,
            Err(e) => required_spec(*resp, "Token"@, "Xbox XSTS response has no token."@) == Err::<Seq<char>, Seq<char>>(e@),
        },
{
    match required(resp, "Token", "Xbox XSTS response has no token.") {
        Ok(t) => Ok(XboxLiveData { user_hash, xsts_token: t }),
        Err(e) => Err(e),
    }
}

/// The Minecraft access token of a login answer.
pub fn minecraft_token_from(resp: &Json) -> (r: Result<String, String>)
    ensures
        match r {
            Ok(t) => required_spec(*resp, "access_token"@, "Minecraft response has no token."@) == Ok::<Seq<char>, Seq<char>>(t@),
            Err(e) => required_spec(*resp, "access_token"@, "Minecraft response has no token."@) == Err::<Seq<char>, Seq<char>>(e@),
        },
{
    required(resp, "access_token", "Minecraft response has no token.")
}

pub open spec fn profile_spec(resp: Json) -> Result<(Seq<char>, Seq<char>), Seq<char>> {
    match required_spec(resp, "id"@, "Minecraft profile has no id."@) {
        Err(e) => Err(e),
        Ok(id) => match required_spec(resp, "name"@, "Minecraft profile has no name."@) {
            Err(e) => Err(e),
            Ok(name) => Ok((id, name)),
        },
    }
}

/// The account of a profile answer, signed in with `token`.
pub fn account_from_profile(resp: &Json, token: String) -> (r: Result<MinecraftAccount, String>)
    ensures
        match r {
            Ok(a) => profile_spec(*resp) == Ok::<(Seq<char>, Seq<char>), Seq<char>>((a.uuid@, a.username@)) && a.token@ == token@,
            Err(e) => profile_spec(*resp) == Err::<(Seq<char>, Seq<char>), Seq<char>>(e@),
        },
{
    let uuid = match required(resp, "id", "Minecraft profile has no id.") {
        Ok(u) => u,
        Err(e) => {
            return Err(e);
        },
    };
    let username = match required(resp, "name", "Minecraft profile has no name.") {
        Ok(u) => u,
        Err(e) => {
            return Err(e);
        },
    };
    Ok(MinecraftAccount { username, token, uuid })
}

} // verus!
