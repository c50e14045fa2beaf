//! Phira account data: the launcher's persisted settings, login / logout,
//! and the `data.json` document written into every installed version.

use vstd::prelude::*;

use vstd::string::*;

use crate::json::{json_view, lemma_last_member_step, member, JsonValue, JsonView};
use crate::path::FsPath;
use crate::size::{decimal, push_decimal};

verus! {

/// Phira API base URL.
pub const API_URL: &'static str = "https://phira.5wyxi.com";

/// Default multiplayer server address.
pub const DEFAULT_MP_ADDRESS: &'static str = "mp2.phira.cn:12345";

/// The address of the login endpoint.
pub fn login_url() -> (r: String)
    ensures
        r@ == API_URL@ + "/login"@,
{
    let mut s = String::from_str(API_URL);
    s.append("/login");
    s
}

/// The address of the profile endpoint.
pub fn me_url() -> (r: String)
    ensures
        r@ == API_URL@ + "/me"@,
{
    let mut s = String::from_str(API_URL);
    s.append("/me");
    s
}

/// Why a login was refused, as shown to the user: the server's `error` text
/// when the refusal carried one, otherwise the HTTP status alone.
pub fn login_failure_message(status: &str, server_error: Option<&str>) -> (r: String)
    ensures
        r@ == match server_error {
            Some(e) => "登录失败 ("@ + status@ + "): "@ + e@,
            None => "登录失败，状态码 "@ + status@,
        },
{
    match server_error {
        Some(e) => {
            let mut s = String::from_str("登录失败 (");
            s.append(status);
            s.append("): ");
            s.append(e);
            s
        },
        None => {
            let mut s = String::from_str("登录失败，状态码 ");
            s.append(status);
            s
        },
    }
}

/// Names what member `key` of the JSON text `body` holds when it is a
/// string, as `serde_json` reads it (none when the text is not JSON, is not
/// an object, or the member is missing or not a string).
pub uninterp spec fn spec_json_str_member(body: Seq<char>, key: Seq<char>) -> Option<Seq<char>>;

/// Parses `body` with `serde_json::from_str` into a `serde_json::Value`
/// and reads member `key` with `Value::get`, keeping it when it is a string.
/// The contract claims only that the result is the named member, the same
/// for the same text and key.
#[verifier::external_body]
fn json_str_member(body: &str, key: &str) -> (r: Option<String>)
    ensures
        r matches Some(e) ==> spec_json_str_member(body@, key@) == Some(e@),
        r is None ==> spec_json_str_member(body@, key@) is None,
{
    match serde_json::from_str::<serde_json::Value>(body) {
        Ok(v) => match v.get(key) {
            Some(serde_json::Value::String(s)) => Some(s.clone()),
            _ => None,
        },
        Err(_) => None,
    }
}

/// The `error` text that the body of a refused login carries, if any.
pub fn error_field(body: &str) -> (r: Option<String>)
    ensures
        r matches Some(e) ==> spec_json_str_member(body@, "error"@) == Some(e@),
        r is None ==> spec_json_str_member(body@, "error"@) is None,
{
    json_str_member(body, "error")
}

/// Why a login was refused, from the HTTP status and the body of the
/// refusal.
pub fn login_failure_from_body(status: &str, body: &str) -> (r: String)
    ensures
        r@ == match spec_json_str_member(body@, "error"@) {
            Some(e) => "登录失败 ("@ + status@ + "): "@ + e,
            None => "登录失败，状态码 "@ + status@,
        },
{
    let e = error_field(body);
    match e {
        Some(s) => login_failure_message(status, Some(s.as_str())),
        None => login_failure_message(status, None),
    }
}

/// Why the profile could not be fetched after a login, given the HTTP
/// status.
pub fn profile_failure_message(status: &str) -> (r: String)
    ensures
        r@ == "获取用户信息失败，状态码 "@ + status@,
{
    let mut s = String::from_str("获取用户信息失败，状态码 ");
    s.append(status);
    s
}

/// What the launcher reports after a successful login, given how writing
/// the document into the installed versions went: how many versions
/// received it, or why it failed.
pub fn login_sync_message(synced: Result<usize, String>) -> (r: String)
    ensures
        r@ == match synced {
            Ok(n) => "✅ 登录成功！已同步到 "@ + decimal(n as nat) + " 个版本"@,
            Err(e) => "⚠️ 登录成功，但同步失败: "@ + e@,
        },
{
    match synced {
        Ok(n) => {
            let mut s = String::from_str("✅ 登录成功！已同步到 ");
            push_decimal(&mut s, n as u128);
            s.append(" 个版本");
            s
        },
        Err(e) => {
            let mut s = String::from_str("⚠️ 登录成功，但同步失败: ");
            s.append(e.as_str());
            s
        },
    }
}

/// What the launcher reports after the user asked to write the document
/// into every installed version: how many received it, or why it failed.
pub fn sync_message(synced: Result<usize, String>) -> (r: String)
    ensures
        r@ == match synced {
            Ok(n) => "已同步到 "@ + decimal(n as nat) + " 个版本目录"@,
            Err(e) => "同步失败: "@ + e@,
        },
{
    match synced {
        Ok(n) => {
            let mut s = String::from_str("已同步到 ");
            push_decimal(&mut s, n as u128);
            s.append(" 个版本目录");
            s
        },
        Err(e) => {
            let mut s = String::from_str("同步失败: ");
            s.append(e.as_str());
            s
        },
    }
}

/// Where the launcher keeps its own data below the base directory.
pub fn launcher_data_file(base_dir: &FsPath) -> (r: FsPath)
    ensures
        r@ == base_dir@.push("data"@).push("data.json"@),
{
    base_dir.join("data").join("data.json")
}

/// Where the synced document goes in an installed version's directory.
pub fn synced_data_file(version_dir: &FsPath) -> (r: FsPath)
    ensures
        r@ == version_dir@.push("data"@).push("data.json"@),
{
    version_dir.join("data").join("data.json")
}

/// A logged-in Phira user profile. The rating is a 32-bit float, held as its
/// bit pattern.
#[derive(Clone)]
pub struct User {
    pub id: i32,
    pub name: String,
    pub email: String,
    pub avatar: Option<String>,
    pub rks_bits: u32,
    pub badge: Option<String>,
    pub language: Option<String>,
    pub bio: Option<String>,
    pub exp: i64,
    pub roles: i32,
    pub joined: Option<String>,
    pub last_login: Option<String>,
}

/// Token pair returned by the login endpoint.
#[derive(Clone)]
pub struct Tokens {
    pub token: String,
    pub refresh_token: String,
}

/// The launcher's persisted auth + settings data. The player's rating is a
/// 32-bit float, held as its bit pattern.
#[derive(Clone)]
pub struct LauncherData {
    pub me: Option<User>,
    pub tokens: Option<Tokens>,
    pub mp_address: String,
    pub mp_enabled: bool,
    pub language: String,
    pub theme: i32,
    pub player_name: String,
    pub player_rks_bits: u32,
}

impl Default for LauncherData {
    fn default() -> (r: Self)
        ensures
            r.me is None,
            r.tokens is None,
            r.mp_address@ == DEFAULT_MP_ADDRESS@,
            !r.mp_enabled,
            r.language@ == "zh-CN"@,
            r.theme == 0,
            r.player_name@ == Seq::<char>::empty(),
            r.player_rks_bits == 0,
    {
        LauncherData {
            me: None,
            tokens: None,
            mp_address: DEFAULT_MP_ADDRESS.to_owned(),
            mp_enabled: false,
            language: "zh-CN".to_owned(),
            theme: 0,
            player_name: String::new(),
            player_rks_bits: 0,
        }
    }
}

impl LauncherData {
    /// Logged in: both the profile and the tokens are present.
    pub fn is_logged_in(&self) -> (r: bool)
        ensures
            r == (self.me is Some && self.tokens is Some),
    {
        self.me.is_some() && self.tokens.is_some()
    }

    /// The avatar to show: the profile's avatar address, when logged in with
    /// a profile that has a non-empty one.
    pub fn avatar_url(&self) -> (r: Option<String>)
        ensures
            match r {
                Some(u) => self.me matches Some(m) && m.avatar matches Some(a) && a@ == u@
                    && u@.len() > 0,
                None => !(self.me matches Some(m) && m.avatar matches Some(a) && a@.len() > 0),
            },
    {
        match &self.me {
            Some(m) => match &m.avatar {
                Some(a) => if a.as_str().is_empty() {
                    None
                } else {
                    Some(a.clone())
                },
                None => None,
            },
            None => None,
        }
    }

    /// Forgets the account: profile, tokens, player name and rating; the
    /// multiplayer and display settings stay.
    pub fn logout(&mut self)
        ensures
            final(self).me is None,
            final(self).tokens is None,
            final(self).player_name@ == Seq::<char>::empty(),
            final(self).player_rks_bits == 0,
            final(self).mp_address == old(self).mp_address,
            final(self).mp_enabled == old(self).mp_enabled,
            final(self).language == old(self).language,
            final(self).theme == old(self).theme,
    {
        self.me = None;
        self.tokens = None;
        self.player_name = String::new();
        self.player_rks_bits = 0;
    }

    /// The data after a successful login: the profile and tokens are stored
    /// and the player's name and rating taken from the profile.
    pub fn with_login(self, user: User, tokens: Tokens) -> (r: LauncherData)
        ensures
            r.me == Some(user),
            r.tokens == Some(tokens),
            r.player_name == user.name,
            r.player_rks_bits == user.rks_bits,
            r.mp_address == self.mp_address,
            r.mp_enabled == self.mp_enabled,
            r.language == self.language,
            r.theme == self.theme,
    {
        let player_name = user.name.clone();
        let player_rks_bits = user.rks_bits;
        LauncherData {
            me: Some(user),
            tokens: Some(tokens),
            player_name,
            player_rks_bits,
            ..self
        }
    }
}

/// State of an in-flight login request.
#[derive(Clone)]
pub enum LoginState {
    Idle,
    Loading,
    Success,
    Failed(String),
}

/// How a login attempt ends: on success the new data to save and
/// `Success`; on failure the message, and no data.
pub fn login_outcome(data: LauncherData, result: Result<(User, Tokens), String>) -> (r: (
    LoginState,
    Option<LauncherData>,
))
    ensures
        match result {
            Ok((u, t)) => r.0 is Success && (r.1 matches Some(d) && d.me == Some(u) && d.tokens
                == Some(t) && d.player_name == u.name && d.player_rks_bits == u.rks_bits
                && d.mp_address == data.mp_address && d.mp_enabled == data.mp_enabled
                && d.language == data.language && d.theme == data.theme),
            Err(e) => r.0 == LoginState::Failed(e) && r.1 is None,
        },
{
    match result {
        Ok((user, tokens)) => (LoginState::Success, Some(data.with_login(user, tokens))),
        Err(e) => (LoginState::Failed(e), None),
    }
}

// ---------------------------------------------------------------------------
// The data.json document
// ---------------------------------------------------------------------------

/// The bits of the 32-bit float 1.0.
pub open spec fn one_bits() -> u32 {
    0x3f80_0000
}

/// An optional string as JSON: the string, or null.
pub open spec fn opt_str_view(s: Option<String>) -> JsonView {
    match s {
        Some(x) => JsonView::Str(x@),
        None => JsonView::Null,
    }
}

/// A profile as JSON: one member per field, in field order.
pub open spec fn user_view(u: User) -> JsonView {
    JsonView::Object(
        seq![
            ("id"@, JsonView::Int(u.id as i64)),
            ("name"@, JsonView::Str(u.name@)),
            ("email"@, JsonView::Str(u.email@)),
            ("avatar"@, opt_str_view(u.avatar)),
            ("rks"@, JsonView::Real(u.rks_bits)),
            ("badge"@, opt_str_view(u.badge)),
            ("language"@, opt_str_view(u.language)),
            ("bio"@, opt_str_view(u.bio)),
            ("exp"@, JsonView::Int(u.exp)),
            ("roles"@, JsonView::Int(u.roles as i64)),
            ("joined"@, opt_str_view(u.joined)),
            ("last_login"@, opt_str_view(u.last_login)),
        ],
    )
}

/// The game configuration written for every version; the multiplayer
/// server and the player's name and rating come from the launcher data.
pub open spec fn config_view(data: LauncherData) -> JsonView {
    JsonView::Object(
        seq![
            ("adjust_time_new"@, JsonView::Bool(false)),
            ("aggressive"@, JsonView::Bool(true)),
            ("apFcIndicator"@, JsonView::Bool(true)),
            ("fullScreenJudge"@, JsonView::Bool(false)),
            ("comboTextDebug"@, JsonView::Bool(false)),
            ("customComboText"@, JsonView::Str("COMBO"@)),
            ("customWatermark"@, JsonView::Str("phirLte"@)),
            ("aspectRatio"@, JsonView::Null),
            ("audioBufferSize"@, JsonView::Null),
            ("chartDebug"@, JsonView::Bool(false)),
            ("romanNumerals"@, JsonView::Bool(false)),
            ("chineseNumerals"@, JsonView::Bool(false)),
            ("autoplayDisplayText"@, JsonView::Str("Autoplay"@)),
            ("disableEffect"@, JsonView::Bool(false)),
            ("doubleClickToPause"@, JsonView::Bool(true)),
            ("doubleHint"@, JsonView::Bool(true)),
            ("fullscreenMode"@, JsonView::Bool(false)),
            ("fxaa"@, JsonView::Bool(false)),
            ("interactive"@, JsonView::Bool(true)),
            ("mods"@, JsonView::Str(""@)),
            ("mpAddress"@, JsonView::Str(data.mp_address@)),
            ("mpEnabled"@, JsonView::Bool(data.mp_enabled)),
            ("noteScale"@, JsonView::Real(one_bits())),
            ("offlineMode"@, JsonView::Bool(false)),
            ("offset"@, JsonView::Real(0)),
            ("particle"@, JsonView::Bool(true)),
            ("playerName"@, JsonView::Str(data.player_name@)),
            ("playerRks"@, JsonView::Real(data.player_rks_bits)),
            ("preferredSampleRate"@, JsonView::Null),
            ("resPackPath"@, JsonView::Null),
            ("sampleCount"@, JsonView::Int(1)),
            ("showAcc"@, JsonView::Bool(false)),
            ("showAvgFps"@, JsonView::Bool(false)),
            ("speed"@, JsonView::Real(one_bits())),
            ("touchDebug"@, JsonView::Bool(false)),
            ("useKeyboard"@, JsonView::Bool(false)),
            ("volumeBgm"@, JsonView::Real(one_bits())),
            ("volumeMusic"@, JsonView::Real(one_bits())),
            ("volumeSfx"@, JsonView::Real(one_bits())),
            ("autoplay"@, JsonView::Null),
        ],
    )
}

/// The character profile written for every version.
pub open spec fn character_view() -> JsonView {
    JsonView::Object(
        seq![
            ("id"@, JsonView::Str("shee"@)),
            ("name"@, JsonView::Str("夕"@)),
            ("intro"@, JsonView::Str(CHARACTER_INTRO@)),
            ("illust"@, JsonView::Str("@"@)),
            ("artist"@, JsonView::Str("清水QR"@)),
            ("designer"@, JsonView::Str("清水QR"@)),
            ("name_size"@, JsonView::Null),
            ("baseline"@, JsonView::Bool(false)),
            (
                "illu_adjust"@,
                JsonView::Array(
                    seq![
                        JsonView::Real(0),
                        JsonView::Real(0),
                        JsonView::Real(0),
                        JsonView::Real(0),
                    ],
                ),
            ),
        ],
    )
}

/// The character's introduction text.
pub const CHARACTER_INTRO: &'static str = "自断壁残垣中传来的歌声，被繁复乐章所萦绕的，韵律的形状。仿佛奇迹本身，无法用一切已知定律刻画的谜之少女。\n来自未来，却让人觉着似乎是某种与世间本质关联、恒久的存在。无妨，一切无形和有形的附着已随少女的记忆模糊淡去，不见所踪。\n翩翩然如禽羽的她，在声乐交织的梦中，看见的又是什么呢？";

/// The `data.json` document for a version: the profile, the configuration,
/// language and theme from the launcher data; tokens are never written.
pub open spec fn phira_doc(data: LauncherData) -> JsonView {
    JsonView::Object(
        seq![
            ("me"@, match data.me {
                Some(u) => user_view(u),
                None => JsonView::Null,
            }),
            ("charts"@, JsonView::Array(Seq::empty())),
            ("local_records"@, JsonView::Object(Seq::empty())),
            ("config"@, config_view(data)),
            ("message_check_time"@, JsonView::Null),
            ("language"@, JsonView::Str(data.language@)),
            ("theme"@, JsonView::Int(data.theme as i64)),
            ("tokens"@, JsonView::Null),
            ("respacks"@, JsonView::Array(Seq::empty())),
            ("respack_id"@, JsonView::Int(0)),
            ("accept_invalid_cert"@, JsonView::Bool(false)),
            ("read_tos_and_policy"@, JsonView::Bool(false)),
            ("terms_modified"@, JsonView::Str("Thu, 05 Dec 2024 09:24:29 GMT"@)),
            ("ignored_version"@, JsonView::Null),
            ("character"@, character_view()),
            ("enable_anys"@, JsonView::Bool(false)),
            ("anys_gateway"@, JsonView::Str(""@)),
            ("prefer_reduced_motion"@, JsonView::Bool(false)),
            ("custom_bgm_path"@, JsonView::Null),
            ("collections"@, JsonView::Array(Seq::empty())),
            (
                "collection_uuids"@,
                JsonView::Array(seq![JsonView::Str("7c7063c8-8e9d-4bd8-8a40-7b0754989264"@)]),
            ),
            ("import_scan_retry"@, JsonView::Object(Seq::empty())),
        ],
    )
}

/// The members of an object, as views.
pub open spec fn members_view(m: Seq<(String, JsonValue)>) -> Seq<(Seq<char>, JsonView)> {
    Seq::new(m.len(), |i: int| (m[i].0@, json_view(m[i].1)))
}

proof fn lemma_object_view(m: Vec<(String, JsonValue)>)
    ensures
        json_view(JsonValue::Object(m)) == JsonView::Object(members_view(m@)),
{
    let j = json_view(JsonValue::Object(m));
    assert(j is Object);
    assert(j->Object_0 =~= members_view(m@));
}

proof fn lemma_array_view(v: Vec<JsonValue>)
    ensures
        json_view(JsonValue::Array(v)) == JsonView::Array(
            Seq::new(v@.len(), |i: int| json_view(v@[i])),
        ),
{
    let j = json_view(JsonValue::Array(v));
    assert(j is Array);
    assert(j->Array_0 =~= Seq::new(v@.len(), |i: int| json_view(v@[i])));
}

fn put(m: &mut Vec<(String, JsonValue)>, key: &str, value: JsonValue)
    ensures
        members_view(final(m)@) == members_view(old(m)@).push((key@, json_view(value))),
{
    let ghost v = json_view(value);
    m.push((key.to_owned(), value));
    assert(members_view(final(m)@) =~= members_view(old(m)@).push((key@, v)));
}

fn text(s: &str) -> (r: JsonValue)
    ensures
        json_view(r) == JsonView::Str(s@),
{
    JsonValue::Str(s.to_owned())
}

fn opt_text(s: &Option<String>) -> (r: JsonValue)
    ensures
        json_view(r) == opt_str_view(*s),
{
    match s {
        Some(x) => JsonValue::Str(x.clone()),
        None => JsonValue::Null,
    }
}

fn empty_array() -> (r: JsonValue)
    ensures
        json_view(r) == JsonView::Array(Seq::empty()),
{
    let v: Vec<JsonValue> = Vec::new();
    proof {
        lemma_array_view(v);
    }
    let r = JsonValue::Array(v);
    assert(v@.len() == 0);
    assert(json_view(r) == JsonView::Array(Seq::new(v@.len(), |i: int| json_view(v@[i]))));
    assert(Seq::new(v@.len(), |i: int| json_view(v@[i])) =~= Seq::<JsonView>::empty());
    r
}

fn empty_object() -> (r: JsonValue)
    ensures
        json_view(r) == JsonView::Object(Seq::empty()),
{
    let m: Vec<(String, JsonValue)> = Vec::new();
    proof {
        lemma_object_view(m);
    }
    assert(members_view(m@) =~= Seq::empty());
    JsonValue::Object(m)
}

/// A profile as a JSON object: one member per field, in field order.
pub fn user_json(u: &User) -> (r: JsonValue)
    ensures
        json_view(r) == user_view(*u),
{
    let mut m: Vec<(String, JsonValue)> = Vec::new();
    put(&mut m, "id", JsonValue::Int(u.id as i64));
    put(&mut m, "name", JsonValue::Str(u.name.clone()));
    put(&mut m, "email", JsonValue::Str(u.email.clone()));
    put(&mut m, "avatar", opt_text(&u.avatar));
    put(&mut m, "rks", JsonValue::Real(u.rks_bits));
    put(&mut m, "badge", opt_text(&u.badge));
    put(&mut m, "language", opt_text(&u.language));
    put(&mut m, "bio", opt_text(&u.bio));
    put(&mut m, "exp", JsonValue::Int(u.exp));
    put(&mut m, "roles", JsonValue::Int(u.roles as i64));
    put(&mut m, "joined", opt_text(&u.joined));
    put(&mut m, "last_login", opt_text(&u.last_login));
    proof {
        lemma_object_view(m);
    }
    assert(members_view(m@) =~= match user_view(*u) {
        JsonView::Object(s) => s,
        _ => Seq::empty(),
    });
    JsonValue::Object(m)
}

fn config_json(data: &LauncherData) -> (r: JsonValue)
    ensures
        json_view(r) == config_view(*data),
{
    let one: u32 = 0x3f80_0000;
    let mut m: Vec<(String, JsonValue)> = Vec::new();
    put(&mut m, "adjust_time_new", JsonValue::Bool(false));
    put(&mut m, "aggressive", JsonValue::Bool(true));
    put(&mut m, "apFcIndicator", JsonValue::Bool(true));
    put(&mut m, "fullScreenJudge", JsonValue::Bool(false));
    put(&mut m, "comboTextDebug", JsonValue::Bool(false));
    put(&mut m, "customComboText", text("COMBO"));
    put(&mut m, "customWatermark", text("phirLte"));
    put(&mut m, "aspectRatio", JsonValue::Null);
    put(&mut m, "audioBufferSize", JsonValue::Null);
    put(&mut m, "chartDebug", JsonValue::Bool(false));
    put(&mut m, "romanNumerals", JsonValue::Bool(false));
    put(&mut m, "chineseNumerals", JsonValue::Bool(false));
    put(&mut m, "autoplayDisplayText", text("Autoplay"));
    put(&mut m, "disableEffect", JsonValue::Bool(false));
    put(&mut m, "doubleClickToPause", JsonValue::Bool(true));
    put(&mut m, "doubleHint", JsonValue::Bool(true));
    put(&mut m, "fullscreenMode", JsonValue::Bool(false));
    put(&mut m, "fxaa", JsonValue::Bool(false));
    put(&mut m, "interactive", JsonValue::Bool(true));
    put(&mut m, "mods", text(""));
    put(&mut m, "mpAddress", JsonValue::Str(data.mp_address.clone()));
    put(&mut m, "mpEnabled", JsonValue::Bool(data.mp_enabled));
    put(&mut m, "noteScale", JsonValue::Real(one));
    put(&mut m, "offlineMode", JsonValue::Bool(false));
    put(&mut m, "offset", JsonValue::Real(0));
    put(&mut m, "particle", JsonValue::Bool(true));
    put(&mut m, "playerName", JsonValue::Str(data.player_name.clone()));
    put(&mut m, "playerRks", JsonValue::Real(data.player_rks_bits));
    put(&mut m, "preferredSampleRate", JsonValue::Null);
    put(&mut m, "resPackPath", JsonValue::Null);
    put(&mut m, "sampleCount", JsonValue::Int(1));
    put(&mut m, "showAcc", JsonValue::Bool(false));
    put(&mut m, "showAvgFps", JsonValue::Bool(false));
    put(&mut m, "speed", JsonValue::Real(one));
    put(&mut m, "touchDebug", JsonValue::Bool(false));
    put(&mut m, "useKeyboard", JsonValue::Bool(false));
    put(&mut m, "volumeBgm", JsonValue::Real(one));
    put(&mut m, "volumeMusic", JsonValue::Real(one));
    put(&mut m, "volumeSfx", JsonValue::Real(one));
    put(&mut m, "autoplay", JsonValue::Null);
    proof {
        lemma_object_view(m);
    }
    assert(members_view(m@) =~= match config_view(*data) {
        JsonView::Object(s) => s,
        _ => Seq::empty(),
    });
    JsonValue::Object(m)
}

fn character_json() -> (r: JsonValue)
    ensures
        json_view(r) == character_view(),
{
    let mut adjust: Vec<JsonValue> = Vec::new();
    adjust.push(JsonValue::Real(0));
    adjust.push(JsonValue::Real(0));
    adjust.push(JsonValue::Real(0));
    adjust.push(JsonValue::Real(0));
    proof {
        lemma_array_view(adjust);
    }
    assert(json_view(JsonValue::Real(0)) == JsonView::Real(0));
    assert(Seq::new(adjust@.len(), |i: int| json_view(adjust@[i])) =~= seq![
        JsonView::Real(0),
        JsonView::Real(0),
        JsonView::Real(0),
        JsonView::Real(0),
    ]);
    let adjust_value = JsonValue::Array(adjust);
    let mut m: Vec<(String, JsonValue)> = Vec::new();
    put(&mut m, "id", text("shee"));
    put(&mut m, "name", text("夕"));
    put(&mut m, "intro", text(CHARACTER_INTRO));
    put(&mut m, "illust", text("@"));
    put(&mut m, "artist", text("清水QR"));
    put(&mut m, "designer", text("清水QR"));
    put(&mut m, "name_size", JsonValue::Null);
    put(&mut m, "baseline", JsonValue::Bool(false));
    put(&mut m, "illu_adjust", adjust_value);
    proof {
        lemma_object_view(m);
    }
    assert(members_view(m@) =~= match character_view() {
        JsonView::Object(s) => s,
        _ => Seq::empty(),
    });
    JsonValue::Object(m)
}

/// Builds the `data.json` document written into every installed version.
pub fn build_phira_data_json(data: &LauncherData) -> (r: JsonValue)
    ensures
        json_view(r) == phira_doc(*data),
{
    let me = match &data.me {
        Some(u) => user_json(u),
        None => JsonValue::Null,
    };
    let mut uuids: Vec<JsonValue> = Vec::new();
    uuids.push(text("7c7063c8-8e9d-4bd8-8a40-7b0754989264"));
    proof {
        lemma_array_view(uuids);
    }
    assert(Seq::new(uuids@.len(), |i: int| json_view(uuids@[i])) =~= seq![
        JsonView::Str("7c7063c8-8e9d-4bd8-8a40-7b0754989264"@),
    ]);
    let uuids_value = JsonValue::Array(uuids);
    let mut m: Vec<(String, JsonValue)> = Vec::new();
    put(&mut m, "me", me);
    put(&mut m, "charts", empty_array());
    put(&mut m, "local_records", empty_object());
    put(&mut m, "config", config_json(data));
    put(&mut m, "message_check_time", JsonValue::Null);
    put(&mut m, "language", JsonValue::Str(data.language.clone()));
    put(&mut m, "theme", JsonValue::Int(data.theme as i64));
    put(&mut m, "tokens", JsonValue::Null);
    put(&mut m, "respacks", empty_array());
    put(&mut m, "respack_id", JsonValue::Int(0));
    put(&mut m, "accept_invalid_cert", JsonValue::Bool(false));
    put(&mut m, "read_tos_and_policy", JsonValue::Bool(false));
    put(&mut m, "terms_modified", text("Thu, 05 Dec 2024 09:24:29 GMT"));
    put(&mut m, "ignored_version", JsonValue::Null);
    put(&mut m, "character", character_json());
    put(&mut m, "enable_anys", JsonValue::Bool(false));
    put(&mut m, "anys_gateway", text(""));
    put(&mut m, "prefer_reduced_motion", JsonValue::Bool(false));
    put(&mut m, "custom_bgm_path", JsonValue::Null);
    put(&mut m, "collections", empty_array());
    put(&mut m, "collection_uuids", uuids_value);
    put(&mut m, "import_scan_retry", empty_object());
    proof {
        lemma_object_view(m);
    }
    assert(members_view(m@) =~= match phira_doc(*data) {
        JsonView::Object(s) => s,
        _ => Seq::empty(),
    });
    JsonValue::Object(m)
}

/// The tokens never reach a version's `data.json`: two launcher data that
/// differ only in their tokens give the same document, whose `tokens`
/// member is null.
pub proof fn lemma_doc_ignores_tokens(a: LauncherData, b: LauncherData)
    requires
        a.me == b.me,
        a.mp_address == b.mp_address,
        a.mp_enabled == b.mp_enabled,
        a.language == b.language,
        a.theme == b.theme,
        a.player_name == b.player_name,
        a.player_rks_bits == b.player_rks_bits,
    ensures
        phira_doc(a) == phira_doc(b),
        phira_doc(a)->Object_0[7] == ("tokens"@, JsonView::Null),
{
}

/// The configuration's `mpAddress` member.
proof fn lemma_config_mp_address(d: LauncherData)
    ensures
        member(config_view(d), "mpAddress"@) == Some(JsonView::Str(d.mp_address@)),
{
    let ms = config_view(d)->Object_0;
    let key = "mpAddress"@;
    reveal_strlit("mpAddress");
    reveal_strlit("mpEnabled");
    reveal_strlit("noteScale");
    reveal_strlit("offlineMode");
    reveal_strlit("offset");
    reveal_strlit("particle");
    reveal_strlit("playerName");
    reveal_strlit("playerRks");
    reveal_strlit("preferredSampleRate");
    reveal_strlit("resPackPath");
    reveal_strlit("sampleCount");
    reveal_strlit("showAcc");
    reveal_strlit("showAvgFps");
    reveal_strlit("speed");
    reveal_strlit("touchDebug");
    reveal_strlit("useKeyboard");
    reveal_strlit("volumeBgm");
    reveal_strlit("volumeMusic");
    reveal_strlit("volumeSfx");
    reveal_strlit("autoplay");
    assert(ms.len() == 40);
    assert(ms.subrange(0, 40) =~= ms);
    assert(ms[39].0 == "autoplay"@);
    assert(ms[39].0 != key);
    lemma_last_member_step(ms, key, 39);
    assert(ms[38].0 == "volumeSfx"@);
    assert(ms[38].0[0] != key[0]);
    assert(ms[38].0 != key);
    lemma_last_member_step(ms, key, 38);
    assert(ms[37].0 == "volumeMusic"@);
    assert(ms[37].0 != key);
    lemma_last_member_step(ms, key, 37);
    assert(ms[36].0 == "volumeBgm"@);
    assert(ms[36].0[0] != key[0]);
    assert(ms[36].0 != key);
    lemma_last_member_step(ms, key, 36);
    assert(ms[35].0 == "useKeyboard"@);
    assert(ms[35].0 != key);
    lemma_last_member_step(ms, key, 35);
    assert(ms[34].0 == "touchDebug"@);
    assert(ms[34].0 != key);
    lemma_last_member_step(ms, key, 34);
    assert(ms[33].0 == "speed"@);
    assert(ms[33].0 != key);
    lemma_last_member_step(ms, key, 33);
    assert(ms[32].0 == "showAvgFps"@);
    assert(ms[32].0 != key);
    lemma_last_member_step(ms, key, 32);
    assert(ms[31].0 == "showAcc"@);
    assert(ms[31].0 != key);
    lemma_last_member_step(ms, key, 31);
    assert(ms[30].0 == "sampleCount"@);
    assert(ms[30].0 != key);
    lemma_last_member_step(ms, key, 30);
    assert(ms[29].0 == "resPackPath"@);
    assert(ms[29].0 != key);
    lemma_last_member_step(ms, key, 29);
    assert(ms[28].0 == "preferredSampleRate"@);
    assert(ms[28].0 != key);
    lemma_last_member_step(ms, key, 28);
    assert(ms[27].0 == "playerRks"@);
    assert(ms[27].0[0] != key[0]);
    assert(ms[27].0 != key);
    lemma_last_member_step(ms, key, 27);
    assert(ms[26].0 == "playerName"@);
    assert(ms[26].0 != key);
    lemma_last_member_step(ms, key, 26);
    assert(ms[25].0 == "particle"@);
    assert(ms[25].0 != key);
    lemma_last_member_step(ms, key, 25);
    assert(ms[24].0 == "offset"@);
    assert(ms[24].0 != key);
    lemma_last_member_step(ms, key, 24);
    assert(ms[23].0 == "offlineMode"@);
    assert(ms[23].0 != key);
    lemma_last_member_step(ms, key, 23);
    assert(ms[22].0 == "noteScale"@);
    assert(ms[22].0[0] != key[0]);
    assert(ms[22].0 != key);
    lemma_last_member_step(ms, key, 22);
    assert(ms[21].0 == "mpEnabled"@);
    assert(ms[21].0[2] != key[2]);
    assert(ms[21].0 != key);
    lemma_last_member_step(ms, key, 21);
    lemma_last_member_step(ms, key, 20);
}

/// The configuration's `mpEnabled` member.
proof fn lemma_config_mp_enabled(d: LauncherData)
    ensures
        member(config_view(d), "mpEnabled"@) == Some(JsonView::Bool(d.mp_enabled)),
{
    let ms = config_view(d)->Object_0;
    let key = "mpEnabled"@;
    reveal_strlit("mpEnabled");
    reveal_strlit("noteScale");
    reveal_strlit("offlineMode");
    reveal_strlit("offset");
    reveal_strlit("particle");
    reveal_strlit("playerName");
    reveal_strlit("playerRks");
    reveal_strlit("preferredSampleRate");
    reveal_strlit("resPackPath");
    reveal_strlit("sampleCount");
    reveal_strlit("showAcc");
    reveal_strlit("showAvgFps");
    reveal_strlit("speed");
    reveal_strlit("touchDebug");
    reveal_strlit("useKeyboard");
    reveal_strlit("volumeBgm");
    reveal_strlit("volumeMusic");
    reveal_strlit("volumeSfx");
    reveal_strlit("autoplay");
    assert(ms.len() == 40);
    assert(ms.subrange(0, 40) =~= ms);
    assert(ms[39].0 == "autoplay"@);
    assert(ms[39].0 != key);
    lemma_last_member_step(ms, key, 39);
    assert(ms[38].0 == "volumeSfx"@);
    assert(ms[38].0[0] != key[0]);
    assert(ms[38].0 != key);
    lemma_last_member_step(ms, key, 38);
    assert(ms[37].0 == "volumeMusic"@);
    assert(ms[37].0 != key);
    lemma_last_member_step(ms, key, 37);
    assert(ms[36].0 == "volumeBgm"@);
    assert(ms[36].0[0] != key[0]);
    assert(ms[36].0 != key);
    lemma_last_member_step(ms, key, 36);
    assert(ms[35].0 == "useKeyboard"@);
    assert(ms[35].0 != key);
    lemma_last_member_step(ms, key, 35);
    assert(ms[34].0 == "touchDebug"@);
    assert(ms[34].0 != key);
    lemma_last_member_step(ms, key, 34);
    assert(ms[33].0 == "speed"@);
    assert(ms[33].0 != key);
    lemma_last_member_step(ms, key, 33);
    assert(ms[32].0 == "showAvgFps"@);
    assert(ms[32].0 != key);
    lemma_last_member_step(ms, key, 32);
    assert(ms[31].0 == "showAcc"@);
    assert(ms[31].0 != key);
    lemma_last_member_step(ms, key, 31);
    assert(ms[30].0 == "sampleCount"@);
    assert(ms[30].0 != key);
    lemma_last_member_step(ms, key, 30);
    assert(ms[29].0 == "resPackPath"@);
    assert(ms[29].0 != key);
    lemma_last_member_step(ms, key, 29);
    assert(ms[28].0 == "preferredSampleRate"@);
    assert(ms[28].0 != key);
    lemma_last_member_step(ms, key, 28);
    assert(ms[27].0 == "playerRks"@);
    assert(ms[27].0[0] != key[0]);
    assert(ms[27].0 != key);
    lemma_last_member_step(ms, key, 27);
    assert(ms[26].0 == "playerName"@);
    assert(ms[26].0 != key);
    lemma_last_member_step(ms, key, 26);
    assert(ms[25].0 == "particle"@);
    assert(ms[25].0 != key);
    lemma_last_member_step(ms, key, 25);
    assert(ms[24].0 == "offset"@);
    assert(ms[24].0 != key);
    lemma_last_member_step(ms, key, 24);
    assert(ms[23].0 == "offlineMode"@);
    assert(ms[23].0 != key);
    lemma_last_member_step(ms, key, 23);
    assert(ms[22].0 == "noteScale"@);
    assert(ms[22].0[0] != key[0]);
    assert(ms[22].0 != key);
    lemma_last_member_step(ms, key, 22);
    lemma_last_member_step(ms, key, 21);
}

/// The configuration's `playerName` member.
proof fn lemma_config_player_name(d: LauncherData)
    ensures
        member(config_view(d), "playerName"@) == Some(JsonView::Str(d.player_name@)),
{
    let ms = config_view(d)->Object_0;
    let key = "playerName"@;
    reveal_strlit("playerName");
    reveal_strlit("playerRks");
    reveal_strlit("preferredSampleRate");
    reveal_strlit("resPackPath");
    reveal_strlit("sampleCount");
    reveal_strlit("showAcc");
    reveal_strlit("showAvgFps");
    reveal_strlit("speed");
    reveal_strlit("touchDebug");
    reveal_strlit("useKeyboard");
    reveal_strlit("volumeBgm");
    reveal_strlit("volumeMusic");
    reveal_strlit("volumeSfx");
    reveal_strlit("autoplay");
    assert(ms.len() == 40);
    assert(ms.subrange(0, 40) =~= ms);
    assert(ms[39].0 == "autoplay"@);
    assert(ms[39].0 != key);
    lemma_last_member_step(ms, key, 39);
    assert(ms[38].0 == "volumeSfx"@);
    assert(ms[38].0 != key);
    lemma_last_member_step(ms, key, 38);
    assert(ms[37].0 == "volumeMusic"@);
    assert(ms[37].0 != key);
    lemma_last_member_step(ms, key, 37);
    assert(ms[36].0 == "volumeBgm"@);
    assert(ms[36].0 != key);
    lemma_last_member_step(ms, key, 36);
    assert(ms[35].0 == "useKeyboard"@);
    assert(ms[35].0 != key);
    lemma_last_member_step(ms, key, 35);
    assert(ms[34].0 == "touchDebug"@);
    assert(ms[34].0[0] != key[0]);
    assert(ms[34].0 != key);
    lemma_last_member_step(ms, key, 34);
    assert(ms[33].0 == "speed"@);
    assert(ms[33].0 != key);
    lemma_last_member_step(ms, key, 33);
    assert(ms[32].0 == "showAvgFps"@);
    assert(ms[32].0[0] != key[0]);
    assert(ms[32].0 != key);
    lemma_last_member_step(ms, key, 32);
    assert(ms[31].0 == "showAcc"@);
    assert(ms[31].0 != key);
    lemma_last_member_step(ms, key, 31);
    assert(ms[30].0 == "sampleCount"@);
    assert(ms[30].0 != key);
    lemma_last_member_step(ms, key, 30);
    assert(ms[29].0 == "resPackPath"@);
    assert(ms[29].0 != key);
    lemma_last_member_step(ms, key, 29);
    assert(ms[28].0 == "preferredSampleRate"@);
    assert(ms[28].0 != key);
    lemma_last_member_step(ms, key, 28);
    assert(ms[27].0 == "playerRks"@);
    assert(ms[27].0 != key);
    lemma_last_member_step(ms, key, 27);
    lemma_last_member_step(ms, key, 26);
}

/// The configuration's `playerRks` member.
proof fn lemma_config_player_rks(d: LauncherData)
    ensures
        member(config_view(d), "playerRks"@) == Some(JsonView::Real(d.player_rks_bits)),
{
    let ms = config_view(d)->Object_0;
    let key = "playerRks"@;
    reveal_strlit("playerRks");
    reveal_strlit("preferredSampleRate");
    reveal_strlit("resPackPath");
    reveal_strlit("sampleCount");
    reveal_strlit("showAcc");
    reveal_strlit("showAvgFps");
    reveal_strlit("speed");
    reveal_strlit("touchDebug");
    reveal_strlit("useKeyboard");
    reveal_strlit("volumeBgm");
    reveal_strlit("volumeMusic");
    reveal_strlit("volumeSfx");
    reveal_strlit("autoplay");
    assert(ms.len() == 40);
    assert(ms.subrange(0, 40) =~= ms);
    assert(ms[39].0 == "autoplay"@);
    assert(ms[39].0 != key);
    lemma_last_member_step(ms, key, 39);
    assert(ms[38].0 == "volumeSfx"@);
    assert(ms[38].0[0] != key[0]);
    assert(ms[38].0 != key);
    lemma_last_member_step(ms, key, 38);
    assert(ms[37].0 == "volumeMusic"@);
    assert(ms[37].0 != key);
    lemma_last_member_step(ms, key, 37);
    assert(ms[36].0 == "volumeBgm"@);
    assert(ms[36].0[0] != key[0]);
    assert(ms[36].0 != key);
    lemma_last_member_step(ms, key, 36);
    assert(ms[35].0 == "useKeyboard"@);
    assert(ms[35].0 != key);
    lemma_last_member_step(ms, key, 35);
    assert(ms[34].0 == "touchDebug"@);
    assert(ms[34].0 != key);
    lemma_last_member_step(ms, key, 34);
    assert(ms[33].0 == "speed"@);
    assert(ms[33].0 != key);
    lemma_last_member_step(ms, key, 33);
    assert(ms[32].0 == "showAvgFps"@);
    assert(ms[32].0 != key);
    lemma_last_member_step(ms, key, 32);
    assert(ms[31].0 == "showAcc"@);
    assert(ms[31].0 != key);
    lemma_last_member_step(ms, key, 31);
    assert(ms[30].0 == "sampleCount"@);
    assert(ms[30].0 != key);
    lemma_last_member_step(ms, key, 30);
    assert(ms[29].0 == "resPackPath"@);
    assert(ms[29].0 != key);
    lemma_last_member_step(ms, key, 29);
    assert(ms[28].0 == "preferredSampleRate"@);
    assert(ms[28].0 != key);
    lemma_last_member_step(ms, key, 28);
    lemma_last_member_step(ms, key, 27);
}

/// The document's `config` member.
proof fn lemma_doc_config(d: LauncherData)
    ensures
        member(phira_doc(d), "config"@) == Some(config_view(d)),
{
    let ms = phira_doc(d)->Object_0;
    let key = "config"@;
    reveal_strlit("config");
    reveal_strlit("message_check_time");
    reveal_strlit("language");
    reveal_strlit("theme");
    reveal_strlit("tokens");
    reveal_strlit("respacks");
    reveal_strlit("respack_id");
    reveal_strlit("accept_invalid_cert");
    reveal_strlit("read_tos_and_policy");
    reveal_strlit("terms_modified");
    reveal_strlit("ignored_version");
    reveal_strlit("character");
    reveal_strlit("enable_anys");
    reveal_strlit("anys_gateway");
    reveal_strlit("prefer_reduced_motion");
    reveal_strlit("custom_bgm_path");
    reveal_strlit("collections");
    reveal_strlit("collection_uuids");
    reveal_strlit("import_scan_retry");
    assert(ms.len() == 22);
    assert(ms.subrange(0, 22) =~= ms);
    assert(ms[21].0 == "import_scan_retry"@);
    assert(ms[21].0 != key);
    lemma_last_member_step(ms, key, 21);
    assert(ms[20].0 == "collection_uuids"@);
    assert(ms[20].0 != key);
    lemma_last_member_step(ms, key, 20);
    assert(ms[19].0 == "collections"@);
    assert(ms[19].0 != key);
    lemma_last_member_step(ms, key, 19);
    assert(ms[18].0 == "custom_bgm_path"@);
    assert(ms[18].0 != key);
    lemma_last_member_step(ms, key, 18);
    assert(ms[17].0 == "prefer_reduced_motion"@);
    assert(ms[17].0 != key);
    lemma_last_member_step(ms, key, 17);
    assert(ms[16].0 == "anys_gateway"@);
    assert(ms[16].0 != key);
    lemma_last_member_step(ms, key, 16);
    assert(ms[15].0 == "enable_anys"@);
    assert(ms[15].0 != key);
    lemma_last_member_step(ms, key, 15);
    assert(ms[14].0 == "character"@);
    assert(ms[14].0 != key);
    lemma_last_member_step(ms, key, 14);
    assert(ms[13].0 == "ignored_version"@);
    assert(ms[13].0 != key);
    lemma_last_member_step(ms, key, 13);
    assert(ms[12].0 == "terms_modified"@);
    assert(ms[12].0 != key);
    lemma_last_member_step(ms, key, 12);
    assert(ms[11].0 == "read_tos_and_policy"@);
    assert(ms[11].0 != key);
    lemma_last_member_step(ms, key, 11);
    assert(ms[10].0 == "accept_invalid_cert"@);
    assert(ms[10].0 != key);
    lemma_last_member_step(ms, key, 10);
    assert(ms[9].0 == "respack_id"@);
    assert(ms[9].0 != key);
    lemma_last_member_step(ms, key, 9);
    assert(ms[8].0 == "respacks"@);
    assert(ms[8].0 != key);
    lemma_last_member_step(ms, key, 8);
    assert(ms[7].0 == "tokens"@);
    assert(ms[7].0[0] != key[0]);
    assert(ms[7].0 != key);
    lemma_last_member_step(ms, key, 7);
    assert(ms[6].0 == "theme"@);
    assert(ms[6].0 != key);
    lemma_last_member_step(ms, key, 6);
    assert(ms[5].0 == "language"@);
    assert(ms[5].0 != key);
    lemma_last_member_step(ms, key, 5);
    assert(ms[4].0 == "message_check_time"@);
    assert(ms[4].0 != key);
    lemma_last_member_step(ms, key, 4);
    lemma_last_member_step(ms, key, 3);
}

/// The document's `language` member.
proof fn lemma_doc_language(d: LauncherData)
    ensures
        member(phira_doc(d), "language"@) == Some(JsonView::Str(d.language@)),
{
    let ms = phira_doc(d)->Object_0;
    let key = "language"@;
    reveal_strlit("language");
    reveal_strlit("theme");
    reveal_strlit("tokens");
    reveal_strlit("respacks");
    reveal_strlit("respack_id");
    reveal_strlit("accept_invalid_cert");
    reveal_strlit("read_tos_and_policy");
    reveal_strlit("terms_modified");
    reveal_strlit("ignored_version");
    reveal_strlit("character");
    reveal_strlit("enable_anys");
    reveal_strlit("anys_gateway");
    reveal_strlit("prefer_reduced_motion");
    reveal_strlit("custom_bgm_path");
    reveal_strlit("collections");
    reveal_strlit("collection_uuids");
    reveal_strlit("import_scan_retry");
    assert(ms.len() == 22);
    assert(ms.subrange(0, 22) =~= ms);
    assert(ms[21].0 == "import_scan_retry"@);
    assert(ms[21].0 != key);
    lemma_last_member_step(ms, key, 21);
    assert(ms[20].0 == "collection_uuids"@);
    assert(ms[20].0 != key);
    lemma_last_member_step(ms, key, 20);
    assert(ms[19].0 == "collections"@);
    assert(ms[19].0 != key);
    lemma_last_member_step(ms, key, 19);
    assert(ms[18].0 == "custom_bgm_path"@);
    assert(ms[18].0 != key);
    lemma_last_member_step(ms, key, 18);
    assert(ms[17].0 == "prefer_reduced_motion"@);
    assert(ms[17].0 != key);
    lemma_last_member_step(ms, key, 17);
    assert(ms[16].0 == "anys_gateway"@);
    assert(ms[16].0 != key);
    lemma_last_member_step(ms, key, 16);
    assert(ms[15].0 == "enable_anys"@);
    assert(ms[15].0 != key);
    lemma_last_member_step(ms, key, 15);
    assert(ms[14].0 == "character"@);
    assert(ms[14].0 != key);
    lemma_last_member_step(ms, key, 14);
    assert(ms[13].0 == "ignored_version"@);
    assert(ms[13].0 != key);
    lemma_last_member_step(ms, key, 13);
    assert(ms[12].0 == "terms_modified"@);
    assert(ms[12].0 != key);
    lemma_last_member_step(ms, key, 12);
    assert(ms[11].0 == "read_tos_and_policy"@);
    assert(ms[11].0 != key);
    lemma_last_member_step(ms, key, 11);
    assert(ms[10].0 == "accept_invalid_cert"@);
    assert(ms[10].0 != key);
    lemma_last_member_step(ms, key, 10);
    assert(ms[9].0 == "respack_id"@);
    assert(ms[9].0 != key);
    lemma_last_member_step(ms, key, 9);
    assert(ms[8].0 == "respacks"@);
    assert(ms[8].0[0] != key[0]);
    assert(ms[8].0 != key);
    lemma_last_member_step(ms, key, 8);
    assert(ms[7].0 == "tokens"@);
    assert(ms[7].0 != key);
    lemma_last_member_step(ms, key, 7);
    assert(ms[6].0 == "theme"@);
    assert(ms[6].0 != key);
    lemma_last_member_step(ms, key, 6);
    lemma_last_member_step(ms, key, 5);
}

/// The document's `theme` member.
proof fn lemma_doc_theme(d: LauncherData)
    ensures
        member(phira_doc(d), "theme"@) == Some(JsonView::Int(d.theme as i64)),
{
    let ms = phira_doc(d)->Object_0;
    let key = "theme"@;
    reveal_strlit("theme");
    reveal_strlit("tokens");
    reveal_strlit("respacks");
    reveal_strlit("respack_id");
    reveal_strlit("accept_invalid_cert");
    reveal_strlit("read_tos_and_policy");
    reveal_strlit("terms_modified");
    reveal_strlit("ignored_version");
    reveal_strlit("character");
    reveal_strlit("enable_anys");
    reveal_strlit("anys_gateway");
    reveal_strlit("prefer_reduced_motion");
    reveal_strlit("custom_bgm_path");
    reveal_strlit("collections");
    reveal_strlit("collection_uuids");
    reveal_strlit("import_scan_retry");
    assert(ms.len() == 22);
    assert(ms.subrange(0, 22) =~= ms);
    assert(ms[21].0 == "import_scan_retry"@);
    assert(ms[21].0 != key);
    lemma_last_member_step(ms, key, 21);
    assert(ms[20].0 == "collection_uuids"@);
    assert(ms[20].0 != key);
    lemma_last_member_step(ms, key, 20);
    assert(ms[19].0 == "collections"@);
    assert(ms[19].0 != key);
    lemma_last_member_step(ms, key, 19);
    assert(ms[18].0 == "custom_bgm_path"@);
    assert(ms[18].0 != key);
    lemma_last_member_step(ms, key, 18);
    assert(ms[17].0 == "prefer_reduced_motion"@);
    assert(ms[17].0 != key);
    lemma_last_member_step(ms, key, 17);
    assert(ms[16].0 == "anys_gateway"@);
    assert(ms[16].0 != key);
    lemma_last_member_step(ms, key, 16);
    assert(ms[15].0 == "enable_anys"@);
    assert(ms[15].0 != key);
    lemma_last_member_step(ms, key, 15);
    assert(ms[14].0 == "character"@);
    assert(ms[14].0 != key);
    lemma_last_member_step(ms, key, 14);
    assert(ms[13].0 == "ignored_version"@);
    assert(ms[13].0 != key);
    lemma_last_member_step(ms, key, 13);
    assert(ms[12].0 == "terms_modified"@);
    assert(ms[12].0 != key);
    lemma_last_member_step(ms, key, 12);
    assert(ms[11].0 == "read_tos_and_policy"@);
    assert(ms[11].0 != key);
    lemma_last_member_step(ms, key, 11);
    assert(ms[10].0 == "accept_invalid_cert"@);
    assert(ms[10].0 != key);
    lemma_last_member_step(ms, key, 10);
    assert(ms[9].0 == "respack_id"@);
    assert(ms[9].0 != key);
    lemma_last_member_step(ms, key, 9);
    assert(ms[8].0 == "respacks"@);
    assert(ms[8].0 != key);
    lemma_last_member_step(ms, key, 8);
    assert(ms[7].0 == "tokens"@);
    assert(ms[7].0 != key);
    lemma_last_member_step(ms, key, 7);
    lemma_last_member_step(ms, key, 6);
}

/// The document's `tokens` member.
proof fn lemma_doc_tokens(d: LauncherData)
    ensures
        member(phira_doc(d), "tokens"@) == Some(JsonView::Null),
{
    let ms = phira_doc(d)->Object_0;
    let key = "tokens"@;
    reveal_strlit("tokens");
    reveal_strlit("respacks");
    reveal_strlit("respack_id");
    reveal_strlit("accept_invalid_cert");
    reveal_strlit("read_tos_and_policy");
    reveal_strlit("terms_modified");
    reveal_strlit("ignored_version");
    reveal_strlit("character");
    reveal_strlit("enable_anys");
    reveal_strlit("anys_gateway");
    reveal_strlit("prefer_reduced_motion");
    reveal_strlit("custom_bgm_path");
    reveal_strlit("collections");
    reveal_strlit("collection_uuids");
    reveal_strlit("import_scan_retry");
    assert(ms.len() == 22);
    assert(ms.subrange(0, 22) =~= ms);
    assert(ms[21].0 == "import_scan_retry"@);
    assert(ms[21].0 != key);
    lemma_last_member_step(ms, key, 21);
    assert(ms[20].0 == "collection_uuids"@);
    assert(ms[20].0 != key);
    lemma_last_member_step(ms, key, 20);
    assert(ms[19].0 == "collections"@);
    assert(ms[19].0 != key);
    lemma_last_member_step(ms, key, 19);
    assert(ms[18].0 == "custom_bgm_path"@);
    assert(ms[18].0 != key);
    lemma_last_member_step(ms, key, 18);
    assert(ms[17].0 == "prefer_reduced_motion"@);
    assert(ms[17].0 != key);
    lemma_last_member_step(ms, key, 17);
    assert(ms[16].0 == "anys_gateway"@);
    assert(ms[16].0 != key);
    lemma_last_member_step(ms, key, 16);
    assert(ms[15].0 == "enable_anys"@);
    assert(ms[15].0 != key);
    lemma_last_member_step(ms, key, 15);
    assert(ms[14].0 == "character"@);
    assert(ms[14].0 != key);
    lemma_last_member_step(ms, key, 14);
    assert(ms[13].0 == "ignored_version"@);
    assert(ms[13].0 != key);
    lemma_last_member_step(ms, key, 13);
    assert(ms[12].0 == "terms_modified"@);
    assert(ms[12].0 != key);
    lemma_last_member_step(ms, key, 12);
    assert(ms[11].0 == "read_tos_and_policy"@);
    assert(ms[11].0 != key);
    lemma_last_member_step(ms, key, 11);
    assert(ms[10].0 == "accept_invalid_cert"@);
    assert(ms[10].0 != key);
    lemma_last_member_step(ms, key, 10);
    assert(ms[9].0 == "respack_id"@);
    assert(ms[9].0 != key);
    lemma_last_member_step(ms, key, 9);
    assert(ms[8].0 == "respacks"@);
    assert(ms[8].0 != key);
    lemma_last_member_step(ms, key, 8);
    lemma_last_member_step(ms, key, 7);
}

/// The document's `me` member.
proof fn lemma_doc_me(d: LauncherData)
    ensures
        member(phira_doc(d), "me"@) == Some(match d.me { Some(u) => user_view(u), None => JsonView::Null }),
{
    let ms = phira_doc(d)->Object_0;
    let key = "me"@;
    reveal_strlit("me");
    reveal_strlit("charts");
    reveal_strlit("local_records");
    reveal_strlit("config");
    reveal_strlit("message_check_time");
    reveal_strlit("language");
    reveal_strlit("theme");
    reveal_strlit("tokens");
    reveal_strlit("respacks");
    reveal_strlit("respack_id");
    reveal_strlit("accept_invalid_cert");
    reveal_strlit("read_tos_and_policy");
    reveal_strlit("terms_modified");
    reveal_strlit("ignored_version");
    reveal_strlit("character");
    reveal_strlit("enable_anys");
    reveal_strlit("anys_gateway");
    reveal_strlit("prefer_reduced_motion");
    reveal_strlit("custom_bgm_path");
    reveal_strlit("collections");
    reveal_strlit("collection_uuids");
    reveal_strlit("import_scan_retry");
    assert(ms.len() == 22);
    assert(ms.subrange(0, 22) =~= ms);
    assert(ms[21].0 == "import_scan_retry"@);
    assert(ms[21].0 != key);
    lemma_last_member_step(ms, key, 21);
    assert(ms[20].0 == "collection_uuids"@);
    assert(ms[20].0 != key);
    lemma_last_member_step(ms, key, 20);
    assert(ms[19].0 == "collections"@);
    assert(ms[19].0 != key);
    lemma_last_member_step(ms, key, 19);
    assert(ms[18].0 == "custom_bgm_path"@);
    assert(ms[18].0 != key);
    lemma_last_member_step(ms, key, 18);
    assert(ms[17].0 == "prefer_reduced_motion"@);
    assert(ms[17].0 != key);
    lemma_last_member_step(ms, key, 17);
    assert(ms[16].0 == "anys_gateway"@);
    assert(ms[16].0 != key);
    lemma_last_member_step(ms, key, 16);
    assert(ms[15].0 == "enable_anys"@);
    assert(ms[15].0 != key);
    lemma_last_member_step(ms, key, 15);
    assert(ms[14].0 == "character"@);
    assert(ms[14].0 != key);
    lemma_last_member_step(ms, key, 14);
    assert(ms[13].0 == "ignored_version"@);
    assert(ms[13].0 != key);
    lemma_last_member_step(ms, key, 13);
    assert(ms[12].0 == "terms_modified"@);
    assert(ms[12].0 != key);
    lemma_last_member_step(ms, key, 12);
    assert(ms[11].0 == "read_tos_and_policy"@);
    assert(ms[11].0 != key);
    lemma_last_member_step(ms, key, 11);
    assert(ms[10].0 == "accept_invalid_cert"@);
    assert(ms[10].0 != key);
    lemma_last_member_step(ms, key, 10);
    assert(ms[9].0 == "respack_id"@);
    assert(ms[9].0 != key);
    lemma_last_member_step(ms, key, 9);
    assert(ms[8].0 == "respacks"@);
    assert(ms[8].0 != key);
    lemma_last_member_step(ms, key, 8);
    assert(ms[7].0 == "tokens"@);
    assert(ms[7].0 != key);
    lemma_last_member_step(ms, key, 7);
    assert(ms[6].0 == "theme"@);
    assert(ms[6].0 != key);
    lemma_last_member_step(ms, key, 6);
    assert(ms[5].0 == "language"@);
    assert(ms[5].0 != key);
    lemma_last_member_step(ms, key, 5);
    assert(ms[4].0 == "message_check_time"@);
    assert(ms[4].0 != key);
    lemma_last_member_step(ms, key, 4);
    assert(ms[3].0 == "config"@);
    assert(ms[3].0 != key);
    lemma_last_member_step(ms, key, 3);
    assert(ms[2].0 == "local_records"@);
    assert(ms[2].0 != key);
    lemma_last_member_step(ms, key, 2);
    assert(ms[1].0 == "charts"@);
    assert(ms[1].0 != key);
    lemma_last_member_step(ms, key, 1);
    lemma_last_member_step(ms, key, 0);
}

/// The synced document carries the user's own settings, as a reader of the
/// document finds them by name: the multiplayer switch and address, the
/// player's name and rating in the configuration; the language and theme;
/// the profile (null when logged out); and never the tokens.
pub proof fn lemma_doc_reflects_settings(d: LauncherData)
    ensures
        member(phira_doc(d), "config"@) == Some(config_view(d)),
        member(config_view(d), "mpEnabled"@) == Some(JsonView::Bool(d.mp_enabled)),
        member(config_view(d), "mpAddress"@) == Some(JsonView::Str(d.mp_address@)),
        member(config_view(d), "playerName"@) == Some(JsonView::Str(d.player_name@)),
        member(config_view(d), "playerRks"@) == Some(JsonView::Real(d.player_rks_bits)),
        member(phira_doc(d), "language"@) == Some(JsonView::Str(d.language@)),
        member(phira_doc(d), "theme"@) == Some(JsonView::Int(d.theme as i64)),
        member(phira_doc(d), "tokens"@) == Some(JsonView::Null),
        d.me is None ==> member(phira_doc(d), "me"@) == Some(JsonView::Null),
{
    lemma_doc_config(d);
    lemma_config_mp_enabled(d);
    lemma_config_mp_address(d);
    lemma_config_player_name(d);
    lemma_config_player_rks(d);
    lemma_doc_language(d);
    lemma_doc_theme(d);
    lemma_doc_tokens(d);
    lemma_doc_me(d);
}

} // verus!
