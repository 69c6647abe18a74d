//! The desktop settings kept in `token-monitor.json`: the saved profiles and
//! which one is active, the listening port, the model and upstream settings,
//! what the close button does, and the statistics window the front end asks
//! for.
use vstd::prelude::*;

use crate::json::{empty_obj, Json, JsonV};
use crate::proxy::{ProxyConfig, ProxyState};
use crate::respond::num;
use crate::text::{empty_string, push_str, str_eq, to_owned, trim_spec, trimmed};

verus! {

/// A saved upstream profile.
pub struct Profile {
    pub id: String,
    pub name: String,
    pub upstream_url: String,
    pub api_key: String,
    pub model_override: String,
    pub max_concurrency: usize,
}

/// A profile as values.
pub struct ProfileV {
    pub id: Seq<char>,
    pub name: Seq<char>,
    pub upstream_url: Seq<char>,
    pub api_key: Seq<char>,
    pub model_override: Seq<char>,
    pub max_concurrency: usize,
}

impl View for Profile {
    type V = ProfileV;

    open spec fn view(&self) -> ProfileV {
        ProfileV {
            id: self.id@,
            name: self.name@,
            upstream_url: self.upstream_url@,
            api_key: self.api_key@,
            model_override: self.model_override@,
            max_concurrency: self.max_concurrency,
        }
    }
}

impl Profile {
    /// A field-by-field copy.
    pub fn copy(&self) -> (r: Self)
        ensures
            r@ == self@,
    {
        Profile {
            id: self.id.clone(),
            name: self.name.clone(),
            upstream_url: self.upstream_url.clone(),
            api_key: self.api_key.clone(),
            model_override: self.model_override.clone(),
            max_concurrency: self.max_concurrency,
        }
    }
}

/// The views of a profile list.
pub open spec fn profiles_view(s: Seq<Profile>) -> Seq<ProfileV> {
    s.map_values(|p: Profile| p@)
}

/// `i` is the first profile with id `id`.
pub open spec fn first_with_id(s: Seq<ProfileV>, id: Seq<char>, i: int) -> bool {
    0 <= i < s.len() && s[i].id == id && forall|j: int| 0 <= j < i ==> #[trigger] s[j].id != id
}

/// The profile list after saving `p`: it replaces the first profile with its
/// id, or is appended.
pub open spec fn upsert_v(s: Seq<ProfileV>, p: ProfileV) -> Seq<ProfileV> {
    if exists|i: int| first_with_id(s, p.id, i) {
        s.update(choose|i: int| first_with_id(s, p.id, i), p)
    } else {
        s.push(p)
    }
}

/// The test "the profile's id is not `id`".
pub open spec fn other_id(id: Seq<char>) -> spec_fn(ProfileV) -> bool {
    |p: ProfileV| p.id != id
}

/// The profiles whose id is not `id`, in order.
pub open spec fn without_id(s: Seq<ProfileV>, id: Seq<char>) -> Seq<ProfileV> {
    s.filter(other_id(id))
}

/// The active profile after deleting `id`: the first remaining profile (or
/// none) where the active one was deleted, else unchanged.
pub open spec fn active_after_delete(rest: Seq<ProfileV>, active_id: Seq<char>, id: Seq<char>) -> Seq<
    char,
> {
    if active_id == id {
        if rest.len() > 0 {
            rest[0].id
        } else {
            Seq::empty()
        }
    } else {
        active_id
    }
}

proof fn lemma_first_with_id_unique(s: Seq<ProfileV>, id: Seq<char>, i: int)
    requires
        first_with_id(s, id, i),
    ensures
        (choose|j: int| first_with_id(s, id, j)) == i,
{
    let c = choose|j: int| first_with_id(s, id, j);
    assert(first_with_id(s, id, c));
    if c < i {
        assert(s[c].id != id);
    }
    if i < c {
        assert(s[i].id != id);
    }
}

/// The first profile with id `id`.
pub fn find_profile(profiles: &Vec<Profile>, id: &str) -> (r: Option<usize>)
    ensures
        match r {
            Some(i) => first_with_id(profiles_view(profiles@), id@, i as int),
            None => !exists|i: int| first_with_id(profiles_view(profiles@), id@, i),
        },
{
    let ghost pv = profiles_view(profiles@);
    let mut i: usize = 0;
    while i < profiles.len()
        invariant
            i <= profiles@.len(),
            pv == profiles_view(profiles@),
            forall|j: int| 0 <= j < i ==> #[trigger] pv[j].id != id@,
        decreases profiles@.len() - i,
    {
        if str_eq(profiles[i].id.as_str(), id) {
            return Some(i);
        }
        i = i + 1;
    }
    proof {
        assert forall|k: int| !first_with_id(pv, id@, k) by {
            if 0 <= k < pv.len() {
                assert(pv[k].id != id@);
            }
        }
    }
    None
}

/// `save_profile` on the list: the profile replaces the one with its id, or
/// is appended. Gives whether it is the active profile (which the caller
/// then applies to the running proxy).
pub fn save_profile(profiles: &mut Vec<Profile>, active_id: &str, profile: Profile) -> (is_active: bool)
    ensures
        is_active == (profile.id@ == active_id@),
        profiles_view(final(profiles)@) == upsert_v(profiles_view(old(profiles)@), profile@),
{
    let is_active = str_eq(profile.id.as_str(), active_id);
    let ghost pv = profiles_view(profiles@);
    let ghost p = profile@;
    match find_profile(profiles, profile.id.as_str()) {
        Some(i) => {
            proof {
                lemma_first_with_id_unique(pv, p.id, i as int);
            }
            profiles.set(i, profile);
            assert(profiles_view(profiles@) =~= pv.update(i as int, p));
        },
        None => {
            profiles.push(profile);
            assert(profiles_view(profiles@) =~= pv.push(p));
        },
    }
    is_active
}

/// `delete_profile` on the list: every profile with that id goes; gives the
/// new active id (the first remaining profile where the active one was
/// deleted, the empty id where none remains).
pub fn delete_profile(profiles: &mut Vec<Profile>, active_id: &str, id: &str) -> (new_active: String)
    ensures
        profiles_view(final(profiles)@) == without_id(profiles_view(old(profiles)@), id@),
        new_active@ == active_after_delete(
            without_id(profiles_view(old(profiles)@), id@),
            active_id@,
            id@,
        ),
{
    let ghost pv = profiles_view(profiles@);
    let mut kept: Vec<Profile> = Vec::new();
    let mut i: usize = 0;
    proof {
        reveal(Seq::filter);
        assert(pv.take(0).filter(other_id(id@)) =~= Seq::<ProfileV>::empty());
    }
    while i < profiles.len()
        invariant
            i <= profiles@.len(),
            pv == profiles_view(profiles@),
            profiles_view(kept@) == pv.take(i as int).filter(other_id(id@)),
        decreases profiles@.len() - i,
    {
        let ghost t = pv.take(i as int + 1);
        assert(t.drop_last() =~= pv.take(i as int));
        assert(t.last() == pv[i as int]);
        proof {
            pv.take(i as int).lemma_filter_push(pv[i as int], other_id(id@));
            assert(t =~= pv.take(i as int).push(pv[i as int]));
        }
        if !str_eq(profiles[i].id.as_str(), id) {
            kept.push(profiles[i].copy());
            assert(profiles_view(kept@) =~= pv.take(i as int + 1).filter(other_id(id@)));
        } else {
            assert(profiles_view(kept@) =~= pv.take(i as int + 1).filter(other_id(id@)));
        }
        i = i + 1;
    }
    assert(pv.take(pv.len() as int) =~= pv);
    let new_active = if str_eq(active_id, id) {
        if kept.len() > 0 {
            kept[0].id.clone()
        } else {
            empty_string()
        }
    } else {
        to_owned(active_id)
    };
    *profiles = kept;
    new_active
}

proof fn lemma_first_exists(s: Seq<ProfileV>, id: Seq<char>, j: int)
    requires
        0 <= j < s.len(),
        s[j].id == id,
    ensures
        exists|i: int| first_with_id(s, id, i),
    decreases j,
{
    if forall|k: int| 0 <= k < j ==> #[trigger] s[k].id != id {
        assert(first_with_id(s, id, j));
    } else {
        let k = choose|k: int| 0 <= k < j && #[trigger] s[k].id == id;
        lemma_first_exists(s, id, k);
    }
}

/// A saved profile is what a lookup of its id finds, and saving never
/// leaves a second profile with that id in front of it; the other profiles
/// are kept.
pub proof fn law_saved_profile_is_found(s: Seq<ProfileV>, p: ProfileV)
    ensures
        exists|i: int| first_with_id(upsert_v(s, p), p.id, i),
        upsert_v(s, p)[choose|i: int| first_with_id(upsert_v(s, p), p.id, i)] == p,
        upsert_v(s, p).len() == s.len() || upsert_v(s, p).len() == s.len() + 1,
        forall|j: int| 0 <= j < s.len() && s[j].id != p.id ==> #[trigger] upsert_v(s, p)[j] == s[j],
{
    let u = upsert_v(s, p);
    if exists|i: int| first_with_id(s, p.id, i) {
        let i = choose|i: int| first_with_id(s, p.id, i);
        assert(first_with_id(u, p.id, i));
        lemma_first_with_id_unique(u, p.id, i);
    } else {
        assert forall|j: int| 0 <= j < s.len() implies #[trigger] s[j].id != p.id by {
            if s[j].id == p.id {
                lemma_first_exists(s, p.id, j);
            }
        }
        assert(first_with_id(u, p.id, s.len() as int));
        lemma_first_with_id_unique(u, p.id, s.len() as int);
    }
}

/// After deleting an id no profile with that id is left, and every profile
/// with another id is kept.
pub proof fn law_deleted_profile_is_gone(s: Seq<ProfileV>, id: Seq<char>)
    ensures
        forall|j: int| 0 <= j < without_id(s, id).len() ==> #[trigger] without_id(s, id)[j].id != id,
        forall|j: int| 0 <= j < s.len() && s[j].id != id ==> without_id(s, id).contains(#[trigger] s[j]),
{
    assert forall|j: int| 0 <= j < without_id(s, id).len() implies #[trigger] without_id(s, id)[j].id
        != id by {
        s.lemma_filter_pred(other_id(id), j);
    }
    assert forall|j: int| 0 <= j < s.len() && s[j].id != id implies without_id(s, id).contains(
        #[trigger] s[j],
    ) by {
        s.lemma_filter_contains(other_id(id), j);
    }
}

/// `set_active_profile`'s lookup: the profile with that id, or the error.
pub fn active_profile(profiles: &Vec<Profile>, id: &str) -> (r: Result<usize, String>)
    ensures
        match r {
            Ok(i) => first_with_id(profiles_view(profiles@), id@, i as int),
            Err(e) => !(exists|i: int| first_with_id(profiles_view(profiles@), id@, i)) && e@
                == "配置文件不存在："@ + id@,
        },
{
    match find_profile(profiles, id) {
        Some(i) => Ok(i),
        None => {
            let mut m = to_owned("配置文件不存在：");
            push_str(&mut m, id);
            Err(m)
        },
    }
}

/// `apply_profile`: the profile's settings go live (its key only where it
/// has one).
pub fn apply_profile(state: &mut ProxyState, p: &Profile)
    ensures
        final(state).spec_config() == match old(state).spec_config() {
            Some(c) => Some(
                crate::proxy::updated_config(
                    c,
                    if p.api_key@.len() == 0 {
                        None
                    } else {
                        Some(p.api_key)
                    },
                    Some(p.model_override),
                    Some(p.upstream_url),
                    Some(p.max_concurrency),
                ),
            ),
            None => None,
        },
        final(state).spec_channels() == old(state).spec_channels(),
        final(state).spec_scheduler() == old(state).spec_scheduler(),
        final(state).spec_listening() == old(state).spec_listening(),
        final(state).spec_last_error() == old(state).spec_last_error(),
        final(state).wf() == old(state).wf(),
{
    let key = if p.api_key.unicode_len() == 0 {
        None
    } else {
        Some(p.api_key.clone())
    };
    crate::proxy::update_runtime(
        state,
        key,
        Some(p.model_override.clone()),
        Some(p.upstream_url.clone()),
        Some(p.max_concurrency),
    );
}

/// The startup overlay: where an active profile is named and exists, its
/// non-empty key, model and upstream replace the saved ones and its
/// concurrency is taken; gives whether it was applied.
pub fn overlay_active_profile(cfg: &mut ProxyConfig, profiles: &Vec<Profile>, active_id: &str) -> (applied: bool)
    ensures
        applied == (active_id@.len() > 0 && exists|i: int|
            first_with_id(profiles_view(profiles@), active_id@, i)),
        !applied ==> *final(cfg) == *old(cfg),
        applied ==> {
            let p = profiles_view(profiles@)[choose|i: int|
                first_with_id(profiles_view(profiles@), active_id@, i)];
            &&& final(cfg).api_key@ == (if p.api_key.len() > 0 {
                p.api_key
            } else {
                old(cfg).api_key@
            })
            &&& final(cfg).model_override@ == (if p.model_override.len() > 0 {
                p.model_override
            } else {
                old(cfg).model_override@
            })
            &&& final(cfg).upstream_url@ == (if p.upstream_url.len() > 0 {
                p.upstream_url
            } else {
                old(cfg).upstream_url@
            })
            &&& final(cfg).max_concurrency == p.max_concurrency
            &&& final(cfg).port == old(cfg).port
            &&& final(cfg).upstream_format == old(cfg).upstream_format
        },
{
    if active_id.unicode_len() == 0 {
        return false;
    }
    let ghost pv = profiles_view(profiles@);
    match find_profile(profiles, active_id) {
        Some(i) => {
            proof {
                lemma_first_with_id_unique(pv, active_id@, i as int);
            }
            let p = &profiles[i];
            assert(p@ == pv[i as int]);
            if p.api_key.unicode_len() > 0 {
                cfg.api_key = p.api_key.clone();
            }
            if p.model_override.unicode_len() > 0 {
                cfg.model_override = p.model_override.clone();
            }
            if p.upstream_url.unicode_len() > 0 {
                cfg.upstream_url = p.upstream_url.clone();
            }
            cfg.max_concurrency = p.max_concurrency;
            true
        },
        None => false,
    }
}

// ──────── saved settings ────────

/// The port used where none is saved.
pub const DEFAULT_PORT: u16 = 8188;

/// The concurrency used where none is saved.
pub const DEFAULT_MAX_CONCURRENCY: usize = 20;

/// The proxy port that a configuration file's value gives: `port` where it is a
/// number from 1 to 65535, else 8188.
pub open spec fn port_v(v: JsonV) -> u16 {
    match crate::json::opt_u64(v.get("port"@)) {
        Some(p) => if 0 < p && p <= 65535 {
            p as u16
        } else {
            DEFAULT_PORT
        },
        None => DEFAULT_PORT,
    }
}

/// The proxy port that a configuration file's value gives.
pub fn port_from_config(v: &Json) -> (r: u16)
    ensures
        r == port_v(v@),
{
    match v.get("port") {
        Some(p) => match p.as_u64() {
            Some(n) => if 0 < n && n <= 65535 {
                n as u16
            } else {
                DEFAULT_PORT
            },
            None => DEFAULT_PORT,
        },
        None => DEFAULT_PORT,
    }
}

/// A saved string setting of a configuration file's value: the string
/// member, trimmed (empty where missing or not a string).
pub fn saved_str(v: &Json, key: &str) -> (r: String)
    ensures
        r@ == trim_spec(v@.str_or(key@, Seq::empty())),
{
    match v.get_str(key) {
        Some(t) => trimmed(t),
        None => {
            proof {
                reveal_with_fuel(crate::text::trim_start_spec, 1);
                reveal_with_fuel(crate::text::trim_end_spec, 1);
            }
            assert(trim_spec(Seq::<char>::empty()) =~= Seq::<char>::empty());
            empty_string()
        },
    }
}

/// What `usize`'s `parse` accepts: an optional `+` and then decimal digits
/// whose value fits.
pub open spec fn parse_usize_v(t: Seq<char>) -> Option<usize> {
    let d = if t.len() > 0 && t[0] == '+' {
        t.drop_first()
    } else {
        t
    };
    if crate::json::all_digits(d) && crate::json::digits_value(d) <= usize::MAX {
        Some(crate::json::digits_value(d) as usize)
    } else {
        None
    }
}

/// `text.parse::<usize>().ok()`.
pub fn parse_usize(text: &str) -> (r: Option<usize>)
    ensures
        r == parse_usize_v(text@),
{
    let n = text.unicode_len();
    let digits = if n > 0 && text.get_char(0) == '+' {
        text.substring_char(1, n)
    } else {
        text
    };
    assert(n > 0 && text@[0] == '+' ==> digits@ =~= text@.drop_first());
    match crate::json::parse_digits(digits) {
        Some(v) => if v <= usize::MAX as u64 {
            Some(v as usize)
        } else {
            None
        },
        None => None,
    }
}

/// The saved concurrency: the saved text as a number, 20 where it is not one.
pub fn saved_max_concurrency(text: &str) -> (r: usize)
    ensures
        r == match parse_usize_v(text@) {
            Some(n) => n,
            None => DEFAULT_MAX_CONCURRENCY,
        },
{
    match parse_usize(text) {
        Some(n) => n,
        None => DEFAULT_MAX_CONCURRENCY,
    }
}

/// The API key found in the configuration files that could be read and
/// parsed, in search order: the first non-blank `api_key`, trimmed; empty
/// where none has one.
pub open spec fn first_api_key_v(files: Seq<JsonV>) -> Seq<char>
    decreases files.len(),
{
    if files.len() == 0 {
        Seq::empty()
    } else {
        match files[0].get_str("api_key"@) {
            Some(k) => if trim_spec(k).len() > 0 {
                trim_spec(k)
            } else {
                first_api_key_v(files.drop_first())
            },
            None => first_api_key_v(files.drop_first()),
        }
    }
}

/// The API key chosen among the parsed configuration files.
pub fn first_api_key(files: &Vec<Json>) -> (r: String)
    ensures
        r@ == first_api_key_v(files@.map_values(|j: Json| j@)),
{
    let ghost fv = files@.map_values(|j: Json| j@);
    let mut i: usize = 0;
    assert(fv.skip(0) =~= fv);
    while i < files.len()
        invariant
            i <= files@.len(),
            fv == files@.map_values(|j: Json| j@),
            first_api_key_v(fv) == first_api_key_v(fv.skip(i as int)),
        decreases files@.len() - i,
    {
        let ghost rest = fv.skip(i as int);
        assert(rest[0] == files@[i as int]@);
        assert(rest.drop_first() =~= fv.skip(i as int + 1));
        match files[i].get_str("api_key") {
            Some(k) => {
                let t = trimmed(k);
                if t.unicode_len() > 0 {
                    return t;
                }
            },
            None => {},
        }
        i = i + 1;
    }
    assert(fv.skip(i as int) =~= Seq::<JsonV>::empty());
    empty_string()
}

// ──────── the close button ────────

/// `get_close_action`: the saved action, `ask` where none is saved.
pub fn close_action_reply(saved: &str) -> (r: Json)
    ensures
        r@ == empty_obj().set(
            "action"@,
            JsonV::Str(
                if saved@.len() == 0 {
                    "ask"@
                } else {
                    saved@
                },
            ),
        ),
{
    let action = if saved.unicode_len() == 0 {
        "ask"
    } else {
        saved
    };
    let mut o = Json::object();
    o.set("action", Json::string(action));
    o
}

/// The actions the close button accepts.
pub open spec fn valid_close_action(a: Seq<char>) -> bool {
    a == "quit"@ || a == "minimize"@ || a == "ask"@
}

/// `set_close_action`'s check: an accepted action is answered with
/// `{"action": action}`; any other is refused.
pub fn check_close_action(action: &str) -> (r: Result<Json, String>)
    ensures
        match r {
            Ok(j) => valid_close_action(action@) && j@ == empty_obj().set(
                "action"@,
                JsonV::Str(action@),
            ),
            Err(e) => !valid_close_action(action@) && e@ == "无效值："@ + action@
                + "，可选 quit / minimize / ask"@,
        },
{
    if str_eq(action, "quit") || str_eq(action, "minimize") || str_eq(action, "ask") {
        let mut o = Json::object();
        o.set("action", Json::string(action));
        Ok(o)
    } else {
        let mut m = to_owned("无效值：");
        push_str(&mut m, action);
        push_str(&mut m, "，可选 quit / minimize / ask");
        Err(m)
    }
}

/// What the window does.
#[derive(PartialEq, Eq, Structural)]
pub enum CloseStep {
    /// Close and end the program.
    Quit,
    /// Hide the window (keep running in the tray).
    Hide,
    /// Keep the window and ask the front end.
    Ask,
}

/// A close request under the saved action: `quit` closes, `minimize`
/// hides, anything else asks.
pub fn close_requested_step(saved: &str) -> (r: CloseStep)
    ensures
        r == (if saved@ == "quit"@ {
            CloseStep::Quit
        } else if saved@ == "minimize"@ {
            CloseStep::Hide
        } else {
            CloseStep::Ask
        }),
{
    if str_eq(saved, "quit") {
        CloseStep::Quit
    } else if str_eq(saved, "minimize") {
        CloseStep::Hide
    } else {
        CloseStep::Ask
    }
}

/// The front end's answer to the close question.
pub struct CloseChoice {
    pub choice: String,
    pub remember: bool,
}

/// Reads the answer: `choice` (`minimize` where missing) and `remember`
/// (false where missing).
pub fn close_choice(payload: &Json) -> (r: CloseChoice)
    ensures
        r.choice@ == payload@.str_or("choice"@, "minimize"@),
        r.remember == match crate::json::opt_bool(payload@.get("remember"@)) {
            Some(b) => b,
            None => false,
        },
{
    let choice = to_owned(payload.str_or("choice", "minimize"));
    let remember = match payload.get("remember") {
        Some(x) => match x.as_bool() {
            Some(b) => b,
            None => false,
        },
        None => false,
    };
    CloseChoice { choice, remember }
}

/// What an answer does: `quit` ends the program, `minimize` hides the
/// window, anything else nothing.
pub fn choice_step(choice: &str) -> (r: Option<CloseStep>)
    ensures
        r == (if choice@ == "quit"@ {
            Some(CloseStep::Quit)
        } else if choice@ == "minimize"@ {
            Some(CloseStep::Hide)
        } else {
            None
        }),
{
    if str_eq(choice, "quit") {
        Some(CloseStep::Quit)
    } else if str_eq(choice, "minimize") {
        Some(CloseStep::Hide)
    } else {
        None
    }
}

// ──────── server settings ────────

/// The address clients use: `http://127.0.0.1:<port>/v1`.
pub open spec fn endpoint_v(port: u16) -> Seq<char> {
    "http://127.0.0.1:"@ + crate::text::decimal(port as nat) + "/v1"@
}

/// The address clients use.
pub fn endpoint(port: u16) -> (r: String)
    ensures
        r@ == endpoint_v(port),
{
    let mut e = to_owned("http://127.0.0.1:");
    push_str(&mut e, crate::text::u64_to_text(port as u64).as_str());
    push_str(&mut e, "/v1");
    e
}

/// `get_server_info`: the port, the endpoint, the three API paths and the
/// model override.
pub fn server_info(cfg: &ProxyConfig) -> (r: Json)
    ensures
        r@ == empty_obj().set("port"@, num(cfg.port as u64)).set(
            "endpoint"@,
            JsonV::Str(endpoint_v(cfg.port)),
        ).set(
            "endpoints"@,
            JsonV::Array(
                seq![
                    JsonV::Str("/v1/chat/completions"@),
                    JsonV::Str("/v1/responses"@),
                    JsonV::Str("/v1/messages"@),
                ],
            ),
        ).set("model_override"@, JsonV::Str(cfg.model_override@)),
{
    let mut paths: Vec<Json> = Vec::new();
    paths.push(Json::string("/v1/chat/completions"));
    paths.push(Json::string("/v1/responses"));
    paths.push(Json::string("/v1/messages"));
    let ghost pv = paths@.map_values(|j: Json| j@);
    assert(pv =~= seq![
        JsonV::Str("/v1/chat/completions"@),
        JsonV::Str("/v1/responses"@),
        JsonV::Str("/v1/messages"@),
    ]);
    let mut o = Json::object();
    o.set("port", Json::number(cfg.port as u64));
    o.set("endpoint", Json::from_string(endpoint(cfg.port)));
    o.set("endpoints", Json::array(paths));
    o.set("model_override", Json::string(cfg.model_override.as_str()));
    o
}

/// `set_port`'s check: port 0 is refused.
pub fn check_port(port: u16) -> (r: Result<(), String>)
    ensures
        r is Ok <==> port != 0,
        r matches Err(e) ==> e@ == "端口范围 1-65535"@,
{
    if port == 0 {
        Err(to_owned("端口范围 1-65535"))
    } else {
        Ok(())
    }
}

/// `set_port`'s answer: the port and its endpoint.
pub fn port_reply(port: u16) -> (r: Json)
    ensures
        r@ == empty_obj().set("port"@, num(port as u64)).set("endpoint"@, JsonV::Str(endpoint_v(port))),
{
    let mut o = Json::object();
    o.set("port", Json::number(port as u64));
    o.set("endpoint", Json::from_string(endpoint(port)));
    o
}

/// `save_port` on the configuration file's value: the port is set, and the
/// live key is written where the file has no `api_key`.
pub fn save_port_json(v: &mut Json, port: u16, live_api_key: &str)
    requires
        old(v)@ is Object || old(v)@ is Null,
    ensures
        final(v)@ == ({
            let w = old(v)@.set("port"@, num(port as u64));
            if old(v)@.get("api_key"@) is None {
                w.set("api_key"@, JsonV::Str(live_api_key@))
            } else {
                w
            }
        }),
{
    let had_key = v.get("api_key").is_some();
    v.set("port", Json::number(port as u64));
    if !had_key {
        v.set("api_key", Json::string(live_api_key));
    }
}

/// `set_upstream`'s check: the address is trimmed; a non-empty one must
/// start with `http://` or `https://`.
pub fn check_upstream(url: &str) -> (r: Result<String, String>)
    ensures
        ({
            let t = trim_spec(url@);
            let ok = t.len() == 0 || crate::text::has_prefix(t, "http://"@) || crate::text::has_prefix(
                t,
                "https://"@,
            );
            match r {
                Ok(u) => ok && u@ == t,
                Err(e) => !ok && e@ == "地址必须以 http:// 或 https:// 开头"@,
            }
        }),
{
    let t = crate::text::trim(url);
    if t.unicode_len() > 0 && !crate::text::starts_with(t, "http://") && !crate::text::starts_with(
        t,
        "https://",
    ) {
        return Err(to_owned("地址必须以 http:// 或 https:// 开头"));
    }
    Ok(to_owned(t))
}

/// `set_upstream`'s answer: the saved address, or the address in effect
/// where the default was restored.
pub fn upstream_reply(url: &str, in_effect: &str) -> (r: Json)
    ensures
        r@ == empty_obj().set(
            "upstream_url"@,
            JsonV::Str(
                if url@.len() == 0 {
                    in_effect@
                } else {
                    url@
                },
            ),
        ),
{
    let shown = if url.unicode_len() == 0 {
        in_effect
    } else {
        url
    };
    let mut o = Json::object();
    o.set("upstream_url", Json::string(shown));
    o
}

/// What `set_model_config` makes live: the trimmed key where one was
/// given, and the trimmed model (empty: requests keep their own model).
pub struct ModelUpdate {
    pub api_key: Option<String>,
    pub model_override: String,
}

/// `set_model_config` on the configuration file's value: the trimmed key
/// is written where it is not empty, the trimmed model always.
pub fn save_model_json(v: &mut Json, api_key: &str, model_override: &str) -> (r: ModelUpdate)
    requires
        old(v)@ is Object || old(v)@ is Null,
    ensures
        ({
            let k = trim_spec(api_key@);
            let m = trim_spec(model_override@);
            &&& final(v)@ == (if k.len() > 0 {
                old(v)@.set("api_key"@, JsonV::Str(k))
            } else {
                old(v)@
            }).set("model_override"@, JsonV::Str(m))
            &&& r.model_override@ == m
            &&& match r.api_key {
                Some(x) => k.len() > 0 && x@ == k,
                None => k.len() == 0,
            }
        }),
{
    let key = trimmed(api_key);
    let model = trimmed(model_override);
    let has_key = key.unicode_len() > 0;
    if has_key {
        v.set("api_key", Json::string(key.as_str()));
    }
    v.set("model_override", Json::string(model.as_str()));
    ModelUpdate { api_key: if has_key { Some(key) } else { None }, model_override: model }
}

/// `set_model_config`'s answer: the model and whether a key was given.
pub fn model_reply(u: &ModelUpdate) -> (r: Json)
    ensures
        r@ == empty_obj().set("model_override"@, JsonV::Str(u.model_override@)).set(
            "has_api_key"@,
            JsonV::Bool(u.api_key is Some),
        ),
{
    let mut o = Json::object();
    o.set("model_override", Json::string(u.model_override.as_str()));
    o.set("has_api_key", Json::boolean(u.api_key.is_some()));
    o
}

/// What `get_settings` shows.
pub struct SettingsInfo {
    pub port: u16,
    pub model_override: String,
    pub has_api_key: bool,
    pub upstream_url: String,
    pub max_concurrency: usize,
    pub active_profile_id: String,
}

/// `get_settings` over the live state and the saved active profile id.
pub fn settings_info(state: &ProxyState, active_profile_id: String) -> (r: SettingsInfo)
    requires
        state.wf(),
        state.spec_config() is Some,
    ensures
        ({
            let c = state.spec_config()->0;
            &&& r.port == c.port
            &&& r.model_override@ == c.model_override@
            &&& r.has_api_key == (c.api_key@.len() > 0)
            &&& r.upstream_url@ == trim_spec(
                match crate::proxy::spec_probe_target(*state, crate::proxy::spec_first_enabled(*state)) {
                    Some(t) => t,
                    None => crate::proxy::global_channel(c),
                }.upstream_url@,
            )
            &&& r.max_concurrency == c.max_concurrency
            &&& r.active_profile_id == active_profile_id
        }),
{
    let c = crate::proxy::cfg(state);
    SettingsInfo {
        port: c.port,
        model_override: c.model_override.clone(),
        has_api_key: c.api_key.unicode_len() > 0,
        upstream_url: crate::proxy::upstream_url(state),
        max_concurrency: c.max_concurrency,
        active_profile_id,
    }
}

// ──────── statistics window ────────

/// The window (minutes) of the statistics chart: 5, 30, 60 and 300 as
/// asked; 0 is today so far (since local midnight, at least 1); -1 is this
/// week so far (since Monday midnight, at least 1); anything else 10.
pub open spec fn window_v(window_minutes: i32, hour: u32, minute: u32, weekday: u32) -> u32 {
    if window_minutes == 5 || window_minutes == 30 || window_minutes == 60 || window_minutes == 300 {
        window_minutes as u32
    } else if window_minutes == 0 {
        let m = hour * 60 + minute;
        if m < 1 {
            1
        } else {
            m as u32
        }
    } else if window_minutes == -1 {
        let m = weekday * 1440 + hour * 60 + minute;
        if m < 1 {
            1
        } else {
            m as u32
        }
    } else {
        10
    }
}

/// The minutes of a custom range: whole minutes from start to end, at
/// least 1.
pub open spec fn range_minutes_v(start_ms: i64, end_ms: i64) -> u32 {
    let d = end_ms - start_ms;
    if d < 60000 {
        1
    } else {
        (d / 60000) as u32
    }
}

/// What the chart asks for.
pub enum StatsQuery {
    /// An absolute range, with its length in minutes.
    Range { start_ms: i64, end_ms: i64, minutes: u32 },
    /// The last `minutes` minutes.
    Recent { minutes: u32 },
}

/// `get_stats`'s reading of the request: a range where both ends are
/// given, else a window by its code (`hour`, `minute` and `weekday`, counted
/// from Monday, are the local time now).
pub fn stats_query(
    window_minutes: i32,
    start_ms: Option<i64>,
    end_ms: Option<i64>,
    hour: u32,
    minute: u32,
    weekday: u32,
) -> (r: StatsQuery)
    requires
        hour < 24,
        minute < 60,
        weekday < 7,
        start_ms is Some && end_ms is Some ==> i64::MIN <= end_ms->0 - start_ms->0 <= i64::MAX,
    ensures
        match (start_ms, end_ms) {
            (Some(s), Some(e)) => r == (StatsQuery::Range {
                start_ms: s,
                end_ms: e,
                minutes: range_minutes_v(s, e),
            }),
            _ => r == (StatsQuery::Recent { minutes: window_v(window_minutes, hour, minute, weekday) }),
        },
{
    match (start_ms, end_ms) {
        (Some(s), Some(e)) => {
            let d = e - s;
            let minutes: u32 = if d < 60000 {
                1
            } else {
                (d / 60000) as u32
            };
            return StatsQuery::Range { start_ms: s, end_ms: e, minutes };
        },
        _ => {},
    }
    let minutes: u32 = if window_minutes == 5 || window_minutes == 30 || window_minutes == 60
        || window_minutes == 300 {
        window_minutes as u32
    } else if window_minutes == 0 {
        let m = hour * 60 + minute;
        if m < 1 {
            1
        } else {
            m
        }
    } else if window_minutes == -1 {
        let m: u64 = weekday as u64 * 1440 + hour as u64 * 60 + minute as u64;
        if m < 1 {
            1
        } else {
            m as u32
        }
    } else {
        10
    };
    StatsQuery::Recent { minutes }
}

// ──────── profile ids ────────

/// A profile id from a time: the seconds in hexadecimal, `-`, and the low
/// 16 bits of the sub-second nanoseconds as four hexadecimal digits.
pub open spec fn profile_id_v(secs: u64, subsec_nanos: u32) -> Seq<char> {
    crate::text::hex_text(secs as nat, false) + "-"@ + crate::text::zero_pad(
        crate::text::hex_text((subsec_nanos % 65536) as nat, false),
        4,
    )
}

/// The profile id of a time.
pub fn profile_id(secs: u64, subsec_nanos: u32) -> (r: String)
    ensures
        r@ == profile_id_v(secs, subsec_nanos),
{
    let mut id = crate::text::u64_to_hex(secs, false);
    push_str(&mut id, "-");
    let low = crate::text::u64_to_hex((subsec_nanos % 65536) as u64, false);
    push_str(&mut id, crate::text::pad_zeros(low.as_str(), 4).as_str());
    id
}

/// `uuid_simple`: the profile id of the current time.
pub fn uuid_simple() -> (r: String)
    ensures
        exists|secs: u64, nanos: u32| r@ == profile_id_v(secs, nanos),
{
    let t = crate::clock::system_time_nanos();
    let whole = t / 1_000_000_000;
    let secs: u64 = if whole > u64::MAX as u128 {
        u64::MAX
    } else {
        whole as u64
    };
    let nanos: u32 = (t % 1_000_000_000) as u32;
    profile_id(secs, nanos)
}

impl Default for Profile {
    /// A new profile named `默认`: a fresh id, nothing else set, 20
    /// concurrent requests.
    fn default() -> (r: Self)
        ensures
            exists|secs: u64, nanos: u32| r.id@ == profile_id_v(secs, nanos),
            r.name@ == "默认"@,
            r.upstream_url@ == Seq::<char>::empty(),
            r.api_key@ == Seq::<char>::empty(),
            r.model_override@ == Seq::<char>::empty(),
            r.max_concurrency == 20,
    {
        Profile {
            id: uuid_simple(),
            name: to_owned("默认"),
            upstream_url: empty_string(),
            api_key: empty_string(),
            model_override: empty_string(),
            max_concurrency: 20,
        }
    }
}

// ──────── crash reports ────────

/// The name of a Windows exception code.
pub open spec fn exception_name_v(code: u32) -> Seq<char> {
    if code == 0xC0000005 {
        "ACCESS_VIOLATION"@
    } else if code == 0xC00000FD {
        "STACK_OVERFLOW"@
    } else if code == 0xC0000374 {
        "HEAP_CORRUPTION"@
    } else if code == 0x80000003 {
        "BREAKPOINT"@
    } else if code == 0x80000004 {
        "SINGLE_STEP"@
    } else if code == 0xC000013A {
        "CTRL_C_EXIT"@
    } else {
        "UNKNOWN"@
    }
}

/// The name of a Windows exception code.
pub fn exception_name(code: u32) -> (r: &'static str)
    ensures
        r@ == exception_name_v(code),
{
    if code == 0xC0000005 {
        "ACCESS_VIOLATION"
    } else if code == 0xC00000FD {
        "STACK_OVERFLOW"
    } else if code == 0xC0000374 {
        "HEAP_CORRUPTION"
    } else if code == 0x80000003 {
        "BREAKPOINT"
    } else if code == 0x80000004 {
        "SINGLE_STEP"
    } else if code == 0xC000013A {
        "CTRL_C_EXIT"
    } else {
        "UNKNOWN"
    }
}

/// The crash log entry of an unhandled exception: the time, the code in
/// eight upper-case hexadecimal digits and its name.
pub open spec fn crash_entry_v(timestamp: Seq<char>, code: u32) -> Seq<char> {
    "\n=== SEH CRASH ["@ + timestamp + "] ===\nExceptionCode: 0x"@ + crate::text::zero_pad(
        crate::text::hex_text(code as nat, true),
        8,
    ) + " ("@ + exception_name_v(code)
        + ")\nThe application encountered a fatal error and must close.\n"@
}

/// The crash log entry of an unhandled exception.
pub fn crash_entry(timestamp: &str, code: u32) -> (r: String)
    ensures
        r@ == crash_entry_v(timestamp@, code),
{
    let mut m = to_owned("\n=== SEH CRASH [");
    push_str(&mut m, timestamp);
    push_str(&mut m, "] ===\nExceptionCode: 0x");
    let hex = crate::text::u64_to_hex(code as u64, true);
    push_str(&mut m, crate::text::pad_zeros(hex.as_str(), 8).as_str());
    push_str(&mut m, " (");
    push_str(&mut m, exception_name(code));
    push_str(&mut m, ")\nThe application encountered a fatal error and must close.\n");
    m
}

} // verus!
