//! The rules of a profile: what it may be called, what its keys mean, and what
//! holds where a key is absent.

use vstd::prelude::*;
use vstd::string::*;
use crate::error::{Error, ErrorV};
use crate::forward::{PolicyV, UpstreamReasoningPolicy, UpstreamType, effort_of, upstream_named, vision_type, vision_upstream_type_from_url};
use crate::json::opt_string;
use crate::json_canonical::{increasing, lemma_before_total, lemma_before_transitive, stands_before, text_before};
use crate::text::{cat, cat3, chars_of, has_prefix, has_suffix, lemma_texts_push, string_of, texts, trim, trimmed};
use crate::vision::{PromptMode, VisionConfig, mode_named};

verus! {

/// The profile that is served before any other was chosen.
pub const DEFAULT_PROFILE: &'static str = "default";

/// The model that requests are sent with, unless the profile names one.
pub const DEFAULT_MODEL: &'static str = "deepseek-v4-flash";

/// The address to listen on, unless the profile names one.
pub const DEFAULT_LISTEN_ADDR: &'static str = "127.0.0.1";

/// The port to listen on, unless the profile names one.
pub const DEFAULT_LISTEN_PORT: u16 = 18650;

/// Whether a character may stand in the name of a profile.
pub open spec fn is_profile_char(c: char) -> bool {
    'a' <= c <= 'z' || 'A' <= c <= 'Z' || '0' <= c <= '9' || c == '_' || c == '-'
}

/// Whether a text is the name of a profile.
pub open spec fn is_profile_name(s: Seq<char>) -> bool {
    s.len() > 0 && forall|i: int| 0 <= i < s.len() ==> is_profile_char(#[trigger] s[i])
}

/// Accepts the names that consist of letters, digits, `_` and `-`.
pub fn validate_profile_name(name: &str) -> (r: Result<(), Error>)
    ensures
        match r {
            Ok(_) => is_profile_name(name@),
            Err(e) => !is_profile_name(name@) && e@ == ErrorV::Config(
                "Invalid profile name \""@ + name@ + "\": use letters, digits, '_' and '-'"@,
            ),
        },
{
    let cs = chars_of(name);
    let mut good = cs.len() > 0;
    let mut i: usize = 0;
    while i < cs.len()
        invariant
            i <= cs@.len(),
            cs@ == name@,
            good == (cs@.len() > 0 && forall|j: int| 0 <= j < i ==> is_profile_char(#[trigger] cs@[j])),
        decreases cs@.len() - i,
    {
        let c = cs[i];
        if !('a' <= c && c <= 'z' || 'A' <= c && c <= 'Z' || '0' <= c && c <= '9' || c == '_' || c == '-') {
            good = false;
        }
        i += 1;
    }
    if good {
        Ok(())
    } else {
        Err(
            Error::Config(
                cat3("Invalid profile name \"", name, "\": use letters, digits, '_' and '-'"),
            ),
        )
    }
}

/// The name of the file that holds a profile.
pub open spec fn file_of(name: Seq<char>) -> Seq<char> {
    name + ".toml"@
}

/// The name of the file that holds a profile.
pub fn profile_file_name(name: &str) -> (r: String)
    ensures
        r@ == file_of(name@),
{
    cat(name, ".toml")
}

/// The profile that a file holds. Files whose names start with a dot hold none.
pub open spec fn profile_in(file: Seq<char>) -> Option<Seq<char>> {
    if has_suffix(file, ".toml"@) && !has_prefix(file, "."@) {
        Some(file.take(file.len() - 5))
    } else {
        None
    }
}

fn profile_in_file(file: &str) -> (r: Option<String>)
    ensures
        opt_string(r) == profile_in(file@),
{
    proof {
        reveal_strlit(".toml");
        reveal_strlit(".");
    }
    let cs = chars_of(file);
    let n = cs.len();
    if n < 5 || cs[0] == '.' {
        assert(n >= 5 ==> has_prefix(file@, "."@)) by {
            if n >= 5 {
                assert(file@.take(1) =~= "."@);
            }
        }
        return None;
    }
    let end = n - 5;
    let tail = string_of(&cs, end, n);
    assert(!has_prefix(file@, "."@)) by {
        if has_prefix(file@, "."@) {
            assert(file@.take(1)[0] == '.');
        }
    }
    if tail.as_str().eq(".toml") {
        Some(string_of(&cs, 0, end))
    } else {
        None
    }
}

/// The names of the profiles that a list of files holds, each once and in order.
pub fn list_profiles(files: &Vec<String>) -> (r: Vec<String>)
    ensures
        increasing(texts(r@)),
        forall|name: Seq<char>| #[trigger] texts(r@).contains(name) <==> holds_profile(texts(files@), name),
{
    let mut names: Vec<String> = Vec::new();
    let ghost all = texts(files@);
    let mut i: usize = 0;
    while i < files.len()
        invariant
            i <= files@.len(),
            all == texts(files@),
            increasing(texts(names@)),
            forall|name: Seq<char>| #[trigger] texts(names@).contains(name) <==> holds_profile(
                all.take(i as int),
                name,
            ),
        decreases files@.len() - i,
    {
        let ghost before = texts(names@);
        let ghost file = files@[i as int]@;
        if let Some(name) = profile_in_file(files[i].as_str()) {
            let ghost text = name@;
            insert_name(&mut names, name);
            assert(texts(names@).contains(text));
        }
        proof {
            let so_far = all.take(i as int);
            let next = all.take(i + 1);
            assert forall|name: Seq<char>| #[trigger] texts(names@).contains(name) <==> holds_profile(next, name) by {
                if holds_profile(so_far, name) {
                    let k = choose|k: int| 0 <= k < so_far.len() && #[trigger] profile_in(so_far[k]) == Some(name);
                    assert(next[k] == so_far[k]);
                }
                assert(next[i as int] == file);
                if holds_profile(next, name) && profile_in(file) != Some(name) {
                    let k = choose|k: int| 0 <= k < next.len() && #[trigger] profile_in(next[k]) == Some(name);
                    assert(so_far[k] == next[k]);
                }
                assert(before.contains(name) <==> holds_profile(so_far, name));
            }
        }
        i += 1;
    }
    assert(all.take(i as int) =~= all);
    names
}

/// Whether one of a list of files holds a profile of that name.
pub open spec fn holds_profile(files: Seq<Seq<char>>, name: Seq<char>) -> bool {
    exists|k: int| 0 <= k < files.len() && #[trigger] profile_in(files[k]) == Some(name)
}

/// Puts a name into a list in order, unless it is there.
fn insert_name(names: &mut Vec<String>, name: String)
    requires
        increasing(texts(old(names)@)),
    ensures
        increasing(texts(final(names)@)),
        forall|t: Seq<char>| #[trigger]
            texts(final(names)@).contains(t) <==> texts(old(names)@).contains(t) || t == name@,
{
    let ghost before = texts(names@);
    let ghost text = name@;
    let mut p: usize = 0;
    while p < names.len() && stands_before(names[p].as_str(), name.as_str())
        invariant
            p <= names@.len(),
            before == texts(names@),
            text == name@,
            forall|i: int| 0 <= i < p ==> text_before(#[trigger] before[i], text),
        decreases names@.len() - p,
    {
        assert(before[p as int] == names@[p as int]@);
        p += 1;
    }
    if p < names.len() && names[p].as_str().eq(name.as_str()) {
        assert(before[p as int] == text);
        return;
    }
    names.insert(p, name);
    proof {
        let after = texts(names@);
        assert(after =~= before.insert(p as int, text));
        assert forall|i: int| p <= i < before.len() implies text_before(text, #[trigger] before[i]) by {
            let q = before[p as int];
            lemma_before_total(q, text);
            if i > p {
                lemma_before_transitive(text, q, before[i]);
            }
        }
        assert forall|i: int, j: int| 0 <= i < j < after.len() implies text_before(
            #[trigger] after[i],
            #[trigger] after[j],
        ) by {
            let i2 = if i < p {
                i
            } else {
                i - 1
            };
            let j2 = if j < p {
                j
            } else {
                j - 1
            };
            if i == p {
                assert(after[j] == before[j2]);
            } else if j == p {
                assert(after[i] == before[i2]);
            } else {
                assert(after[i] == before[i2]);
                assert(after[j] == before[j2]);
            }
        }
        assert forall|t: Seq<char>| #[trigger] after.contains(t) <==> before.contains(t) || t == text by {
            if before.contains(t) {
                let k = choose|k: int| 0 <= k < before.len() && before[k] == t;
                if k < p {
                    assert(after[k] == t);
                } else {
                    assert(after[k + 1] == t);
                }
            }
            assert(after[p as int] == text);
            if after.contains(t) && t != text {
                let k = choose|k: int| 0 <= k < after.len() && after[k] == t;
                if k < p {
                    assert(before[k] == t);
                } else {
                    assert(before[k - 1] == t);
                }
            }
        }
    }
}

/// The profile to serve where none is asked for: the one that was recorded, or
/// `default` before any was.
pub fn resolve_bare_profile(recorded: Option<String>) -> (r: String)
    ensures
        r@ == match opt_string(recorded) {
            Some(name) => name,
            None => DEFAULT_PROFILE@,
        },
{
    match recorded {
        Some(name) => name,
        None => DEFAULT_PROFILE.to_owned(),
    }
}

/// The keys of the `[vision]` table as they are written.
pub struct VisionSettings {
    pub url: Option<String>,
    pub api_key: Option<String>,
    pub model: Option<String>,
    pub prompt_mode: Option<String>,
    pub prompt: Option<String>,
    pub max_tokens: Option<u32>,
}

/// Whether a key has a value that is not blank.
pub open spec fn is_given(key: Option<String>) -> bool {
    key matches Some(t) && trim(t@).len() > 0
}

fn given(key: &Option<String>) -> (r: bool)
    ensures
        r == is_given(*key),
{
    match key {
        Some(t) => !trimmed(t.as_str()).is_empty(),
        None => false,
    }
}

/// The names of the required keys of a `[vision]` table that have no value.
pub open spec fn missing_keys(v: VisionSettings) -> Seq<Seq<char>> {
    let a = if is_given(v.url) {
        Seq::empty()
    } else {
        seq!["url"@]
    };
    let b = if is_given(v.api_key) {
        a
    } else {
        a.push("api_key"@)
    };
    if is_given(v.model) {
        b
    } else {
        b.push("model"@)
    }
}

/// The vision model of a `[vision]` table, which takes all of `url`, `api_key` and
/// `model`; else the names of those that are missing. A blank value is as good as
/// none, and so is a limit of zero. The format goes by the URL. A prompt mode that is
/// not known is `Auto`.
pub fn resolve_vision(v: VisionSettings) -> (r: Result<VisionConfig, Vec<String>>)
    ensures
        match r {
            Ok(c) => {
                &&& missing_keys(v).len() == 0
                &&& Some(c.url) == v.url
                &&& Some(c.api_key) == v.api_key
                &&& Some(c.model) == v.model
                &&& c.upstream_type == vision_type(c.url@)
                &&& c.prompt_mode == mode_named(opt_string(v.prompt_mode))
                &&& c.custom_prompt == if is_given(v.prompt) {
                    v.prompt
                } else {
                    None
                }
                &&& c.max_tokens == if v.max_tokens == Some(0u32) {
                    None
                } else {
                    v.max_tokens
                }
            },
            Err(names) => missing_keys(v).len() > 0 && texts(names@) == missing_keys(v),
        },
{
    broadcast use lemma_texts_push;

    let mut names: Vec<String> = Vec::new();
    assert(texts(names@) =~= Seq::empty());
    if !given(&v.url) {
        names.push("url".to_owned());
        assert(texts(names@) =~= seq!["url"@]);
    }
    if !given(&v.api_key) {
        names.push("api_key".to_owned());
    }
    if !given(&v.model) {
        names.push("model".to_owned());
    }
    let prompt_mode = PromptMode::parse(
        match &v.prompt_mode {
            Some(t) => Some(t.as_str()),
            None => None,
        },
    );
    let custom_prompt = if given(&v.prompt) {
        v.prompt
    } else {
        None
    };
    let max_tokens = match v.max_tokens {
        Some(0) => None,
        limit => limit,
    };
    match (v.url, v.api_key, v.model) {
        (Some(url), Some(api_key), Some(model)) => {
            if names.len() == 0 {
                let upstream_type = vision_upstream_type_from_url(url.as_str());
                return Ok(VisionConfig {
                    url,
                    api_key,
                    model,
                    upstream_type,
                    prompt_mode,
                    custom_prompt,
                    max_tokens,
                });
            }
        },
        _ => {},
    }
    Err(names)
}

/// The keys of a profile as they are written.
pub struct ProfileSettings {
    pub upstream_type: String,
    pub url: String,
    pub api_key: String,
    pub model: Option<String>,
    pub listen_addr: Option<String>,
    pub listen_port: Option<u16>,
    pub auth_key: Option<String>,
    pub vision_supplement: Option<bool>,
    pub thinking: Option<bool>,
    pub effort: Option<String>,
}

/// What a profile comes to.
pub struct Config {
    pub upstream_type: UpstreamType,
    pub url: String,
    pub api_key: String,
    pub model: String,
    pub listen_addr: String,
    pub listen_port: u16,
    pub auth_key: Option<String>,
    pub vision_supplement_enabled: bool,
    pub reasoning_policy: UpstreamReasoningPolicy,
}

/// A setting, or what holds without it.
pub open spec fn text_or(key: Option<String>, default: Seq<char>) -> Seq<char> {
    match key {
        Some(t) => t@,
        None => default,
    }
}

fn given_or(key: Option<String>, default: &str) -> (r: String)
    ensures
        r@ == text_or(key, default@),
{
    match key {
        Some(t) => t,
        None => default.to_owned(),
    }
}

/// What a profile comes to: its values, and the defaults of the keys that it leaves
/// out. It is refused where it names no upstream format.
pub fn resolve_profile(p: ProfileSettings) -> (r: Result<Config, Error>)
    ensures
        match (r, upstream_named(p.upstream_type@)) {
            (Ok(c), Ok(t)) => {
                &&& c.upstream_type == t
                &&& c.url == p.url
                &&& c.api_key == p.api_key
                &&& c.model@ == text_or(p.model, DEFAULT_MODEL@)
                &&& c.listen_addr@ == text_or(p.listen_addr, DEFAULT_LISTEN_ADDR@)
                &&& c.listen_port == p.listen_port.unwrap_or(DEFAULT_LISTEN_PORT)
                &&& c.auth_key == p.auth_key
                &&& c.vision_supplement_enabled == (p.vision_supplement == Some(true))
                &&& c.reasoning_policy@ == (PolicyV {
                    thinking_enabled: p.thinking != Some(false),
                    effort: effort_of(opt_string(p.effort)),
                })
            },
            (Err(e), Err(why)) => e@ == why,
            _ => false,
        },
{
    let upstream_type = match UpstreamType::parse(p.upstream_type.as_str()) {
        Ok(t) => t,
        Err(e) => {
            return Err(e);
        },
    };
    let effort = match &p.effort {
        Some(t) => Some(t.as_str()),
        None => None,
    };
    let mut reasoning_policy = UpstreamReasoningPolicy::parse(None, effort);
    if let Some(false) = p.thinking {
        reasoning_policy.thinking_enabled = false;
    }
    let listen_port: u16 = match p.listen_port {
        Some(n) => n,
        None => DEFAULT_LISTEN_PORT,
    };
    let vision_supplement_enabled = match p.vision_supplement {
        Some(on) => on,
        None => false,
    };
    Ok(
        Config {
            upstream_type,
            url: p.url,
            api_key: p.api_key,
            model: given_or(p.model, DEFAULT_MODEL),
            listen_addr: given_or(p.listen_addr, DEFAULT_LISTEN_ADDR),
            listen_port,
            auth_key: p.auth_key,
            vision_supplement_enabled,
            reasoning_policy,
        },
    )
}

/// A profile that was saved under a valid name is listed under that name.
pub proof fn law_profile_file_is_listed(files: Seq<Seq<char>>, name: Seq<char>)
    requires
        is_profile_name(name),
        files.contains(file_of(name)),
    ensures
        holds_profile(files, name),
{
    reveal_strlit(".toml");
    reveal_strlit(".");
    let file = file_of(name);
    assert(file.skip(file.len() - 5) =~= ".toml"@);
    assert(file.take(file.len() - 5) =~= name);
    assert(file[0] == name[0]);
    assert(!has_prefix(file, "."@)) by {
        if has_prefix(file, "."@) {
            assert(file.take(1)[0] == '.');
        }
        assert(is_profile_char(name[0]));
    }
    assert(profile_in(file) == Some(name));
    let k = choose|k: int| 0 <= k < files.len() && files[k] == file;
    assert(profile_in(files[k]) == Some(name));
}

/// The file that records the selection is never listed.
pub proof fn law_hidden_files_hold_no_profile(file: Seq<char>)
    requires
        has_prefix(file, "."@),
    ensures
        profile_in(file) is None,
{
}

} // verus!
