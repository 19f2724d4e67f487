//! Where settings and credentials come from, and in what order.
//!
//! Never a `.env` file. Hooks commonly deny reading any `.env*` path, so a key kept there is a
//! key the tooling around this cannot see. Environment variable first, then
//! `$XDG_CONFIG_HOME/bitomule/jevi/config.json` at mode 0600.

use vstd::prelude::*;

use crate::codec::{
    json_pretty, json_reading, lemma_faithful_is_settled, lemma_sound_field, lemma_sound_object, lemma_sound_with, sound,
    DEEPEST,
};
use crate::error::{invalid, says, Error, ErrorView};
use crate::http::read_view;
use crate::json::{
    distinct, field, lemma_with, lookup, text_of, whole_of, with, Json, JsonView, Object,
};
use crate::provider::{named, opt_text, Provider};
use crate::questions::opt_str;
use crate::text;

verus! {

/// The environment variables that matter here, each as far as it is set.
#[derive(Debug)]
pub struct Env {
    pub jevi_config: Option<String>,
    pub xdg_config_home: Option<String>,
    pub home: Option<String>,
    pub jevi_provider: Option<String>,
    pub jevi_api_key: Option<String>,
    pub openrouter_api_key: Option<String>,
    pub typesafe_api_key: Option<String>,
    pub jevi_model: Option<String>,
    pub jevi_timeout_ms: Option<String>,
    pub jevi_quiet: Option<String>,
    pub jevi_disable: Option<String>,
}

/// What an [`Env`] says.
pub struct EnvView {
    pub jevi_config: Option<Seq<char>>,
    pub xdg_config_home: Option<Seq<char>>,
    pub home: Option<Seq<char>>,
    pub jevi_provider: Option<Seq<char>>,
    pub jevi_api_key: Option<Seq<char>>,
    pub openrouter_api_key: Option<Seq<char>>,
    pub typesafe_api_key: Option<Seq<char>>,
    pub jevi_model: Option<Seq<char>>,
    pub jevi_timeout_ms: Option<Seq<char>>,
    pub jevi_quiet: Option<Seq<char>>,
    pub jevi_disable: Option<Seq<char>>,
}

impl View for Env {
    type V = EnvView;

    open spec fn view(&self) -> EnvView {
        EnvView {
            jevi_config: opt_text(self.jevi_config),
            xdg_config_home: opt_text(self.xdg_config_home),
            home: opt_text(self.home),
            jevi_provider: opt_text(self.jevi_provider),
            jevi_api_key: opt_text(self.jevi_api_key),
            openrouter_api_key: opt_text(self.openrouter_api_key),
            typesafe_api_key: opt_text(self.typesafe_api_key),
            jevi_model: opt_text(self.jevi_model),
            jevi_timeout_ms: opt_text(self.jevi_timeout_ms),
            jevi_quiet: opt_text(self.jevi_quiet),
            jevi_disable: opt_text(self.jevi_disable),
        }
    }
}

impl Default for Env {
    /// An environment in which none of the variables is set.
    fn default() -> (r: Env)
        ensures
            r@ == (EnvView {
                jevi_config: None,
                xdg_config_home: None,
                home: None,
                jevi_provider: None,
                jevi_api_key: None,
                openrouter_api_key: None,
                typesafe_api_key: None,
                jevi_model: None,
                jevi_timeout_ms: None,
                jevi_quiet: None,
                jevi_disable: None,
            }),
    {
        Env {
            jevi_config: None,
            xdg_config_home: None,
            home: None,
            jevi_provider: None,
            jevi_api_key: None,
            openrouter_api_key: None,
            typesafe_api_key: None,
            jevi_model: None,
            jevi_timeout_ms: None,
            jevi_quiet: None,
            jevi_disable: None,
        }
    }
}

/// A setting that is there and not empty.
pub open spec fn filled(setting: Option<Seq<char>>) -> Option<Seq<char>> {
    match setting {
        Some(v) => if v == ""@ {
            None
        } else {
            Some(v)
        },
        None => None,
    }
}

fn non_empty(setting: &Option<String>) -> (r: Option<&str>)
    ensures
        opt_str(r) == filled(opt_text(*setting)),
{
    match setting {
        Some(v) => if text::same(v.as_str(), "") {
            None
        } else {
            Some(v.as_str())
        },
        None => None,
    }
}

/// A path below another: the two with one separator between them, or the second alone
/// where the first is empty or the second starts at the root.
pub open spec fn joined(base: Seq<char>, rest: Seq<char>) -> Seq<char> {
    if "/"@.is_prefix_of(rest) || base.len() == 0 {
        rest
    } else if base.last() == '/' {
        base + rest
    } else {
        base + "/"@ + rest
    }
}

/// A path below another.
pub fn join(base: &str, rest: &str) -> (r: String)
    ensures
        r@ == joined(base@, rest@),
{
    if text::starts_with(rest, "/") {
        return rest.to_owned();
    }
    let chars = text::chars_of(base);
    if chars.len() == 0 {
        rest.to_owned()
    } else if chars[chars.len() - 1] == '/' {
        text::cat(base, rest)
    } else {
        text::cat3(base, "/", rest)
    }
}

/// The home directory.
pub open spec fn home_of(e: EnvView) -> Seq<char> {
    match e.home {
        Some(h) => h,
        None => "."@,
    }
}

/// The directory that holds the configuration.
pub open spec fn dir_of(e: EnvView) -> Seq<char> {
    match filled(e.xdg_config_home) {
        Some(x) => joined(x, "bitomule/jevi"@),
        None => joined(home_of(e), ".config/bitomule/jevi"@),
    }
}

/// The configuration file.
pub open spec fn path_of(e: EnvView) -> Seq<char> {
    match filled(e.jevi_config) {
        Some(p) => p,
        None => joined(dir_of(e), "config.json"@),
    }
}

fn home(env: &Env) -> (r: &str)
    ensures
        r@ == home_of(env@),
{
    match &env.home {
        Some(h) => h.as_str(),
        None => ".",
    }
}

/// The directory that holds the configuration.
pub fn config_dir(env: &Env) -> (r: String)
    ensures
        r@ == dir_of(env@),
{
    match non_empty(&env.xdg_config_home) {
        Some(x) => join(x, "bitomule/jevi"),
        None => join(home(env), ".config/bitomule/jevi"),
    }
}

/// The configuration file.
pub fn config_path(env: &Env) -> (r: String)
    ensures
        r@ == path_of(env@),
{
    match non_empty(&env.jevi_config) {
        Some(p) => p.to_owned(),
        None => join(config_dir(env).as_str(), "config.json"),
    }
}

/// The directory that holds the question sets for everywhere.
pub open spec fn questions_dir_of(e: EnvView) -> Seq<char> {
    joined(dir_of(e), "questions"@)
}

/// The directory that holds the question sets for everywhere.
pub fn questions_dir(env: &Env) -> (r: String)
    ensures
        r@ == questions_dir_of(env@),
{
    join(config_dir(env).as_str(), "questions")
}

/// Settings: the file's, and the environment that overrides them.
#[derive(Debug)]
pub struct Config {
    root: Json,
    pub loaded: bool,
    env: Env,
}

/// What a [`Config`] says.
pub struct ConfigView {
    pub root: JsonView,
    pub loaded: bool,
    pub env: EnvView,
}

impl View for Config {
    type V = ConfigView;

    closed spec fn view(&self) -> ConfigView {
        ConfigView { root: self.root@, loaded: self.loaded, env: self.env@ }
    }
}

/// The settings, given what the configuration file reads as if there is one.
pub open spec fn config_of(env: EnvView, file: Option<Result<JsonView, Seq<char>>>) -> Result<ConfigView, ErrorView> {
    match file {
        Some(Ok(root)) => Ok(ConfigView { root, loaded: true, env }),
        Some(Err(m)) => Err(invalid("config"@, path_of(env) + ": "@ + m)),
        None => Ok(ConfigView { root: JsonView::Null, loaded: false, env }),
    }
}

/// What the text of a file that may be there reads as.
pub open spec fn file_reading(file: Option<Seq<char>>) -> Option<Result<JsonView, Seq<char>>> {
    match file {
        Some(t) => Some(json_reading(t)),
        None => None,
    }
}

impl ConfigView {
    /// A setting of one provider in the file.
    pub open spec fn own(self, p: Provider, key: Seq<char>) -> Option<Seq<char>> {
        match field(self.root, p.spec_name()) {
            Some(slot) => filled(text_of(field(slot, key))),
            None => None,
        }
    }

    /// A provider's own key in the environment.
    pub open spec fn env_key(self, p: Provider) -> Option<Seq<char>> {
        match p {
            Provider::OpenRouter => filled(self.env.openrouter_api_key),
            Provider::TypeSafe => filled(self.env.typesafe_api_key),
        }
    }

    /// The credential for a provider.
    pub open spec fn key(self, p: Provider) -> Option<Seq<char>> {
        first(first(filled(self.env.jevi_api_key), self.env_key(p)), self.own(p, "api_key"@))
    }

    /// The provider to ask.
    pub open spec fn provider(self, flag: Option<Seq<char>>) -> Result<Provider, ErrorView> {
        let name = first(first(flag, filled(self.env.jevi_provider)), text_of(field(self.root, "provider"@)));
        match name {
            Some(name) => named(name),
            None => if self.key(Provider::OpenRouter) is None && self.key(Provider::TypeSafe) is Some {
                Ok(Provider::TypeSafe)
            } else {
                Ok(Provider::OpenRouter)
            },
        }
    }

    /// The model to ask for.
    pub open spec fn model(self, p: Provider, flag: Option<Seq<char>>) -> Seq<char> {
        match first(first(flag, filled(self.env.jevi_model)), self.own(p, "model"@)) {
            Some(m) => m,
            None => p.spec_default_model(),
        }
    }

    /// Where to ask.
    pub open spec fn url(self, p: Provider) -> Seq<char> {
        match self.own(p, "base_url"@) {
            Some(u) => u,
            None => p.spec_default_url(),
        }
    }

    /// How long an answer may take, in milliseconds.
    pub open spec fn timeout_ms(self, flag: Option<u64>) -> u64 {
        let set = match self.env.jevi_timeout_ms {
            Some(t) => text::whole_of(t),
            None => None,
        };
        match first(first(flag, set), whole_of(field(self.root, "timeout_ms"@))) {
            Some(t) => t,
            None => 3000,
        }
    }
}

/// The first of two that is there.
pub open spec fn first<T>(a: Option<T>, b: Option<T>) -> Option<T> {
    match a {
        Some(_) => a,
        None => b,
    }
}

/// What was found of a question set's files.
#[derive(Debug)]
pub struct SetFiles {
    /// The name as a path: nothing if no such file exists, else its text or what went wrong.
    pub direct: Option<Result<String, String>>,
    /// The text of the project's own set, if it could be read.
    pub local: Option<String>,
    /// The text of the set for everywhere, if it could be read.
    pub shared: Option<String>,
}

/// What [`SetFiles`] say.
pub struct SetFilesView {
    pub direct: Option<Result<Seq<char>, Seq<char>>>,
    pub local: Option<Seq<char>>,
    pub shared: Option<Seq<char>>,
}

impl View for SetFiles {
    type V = SetFilesView;

    open spec fn view(&self) -> SetFilesView {
        SetFilesView {
            direct: match self.direct {
                Some(d) => Some(read_view(d)),
                None => None,
            },
            local: opt_text(self.local),
            shared: opt_text(self.shared),
        }
    }
}

/// The project's own file for a question set.
pub open spec fn local_of(name: Seq<char>) -> Seq<char> {
    joined(".jevi"@, name + ".json"@)
}

/// The file for a question set for everywhere.
pub open spec fn shared_of(e: EnvView, name: Seq<char>) -> Seq<char> {
    joined(questions_dir_of(e), name + ".json"@)
}

/// The project's own file for a question set.
pub fn local_set(name: &str) -> (r: String)
    ensures
        r@ == local_of(name@),
{
    join(".jevi", text::cat(name, ".json").as_str())
}

/// The file for a question set for everywhere.
pub fn shared_set(env: &Env, name: &str) -> (r: String)
    ensures
        r@ == shared_of(env@, name@),
{
    join(questions_dir(env).as_str(), text::cat(name, ".json").as_str())
}

/// The text of a question set and where it came from.
pub open spec fn resolved(e: EnvView, name: Seq<char>, found: SetFilesView) -> Result<(Seq<char>, Seq<char>), ErrorView> {
    match found.direct {
        Some(Ok(t)) => Ok((t, name)),
        Some(Err(m)) => Err(invalid("question_file"@, name + ": "@ + m)),
        None => if name.contains('/') {
            Err(invalid("question_file"@, name + ": no such file"@))
        } else {
            match (found.local, found.shared) {
                (Some(t), _) => Ok((t, local_of(name))),
                (None, Some(t)) => Ok((t, shared_of(e, name))),
                (None, None) => Err(
                    invalid(
                        "question_file"@,
                        "no question set `"@ + name + "` (looked in ./.jevi/ and "@ + questions_dir_of(e) + ")"@,
                    ),
                ),
            }
        },
    }
}

/// Whether the name of a set can only be a path.
pub fn has_slash(name: &str) -> (r: bool)
    ensures
        r == name@.contains('/'),
{
    let chars = text::chars_of(name);
    let mut i: usize = 0;
    while i < chars.len()
        invariant
            chars@ == name@,
            i <= chars@.len(),
            forall|k: int| 0 <= k < i ==> name@[k] != '/',
        decreases chars@.len() - i,
    {
        if chars[i] == '/' {
            proof {
                assert(name@[i as int] == '/');
            }
            return true;
        }
        i += 1;
    }
    false
}

impl Config {
    /// The settings, given the text of the configuration file if it could be read.
    pub fn load(env: Env, file: Option<&str>) -> (r: Result<Config, Error>)
        ensures
            says(r, config_of(env@, file_reading(opt_str(file)))),
    {
        match file {
            Some(raw) => Config::from_reading(env, Some(Json::parse(raw))),
            None => Config::from_reading(env, None),
        }
    }

    /// The settings, given what the configuration file reads as if there is one.
    pub fn from_reading(env: Env, file: Option<Result<Json, String>>) -> (r: Result<Config, Error>)
        ensures
            says(
                r,
                config_of(
                    env@,
                    match file {
                        Some(Ok(j)) => Some(Ok(j@)),
                        Some(Err(m)) => Some(Err(m@)),
                        None => None,
                    },
                ),
            ),
    {
        match file {
            Some(Ok(root)) => Ok(Config { root, loaded: true, env }),
            Some(Err(m)) => Err(
                Error::invalid("config", text::cat3(config_path(&env).as_str(), ": ", m.as_str()).as_str()),
            ),
            None => Ok(Config { root: Json::Null, loaded: false, env }),
        }
    }

    /// The environment that the settings were read in.
    pub fn environment(&self) -> (r: &Env)
        ensures
            r@ == self@.env,
    {
        &self.env
    }

    /// Whether there was a configuration file.
    pub fn is_loaded(&self) -> (r: bool)
        ensures
            r == self@.loaded,
    {
        self.loaded
    }

    fn per_provider(&self, p: Provider, key: &str) -> (r: Option<&str>)
        ensures
            opt_str(r) == self@.own(p, key@),
    {
        match self.root.get(p.name()) {
            Some(slot) => match slot.get(key) {
                Some(v) => match v.as_str() {
                    Some(s) => if text::same(s, "") {
                        None
                    } else {
                        Some(s)
                    },
                    None => None,
                },
                None => None,
            },
            None => None,
        }
    }

    /// Whichever provider has a credential. With both, OpenRouter — it is the shape this
    /// build has actually verified. Flip this the day the direct endpoint is confirmed.
    pub fn provider(&self, flag: Option<&str>) -> (r: Result<Provider, Error>)
        ensures
            says(r, self@.provider(opt_str(flag))),
    {
        if let Some(name) = flag {
            return Provider::parse(name);
        }
        if let Some(name) = non_empty(&self.env.jevi_provider) {
            return Provider::parse(name);
        }
        if let Some(v) = self.root.get("provider") {
            if let Some(name) = v.as_str() {
                return Provider::parse(name);
            }
        }
        if self.key_for(Provider::OpenRouter).is_some() {
            Ok(Provider::OpenRouter)
        } else if self.key_for(Provider::TypeSafe).is_some() {
            Ok(Provider::TypeSafe)
        } else {
            Ok(Provider::OpenRouter)
        }
    }

    pub fn key_for(&self, p: Provider) -> (r: Option<String>)
        ensures
            opt_text(r) == self@.key(p),
    {
        if let Some(k) = non_empty(&self.env.jevi_api_key) {
            return Some(k.to_owned());
        }
        let own = match p {
            Provider::OpenRouter => &self.env.openrouter_api_key,
            Provider::TypeSafe => &self.env.typesafe_api_key,
        };
        if let Some(k) = non_empty(own) {
            return Some(k.to_owned());
        }
        match self.per_provider(p, "api_key") {
            Some(k) => Some(k.to_owned()),
            None => None,
        }
    }

    pub fn model(&self, p: Provider, flag: Option<&str>) -> (r: String)
        ensures
            r@ == self@.model(p, opt_str(flag)),
    {
        if let Some(m) = flag {
            return m.to_owned();
        }
        if let Some(m) = non_empty(&self.env.jevi_model) {
            return m.to_owned();
        }
        match self.per_provider(p, "model") {
            Some(m) => m.to_owned(),
            None => p.default_model().to_owned(),
        }
    }

    pub fn url(&self, p: Provider) -> (r: String)
        ensures
            r@ == self@.url(p),
    {
        match self.per_provider(p, "base_url") {
            Some(u) => u.to_owned(),
            None => p.default_url().to_owned(),
        }
    }

    pub fn timeout_ms(&self, flag: Option<u64>) -> (r: u64)
        ensures
            r == self@.timeout_ms(flag),
    {
        if let Some(t) = flag {
            return t;
        }
        if let Some(raw) = &self.env.jevi_timeout_ms {
            if let Some(t) = text::parse_whole(raw.as_str()) {
                return t;
            }
        }
        if let Some(v) = self.root.get("timeout_ms") {
            if let Some(t) = v.as_u64() {
                return t;
            }
        }
        3000
    }

    /// Question sets are looked up project-local first, so a repo can carry its own
    /// thresholds, then globally. Returns the text and where it came from.
    pub fn resolve_set(&self, name: &str, found: &SetFiles) -> (r: Result<(String, String), Error>)
        ensures
            match r {
                Ok(t) => resolved(self@.env, name@, found@) == Ok::<(Seq<char>, Seq<char>), ErrorView>((t.0@, t.1@)),
                Err(e) => resolved(self@.env, name@, found@) == Err::<(Seq<char>, Seq<char>), ErrorView>(e@),
            },
    {
        if let Some(direct) = &found.direct {
            return match direct {
                Ok(t) => Ok((t.clone(), name.to_owned())),
                Err(m) => Err(Error::invalid("question_file", text::cat3(name, ": ", m.as_str()).as_str())),
            };
        }
        if has_slash(name) {
            return Err(Error::invalid("question_file", text::cat(name, ": no such file").as_str()));
        }
        if let Some(t) = &found.local {
            return Ok((t.clone(), local_set(name)));
        }
        if let Some(t) = &found.shared {
            return Ok((t.clone(), shared_set(&self.env, name)));
        }
        Err(
            Error::invalid(
                "question_file",
                text::cat5(
                    "no question set `",
                    name,
                    "` (looked in ./.jevi/ and ",
                    questions_dir(&self.env).as_str(),
                    ")",
                ).as_str(),
            ),
        )
    }
}

/// What a stored configuration holds before a key is put into it: an object in any case.
pub open spec fn stored_entries(root: JsonView) -> Seq<(Seq<char>, JsonView)> {
    match root {
        JsonView::Object(m) => m,
        _ => Seq::empty(),
    }
}

/// What a stored configuration holds for one provider.
pub open spec fn stored_slot(root: JsonView, p: Provider) -> Seq<(Seq<char>, JsonView)> {
    match lookup(stored_entries(root), p.spec_name()) {
        Some(slot) => stored_entries(slot),
        None => Seq::empty(),
    }
}

/// A stored configuration has room for a provider's key: what stands under the provider's
/// name is an object, null or nothing.
pub open spec fn has_room(root: JsonView, p: Provider) -> bool {
    match lookup(stored_entries(root), p.spec_name()) {
        Some(JsonView::Object(_)) => true,
        Some(JsonView::Null) => true,
        Some(_) => false,
        None => true,
    }
}

/// A stored configuration with a provider's key put into it; all else stays where it was.
pub open spec fn keyed(root: JsonView, p: Provider, key: Seq<char>) -> JsonView {
    JsonView::Object(
        with(
            stored_entries(root),
            p.spec_name(),
            JsonView::Object(with(stored_slot(root, p), "api_key"@, JsonView::Text(key))),
        ),
    )
}

/// Whether a stored configuration has room for a provider's key.
pub fn can_hold_key(root: &Json, p: Provider) -> (r: bool)
    ensures
        r == has_room(root@, p),
{
    match root.get(p.name()) {
        Some(Json::Object(_)) => true,
        Some(Json::Null) => true,
        Some(_) => false,
        None => true,
    }
}

/// Puts a provider's key into a stored configuration.
pub fn with_key(root: &Json, p: Provider, key: &str) -> (r: Json)
    requires
        has_room(root@, p),
    ensures
        r@ == keyed(root@, p, key@),
{
    let entries = match root {
        Json::Object(o) => o.clone(),
        _ => Object::new(),
    };
    let slot = match entries.get(p.name()) {
        Some(Json::Object(o)) => o.clone(),
        _ => Object::new(),
    };
    let slot = slot.with("api_key", Json::Text(key.to_owned()));
    Json::Object(entries.with(p.name(), Json::Object(slot)))
}

proof fn lemma_keyed(root: JsonView, p: Provider, key: Seq<char>)
    requires
        sound(root, DEEPEST as nat),
    ensures
        sound(keyed(root, p, key), DEEPEST as nat),
{
    let m = stored_entries(root);
    let none = Seq::<(Seq<char>, JsonView)>::empty();
    lemma_sound_object(none, DEEPEST as nat);
    lemma_sound_object(none, (DEEPEST - 1) as nat);
    lemma_sound_field(JsonView::Object(m), p.spec_name(), DEEPEST as nat);
    let s = stored_slot(root, p);
    lemma_sound_with(s, "api_key"@, JsonView::Text(key), (DEEPEST - 1) as nat);
    let slot = JsonView::Object(with(s, "api_key"@, JsonView::Text(key)));
    lemma_sound_with(m, p.spec_name(), slot, DEEPEST as nat);
}

/// What a configuration file that may be there holds; an unreadable one holds nothing.
pub open spec fn stored_of(reading: Option<Result<JsonView, Seq<char>>>) -> JsonView {
    match reading {
        Some(Ok(root)) => root,
        _ => JsonView::Object(Seq::empty()),
    }
}

/// The text of the configuration file after a provider's key is put into it, given its text
/// before if it could be read. Nothing if something that is no object stands where the
/// provider's settings belong.
pub fn config_with_key(file: Option<&str>, p: Provider, key: &str) -> (r: Option<Result<String, Error>>)
    ensures
        match r {
            Some(Ok(t)) => has_room(stored_of(file_reading(opt_str(file))), p) && t@ == json_pretty(
                keyed(stored_of(file_reading(opt_str(file))), p, key@),
            ) && json_reading(t@) == Ok::<JsonView, Seq<char>>(
                keyed(stored_of(file_reading(opt_str(file))), p, key@),
            ),
            Some(Err(_)) => false,
            None => !has_room(stored_of(file_reading(opt_str(file))), p),
        },
{
    let root = match file {
        Some(raw) => match Json::parse(raw) {
            Ok(root) => root,
            Err(_) => Json::Object(Object::new()),
        },
        None => Json::Object(Object::new()),
    };
    proof {
        lemma_sound_object(Seq::empty(), DEEPEST as nat);
    }
    if !can_hold_key(&root, p) {
        return None;
    }
    proof {
        lemma_keyed(root@, p, key@);
        lemma_faithful_is_settled(keyed(root@, p, key@));
    }
    match with_key(&root, p, key).to_pretty() {
        Ok(body) => Some(Ok(body)),
        Err(m) => Some(Err(Error::invalid("config", m.as_str()))),
    }
}

proof fn lemma_names()
    ensures
        "openrouter"@ != "typesafe"@,
        forall|p: Provider| #[trigger] p.spec_name() != "provider"@ && p.spec_name() != "timeout_ms"@,
{
    reveal_strlit("openrouter");
    reveal_strlit("typesafe");
    reveal_strlit("provider");
    reveal_strlit("timeout_ms");
    assert("openrouter"@.len() == 10 && "typesafe"@.len() == 8 && "provider"@.len() == 8 && "timeout_ms"@.len() == 10);
    assert("openrouter"@[0] == 'o' && "timeout_ms"@[0] == 't');
    assert("typesafe"@[0] == 't' && "provider"@[0] == 'p');
}

/// A stored key is read back: once a provider's key has been put into the configuration
/// file and the environment names no other, that key is the provider's credential.
pub proof fn lemma_stored_key_is_found(env: EnvView, root: JsonView, p: Provider, key: Seq<char>, written: Seq<char>)
    requires
        distinct(stored_entries(root)),
        distinct(stored_slot(root, p)),
        key != ""@,
        json_reading(written) == Ok::<JsonView, Seq<char>>(keyed(root, p, key)),
    ensures
        config_of(env, file_reading(Some(written))) matches Ok(c) && c.own(p, "api_key"@) == Some(key) && ((filled(
            env.jevi_api_key,
        ) is None && c.env_key(p) is None) ==> c.key(p) == Some(key)),
{
    let slot = with(stored_slot(root, p), "api_key"@, JsonView::Text(key));
    lemma_with(stored_slot(root, p), "api_key"@, JsonView::Text(key), "api_key"@);
    lemma_with(stored_entries(root), p.spec_name(), JsonView::Object(slot), p.spec_name());
}

/// Storing a key changes nothing else: every other setting of the provider, every setting of
/// the other one, and the settings outside both read as before.
pub proof fn lemma_storing_keeps_the_rest(
    before: ConfigView,
    p: Provider,
    key: Seq<char>,
    other: Provider,
    setting: Seq<char>,
    flag: Option<u64>,
)
    requires
        distinct(stored_entries(before.root)),
        distinct(stored_slot(before.root, p)),
    ensures
        other != p || setting != "api_key"@ ==> (ConfigView { root: keyed(before.root, p, key), ..before }).own(
            other,
            setting,
        ) == before.own(other, setting),
        field(keyed(before.root, p, key), "provider"@) == field(before.root, "provider"@),
        (ConfigView { root: keyed(before.root, p, key), ..before }).timeout_ms(flag) == before.timeout_ms(flag),
{
    lemma_names();
    let m = stored_entries(before.root);
    let s = stored_slot(before.root, p);
    let slot = with(s, "api_key"@, JsonView::Text(key));
    lemma_with(s, "api_key"@, JsonView::Text(key), setting);
    lemma_with(m, p.spec_name(), JsonView::Object(slot), other.spec_name());
    lemma_with(m, p.spec_name(), JsonView::Object(slot), "provider"@);
    lemma_with(m, p.spec_name(), JsonView::Object(slot), "timeout_ms"@);
}

/// What is asked for on the command line always wins; what the environment says comes next,
/// then the file, and what the provider ships with last.
pub proof fn lemma_precedence(c: ConfigView, p: Provider, flag: Seq<char>, limit: u64)
    ensures
        c.provider(Some(flag)) == named(flag),
        c.model(p, Some(flag)) == flag,
        c.timeout_ms(Some(limit)) == limit,
        filled(c.env.jevi_provider) matches Some(e) ==> c.provider(None) == named(e),
        filled(c.env.jevi_model) matches Some(e) ==> c.model(p, None) == e,
        filled(c.env.jevi_model) is None ==> c.model(p, None) == (match c.own(p, "model"@) {
            Some(m) => m,
            None => p.spec_default_model(),
        }),
        filled(c.env.jevi_api_key) matches Some(k) ==> c.key(p) == Some(k),
        filled(c.env.jevi_api_key) is None && c.env_key(p) is Some ==> c.key(p) == c.env_key(p),
        filled(c.env.jevi_api_key) is None && c.env_key(p) is None ==> c.key(p) == c.own(p, "api_key"@),
{
}

/// Unless told otherwise, the provider that is asked is one that has a credential, where
/// there is one at all.
pub proof fn lemma_the_provider_with_a_key_is_asked(c: ConfigView)
    requires
        filled(c.env.jevi_provider) is None,
        text_of(field(c.root, "provider"@)) is None,
    ensures
        c.provider(None) matches Ok(p) && (c.key(p) is None ==> forall|q: Provider| (#[trigger] c.key(q)) is None),
        c.key(Provider::OpenRouter) is Some ==> c.provider(None) == Ok::<Provider, ErrorView>(Provider::OpenRouter),
{
}

/// A question set that is named and not a path is looked up near first: the project's own
/// wins over the one for everywhere.
pub proof fn lemma_the_project_comes_first(e: EnvView, name: Seq<char>, found: SetFilesView, own: Seq<char>)
    requires
        found.direct is None,
        !name.contains('/'),
        found.local == Some(own),
    ensures
        resolved(e, name, found) == Ok::<(Seq<char>, Seq<char>), ErrorView>((own, local_of(name))),
{
}

}
