//! Which settings and which credential apply, and where they are kept.

use vstd::prelude::*;

use crate::cli::{is_soft, Ask, Command};
use crate::codec::json_reading;
use crate::command::{diagnosis, key_of, mode_line};
use crate::config::{
    config_of, dir_of, file_reading, has_room, joined, keyed, local_of, path_of, questions_dir_of, resolved, shared_of, stored_entries,
    stored_of, stored_slot, ConfigView, EnvView, SetFilesView,
};
use crate::error::ErrorView;
use crate::json::{distinct, field, lemma_with, lookup, with, JsonView};
use crate::laws::judging::begins_with;
use crate::notes::is_on;
use crate::provider::{named, Provider};
use crate::text::{octal4_of, trimmed, whole_of};

verus! {

/// A text that is there and not empty.
pub open spec fn nonempty(s: Option<Seq<char>>) -> bool {
    s is Some && s->0.len() > 0
}

/// The name of a provider, in the file and on the command line.
pub open spec fn called(p: Provider) -> Seq<char> {
    if p == Provider::OpenRouter {
        "openrouter"@
    } else {
        "typesafe"@
    }
}

/// A text that the file holds for a provider.
pub open spec fn filed(root: JsonView, p: Provider, key: Seq<char>) -> Option<Seq<char>> {
    match field(root, called(p)) {
        Some(slot) => match field(slot, key) {
            Some(JsonView::Text(t)) => Some(t),
            _ => None,
        },
        None => None,
    }
}

/// The environment variable that holds the key of one provider.
pub open spec fn own_variable(env: EnvView, p: Provider) -> Option<Seq<char>> {
    if p == Provider::OpenRouter {
        env.openrouter_api_key
    } else {
        env.typesafe_api_key
    }
}

proof fn lemma_empty(s: Seq<char>)
    ensures
        s == ""@ <==> s.len() == 0,
{
    reveal_strlit("");
    if s.len() == 0 {
        assert(s =~= ""@);
    }
}

proof fn lemma_empties(c: ConfigView, p: Provider, key: Seq<char>)
    ensures
        c.env.jevi_api_key matches Some(s) ==> (s == ""@ <==> s.len() == 0),
        c.env.openrouter_api_key matches Some(s) ==> (s == ""@ <==> s.len() == 0),
        c.env.typesafe_api_key matches Some(s) ==> (s == ""@ <==> s.len() == 0),
        c.env.jevi_model matches Some(s) ==> (s == ""@ <==> s.len() == 0),
        c.env.jevi_provider matches Some(s) ==> (s == ""@ <==> s.len() == 0),
        filed(c.root, p, key) matches Some(s) ==> (s == ""@ <==> s.len() == 0),
{
    if let Some(s) = c.env.jevi_api_key {
        lemma_empty(s);
    }
    if let Some(s) = c.env.openrouter_api_key {
        lemma_empty(s);
    }
    if let Some(s) = c.env.typesafe_api_key {
        lemma_empty(s);
    }
    if let Some(s) = c.env.jevi_model {
        lemma_empty(s);
    }
    if let Some(s) = c.env.jevi_provider {
        lemma_empty(s);
    }
    if let Some(s) = filed(c.root, p, key) {
        lemma_empty(s);
    }
}

/// The two providers have the names, the addresses, the models and the variables that they are
/// documented with, and a provider is found by its own name and by no other.
pub proof fn lemma_the_two_providers(name: Seq<char>)
    ensures
        forall|p: Provider| #[trigger] p.spec_name() == called(p),
        named(name) matches Ok(p) ==> name == called(p),
        forall|p: Provider| #[trigger] called(p) == name ==> named(name) == Ok::<Provider, ErrorView>(p),
        named(name) matches Err(e) ==> (e matches ErrorView::Invalid { kind, message } && kind == "flags"@
            && begins_with(message, "unknown provider `"@ + name + "`"@)),
        Provider::OpenRouter.spec_default_url() == "https://openrouter.ai/api/alpha/decisions"@,
        Provider::TypeSafe.spec_default_url() == "https://api.typesafe.ai/v1/systemone"@,
        Provider::OpenRouter.spec_default_model() == "typesafe/jev-1.13"@,
        Provider::TypeSafe.spec_default_model() == "jev-latest"@,
        Provider::OpenRouter.spec_env_key() == "OPENROUTER_API_KEY"@,
        Provider::TypeSafe.spec_env_key() == "TYPESAFE_API_KEY"@,
{
    reveal_strlit("openrouter");
    reveal_strlit("typesafe");
    assert("openrouter"@.len() == 10 && "typesafe"@.len() == 8);
    assert forall|p: Provider| #[trigger] called(p) == name implies named(name) == Ok::<Provider, ErrorView>(p) by {
        match p {
            Provider::OpenRouter => {},
            Provider::TypeSafe => {},
        }
    }
    if let Err(e) = named(name) {
        reveal_strlit("`");
        reveal_strlit("` (openrouter, typesafe)");
        let head = "unknown provider `"@ + name + "`"@;
        let message = e->Invalid_message;
        assert forall|i: int| 0 <= i < head.len() implies #[trigger] message[i] == head[i] by {
            assert(message.take(head.len() as int) =~= head);
            assert(message.take(head.len() as int)[i] == message[i]);
        }
    }
}

/// The credential for a provider is the one that is set for whatever provider, else the one in
/// its own variable, else the one in the file. Empty ones do not count.
pub proof fn lemma_which_key_applies(c: ConfigView, p: Provider)
    ensures
        nonempty(c.env.jevi_api_key) ==> c.key(p) == c.env.jevi_api_key,
        !nonempty(c.env.jevi_api_key) && nonempty(own_variable(c.env, p)) ==> c.key(p) == own_variable(c.env, p),
        !nonempty(c.env.jevi_api_key) && !nonempty(own_variable(c.env, p)) && nonempty(filed(c.root, p, "api_key"@))
            ==> c.key(p) == filed(c.root, p, "api_key"@),
        !nonempty(c.env.jevi_api_key) && !nonempty(own_variable(c.env, p)) && !nonempty(filed(c.root, p, "api_key"@))
            ==> c.key(p) is None,
{
    lemma_empties(c, p, "api_key"@);
}

/// The model is the one on the command line, else the one in the environment, else the one that
/// the file has for the provider, else the provider's own.
pub proof fn lemma_which_model_applies(c: ConfigView, p: Provider, flag: Option<Seq<char>>)
    ensures
        flag matches Some(m) ==> c.model(p, flag) == m,
        flag is None && nonempty(c.env.jevi_model) ==> c.model(p, flag) == c.env.jevi_model->0,
        flag is None && !nonempty(c.env.jevi_model) && nonempty(filed(c.root, p, "model"@)) ==> c.model(p, flag)
            == filed(c.root, p, "model"@)->0,
        flag is None && !nonempty(c.env.jevi_model) && !nonempty(filed(c.root, p, "model"@)) ==> c.model(p, flag) == (
        if p == Provider::OpenRouter {
            "typesafe/jev-1.13"@
        } else {
            "jev-latest"@
        }),
{
    lemma_empties(c, p, "model"@);
}

/// A provider is asked at the address that the file has for it, else at its own.
pub proof fn lemma_which_address_applies(c: ConfigView, p: Provider)
    ensures
        nonempty(filed(c.root, p, "base_url"@)) ==> c.url(p) == filed(c.root, p, "base_url"@)->0,
        !nonempty(filed(c.root, p, "base_url"@)) ==> c.url(p) == (if p == Provider::OpenRouter {
            "https://openrouter.ai/api/alpha/decisions"@
        } else {
            "https://api.typesafe.ai/v1/systemone"@
        }),
{
    lemma_empties(c, p, "base_url"@);
}

/// The name of the provider is the one on the command line, else the one in the environment,
/// else the one in the file. Where none is named, TypeSafe is asked exactly if it has a
/// credential and OpenRouter has none.
pub proof fn lemma_which_provider_applies(c: ConfigView, flag: Option<Seq<char>>)
    ensures
        flag matches Some(name) ==> c.provider(flag) == named(name),
        flag is None && nonempty(c.env.jevi_provider) ==> c.provider(flag) == named(c.env.jevi_provider->0),
        flag is None && !nonempty(c.env.jevi_provider) ==> match field(c.root, "provider"@) {
            Some(JsonView::Text(name)) => c.provider(flag) == named(name),
            _ => c.provider(flag) == Ok::<Provider, ErrorView>(
                if c.key(Provider::TypeSafe) is Some && c.key(Provider::OpenRouter) is None {
                    Provider::TypeSafe
                } else {
                    Provider::OpenRouter
                },
            ),
        },
{
    lemma_empties(c, Provider::OpenRouter, ""@);
}

/// The time that a call may take is the one on the command line, else the one in the environment
/// if it is a whole number, else the one in the file if it is, else 3000 milliseconds.
pub proof fn lemma_which_time_applies(c: ConfigView, flag: Option<u64>)
    ensures
        flag matches Some(t) ==> c.timeout_ms(flag) == t,
        flag is None ==> {
            let set = match c.env.jevi_timeout_ms {
                Some(s) => whole_of(s),
                None => None,
            };
            &&& set matches Some(t) ==> c.timeout_ms(flag) == t
            &&& set is None ==> match field(c.root, "timeout_ms"@) {
                Some(JsonView::Number(n)) => match n.whole {
                    Some(t) => c.timeout_ms(flag) == t,
                    None => c.timeout_ms(flag) == 3000,
                },
                _ => c.timeout_ms(flag) == 3000,
            }
        },
{
}

/// A file that is there must be JSON, and its settings are what it says; without a file there
/// are no settings but the environment's.
pub proof fn lemma_which_file_applies(env: EnvView, j: JsonView, m: Seq<char>)
    ensures
        config_of(env, Some(Ok(j))) == Ok::<ConfigView, ErrorView>(ConfigView { root: j, loaded: true, env }),
        config_of(env, None) matches Ok(c) && c.env == env && !c.loaded && forall|k: Seq<char>|
            (#[trigger] field(c.root, k)) is None,
        config_of(env, Some(Err(m))) == Err::<ConfigView, ErrorView>(
            ErrorView::Invalid { kind: "config"@, message: path_of(env) + ": "@ + m },
        ),
{
}

/// One path below another, with one separator between them.
pub open spec fn below(base: Seq<char>, rest: Seq<char>) -> Seq<char> {
    if base.len() > 0 && base[base.len() - 1] != '/' {
        base + "/"@ + rest
    } else {
        base + rest
    }
}

proof fn lemma_below(base: Seq<char>, rest: Seq<char>)
    requires
        rest.len() > 0,
        rest[0] != '/',
    ensures
        joined(base, rest) == below(base, rest),
{
    reveal_strlit("/");
    assert(!"/"@.is_prefix_of(rest)) by {
        if "/"@.is_prefix_of(rest) {
            assert(rest.subrange(0, 1)[0] == "/"@[0]);
        }
    }
    if base.len() == 0 {
        assert(base + rest =~= rest);
    }
}

/// The configuration is in the file that the environment names, else in `bitomule/jevi` below
/// the directory for configurations, which is `.config` in the home directory where nothing else
/// is said. The question sets for everywhere are in `questions` beside it.
pub proof fn lemma_where_things_are(e: EnvView)
    ensures
        ({
            let home = match e.home {
                Some(h) => h,
                None => "."@,
            };
            let dir = if nonempty(e.xdg_config_home) {
                below(e.xdg_config_home->0, "bitomule/jevi"@)
            } else {
                below(home, ".config/bitomule/jevi"@)
            };
            &&& dir_of(e) == dir
            &&& nonempty(e.jevi_config) ==> path_of(e) == e.jevi_config->0
            &&& !nonempty(e.jevi_config) ==> path_of(e) == dir + "/"@ + "config.json"@
            &&& questions_dir_of(e) == dir + "/"@ + "questions"@
        }),
{
    reveal_strlit("bitomule/jevi");
    reveal_strlit(".config/bitomule/jevi");
    reveal_strlit("config.json");
    reveal_strlit("questions");
    let home = match e.home {
        Some(h) => h,
        None => "."@,
    };
    if let Some(x) = e.xdg_config_home {
        lemma_empty(x);
        lemma_below(x, "bitomule/jevi"@);
    }
    if let Some(x) = e.jevi_config {
        lemma_empty(x);
    }
    lemma_below(home, ".config/bitomule/jevi"@);
    let dir = dir_of(e);
    assert(dir[dir.len() - 1] == 'i');
    lemma_below(dir, "config.json"@);
    lemma_below(dir, "questions"@);
}

/// A question set of some name is in the file of that name, near in `.jevi` or for everywhere.
pub proof fn lemma_where_a_set_is(e: EnvView, name: Seq<char>)
    requires
        name.len() > 0,
        name[0] != '/',
    ensures
        local_of(name) == ".jevi"@ + "/"@ + (name + ".json"@),
        shared_of(e, name) == questions_dir_of(e) + "/"@ + (name + ".json"@),
{
    reveal_strlit(".jevi");
    reveal_strlit("questions");
    lemma_where_things_are(e);
    let file = name + ".json"@;
    assert(file[0] == name[0]);
    lemma_below(".jevi"@, file);
    let dir = questions_dir_of(e);
    assert(dir[dir.len() - 1] == 's');
    lemma_below(dir, file);
}

/// A set is looked for as a path first, then near, then for everywhere, and the first that is
/// there is taken, from where it was found. A path that could not be read, a path that is not
/// there, and a name that is nowhere are the caller's fault.
pub proof fn lemma_which_set_is_taken(e: EnvView, name: Seq<char>, found: SetFilesView)
    ensures
        match found.direct {
            Some(Ok(t)) => resolved(e, name, found) == Ok::<(Seq<char>, Seq<char>), ErrorView>((t, name)),
            Some(Err(m)) => resolved(e, name, found) == Err::<(Seq<char>, Seq<char>), ErrorView>(
                ErrorView::Invalid { kind: "question_file"@, message: name + ": "@ + m },
            ),
            None => if exists|i: int| 0 <= i < name.len() && name[i] == '/' {
                resolved(e, name, found) == Err::<(Seq<char>, Seq<char>), ErrorView>(
                    ErrorView::Invalid { kind: "question_file"@, message: name + ": no such file"@ },
                )
            } else if found.local is Some {
                resolved(e, name, found) == Ok::<(Seq<char>, Seq<char>), ErrorView>(
                    (found.local->0, local_of(name)),
                )
            } else if found.shared is Some {
                resolved(e, name, found) == Ok::<(Seq<char>, Seq<char>), ErrorView>(
                    (found.shared->0, shared_of(e, name)),
                )
            } else {
                resolved(e, name, found) matches Err(ErrorView::Invalid { kind, message }) && kind == "question_file"@
                    && begins_with(message, "no question set `"@ + name + "`"@)
            },
        },
{
    if resolved(e, name, found) is Err && found.direct is None && !name.contains('/') {
        reveal_strlit("`");
        reveal_strlit("` (looked in ./.jevi/ and ");
        let head = "no question set `"@ + name + "`"@;
        let message = resolved(e, name, found)->Err_0->Invalid_message;
        assert forall|i: int| 0 <= i < head.len() implies #[trigger] message[i] == head[i] by {
            assert(message.take(head.len() as int) =~= head);
            assert(message.take(head.len() as int)[i] == message[i]);
        }
    }
}

/// A key is stored under `api_key` of its provider; every other setting of the provider and
/// every setting outside it reads as before.
pub proof fn lemma_where_a_key_is_stored(
    root: Seq<(Seq<char>, JsonView)>,
    p: Provider,
    key: Seq<char>,
    other: Seq<char>,
)
    requires
        distinct(root),
        lookup(root, called(p)) matches Some(JsonView::Object(m)) ==> distinct(m),
    ensures
        ({
            let after = keyed(JsonView::Object(root), p, key);
            &&& filed(after, p, "api_key"@) == Some(key)
            &&& other != called(p) ==> field(after, other) == lookup(root, other)
            &&& other != "api_key"@ ==> (field(after, called(p)) matches Some(slot) && match lookup(root, called(p)) {
                Some(JsonView::Object(m)) => field(slot, other) == lookup(m, other),
                _ => field(slot, other) is None,
            })
        }),
{
    let s = stored_slot(JsonView::Object(root), p);
    let slot = with(s, "api_key"@, JsonView::Text(key));
    lemma_with(s, "api_key"@, JsonView::Text(key), other);
    lemma_with(root, p.spec_name(), JsonView::Object(slot), other);
    lemma_with(root, p.spec_name(), JsonView::Object(slot), called(p));
}

/// There is room for a key exactly if nothing, null or an object stands under its provider. A
/// configuration that is no object counts as empty.
pub proof fn lemma_when_there_is_room(root: JsonView, p: Provider)
    ensures
        has_room(root, p) <==> {
            ||| field(root, called(p)) is None
            ||| field(root, called(p)) == Some(JsonView::Null)
            ||| field(root, called(p)) matches Some(JsonView::Object(_))
        },
        !(root is Object) ==> stored_entries(root).len() == 0,
{
}

/// A key that is entered is stored without the white space around it; nothing but white space is
/// no key.
pub proof fn lemma_which_key_is_stored(t: Seq<char>, m: Seq<char>)
    ensures
        key_of(Ok(t)) is Ok <==> trimmed(t).len() > 0,
        key_of(Ok(t)) matches Ok(k) ==> k == trimmed(t),
        key_of(Ok(t)) matches Err(e) ==> (e matches ErrorView::Invalid { kind, .. } && kind == "stdin"@),
        key_of(Err(m)) == Err::<Seq<char>, ErrorView>(ErrorView::Invalid { kind: "stdin"@, message: m }),
{
}

/// The doctor says which file and which provider apply, whether there is a key, and which model,
/// address and directory, each in its own line and in this order; and at the end whether
/// everything is switched off.
pub proof fn lemma_what_the_doctor_says(cfg: ConfigView, p: Provider, mode: Option<u32>)
    ensures
        ({
            let file = "config:    "@ + path_of(cfg.env) + (if cfg.loaded {
                " (found)\n"@
            } else {
                " (absent)\n"@
            });
            let rest = "provider:  "@ + called(p) + "\n"@ + (if cfg.key(p) is Some {
                "key:       present\n"@
            } else {
                "key:       MISSING\n"@
            }) + ("model:     "@ + cfg.model(p, None) + "\n"@) + ("url:       "@ + cfg.url(p) + "\n"@) + (
            "questions: "@ + questions_dir_of(cfg.env) + "\n"@);
            let off = if is_on(cfg.env.jevi_disable) {
                "JEVI_DISABLE is set: every `ask` will return no answer.\n"@
            } else {
                Seq::empty()
            };
            diagnosis(cfg, p, mode) == file + (if mode is Some && cfg.loaded {
                mode_line(mode->0)
            } else {
                Seq::empty()
            }) + rest + off
        }),
{
    reveal_strlit("");
    reveal_strlit(" (");
    reveal_strlit("found");
    reveal_strlit("absent");
    reveal_strlit(")\n");
    reveal_strlit(" (found)\n");
    reveal_strlit(" (absent)\n");
    reveal_strlit("key:       ");
    reveal_strlit("present");
    reveal_strlit("MISSING");
    reveal_strlit("\n");
    reveal_strlit("key:       present\n");
    reveal_strlit("key:       MISSING\n");
    assert(" ("@ + "found"@ + ")\n"@ =~= " (found)\n"@);
    assert(" ("@ + "absent"@ + ")\n"@ =~= " (absent)\n"@);
    assert("key:       "@ + "present"@ + "\n"@ =~= "key:       present\n"@);
    assert("key:       "@ + "MISSING"@ + "\n"@ =~= "key:       MISSING\n"@);
    let file = "config:    "@ + path_of(cfg.env) + (if cfg.loaded {
        " (found)\n"@
    } else {
        " (absent)\n"@
    });
    let plain = "config:    "@ + path_of(cfg.env) + " ("@ + (if cfg.loaded {
        "found"@
    } else {
        "absent"@
    }) + ")\n"@;
    if cfg.loaded {
        assert(plain =~= "config:    "@ + path_of(cfg.env) + (" ("@ + "found"@ + ")\n"@));
    } else {
        assert(plain =~= "config:    "@ + path_of(cfg.env) + (" ("@ + "absent"@ + ")\n"@));
    }
    assert(plain == file);
    let rest = "provider:  "@ + called(p) + "\n"@ + (if cfg.key(p) is Some {
        "key:       present\n"@
    } else {
        "key:       MISSING\n"@
    }) + ("model:     "@ + cfg.model(p, None) + "\n"@) + ("url:       "@ + cfg.url(p) + "\n"@) + ("questions: "@
        + questions_dir_of(cfg.env) + "\n"@);
    let off = if is_on(cfg.env.jevi_disable) {
        "JEVI_DISABLE is set: every `ask` will return no answer.\n"@
    } else {
        Seq::empty()
    };
    let m = if mode is Some && cfg.loaded {
        mode_line(mode->0)
    } else {
        Seq::empty()
    };
    assert(diagnosis(cfg, p, mode) =~= file + m + rest + off);
}

/// The doctor shows the permission bits of the file, in octal, and says of every mode but the
/// one that only the owner can use that it is not the one it wants.
pub proof fn lemma_which_mode_is_wanted(mode: u32)
    ensures
        mode % 512 == 384 ==> mode_line(mode) == "mode:      "@ + octal4_of((mode % 512) as nat) + "\n"@,
        mode % 512 != 384 ==> mode_line(mode) == "mode:      "@ + octal4_of((mode % 512) as nat) + "  (want 0600)\n"@,
{
    reveal_strlit("  (want 0600)");
    reveal_strlit("  (want 0600)\n");
    reveal_strlit("");
    reveal_strlit("\n");
    assert("  (want 0600)"@ + "\n"@ =~= "  (want 0600)\n"@);
    if mode % 512 == 384 {
        assert(mode_line(mode) =~= "mode:      "@ + octal4_of((mode % 512) as nat) + "\n"@);
    } else {
        assert(mode_line(mode) =~= "mode:      "@ + octal4_of((mode % 512) as nat) + ("  (want 0600)"@ + "\n"@));
    }
}

/// The settings come from the text of the file, read as JSON.
pub proof fn lemma_the_file_is_read_as_json(t: Seq<char>)
    ensures
        file_reading(Some(t)) == Some(json_reading(t)),
        file_reading(None) is None,
{
}

/// A key is put into what the file holds; a file that is not there or is no JSON holds nothing.
pub proof fn lemma_what_a_key_is_put_into(j: JsonView, m: Seq<char>)
    ensures
        stored_of(Some(Ok(j))) == j,
        stored_of(Some(Err(m))) == JsonView::Object(Seq::empty()),
        stored_of(None) == JsonView::Object(Seq::empty()),
{
}

/// One path below another is the two with one separator between them; one that starts at the
/// root stays as it is.
pub proof fn lemma_one_path_below_another(base: Seq<char>, rest: Seq<char>)
    requires
        rest.len() > 0,
    ensures
        rest[0] == '/' ==> joined(base, rest) == rest,
        rest[0] != '/' ==> joined(base, rest) == below(base, rest),
{
    reveal_strlit("/");
    if rest[0] == '/' {
        assert(rest.subrange(0, 1) =~= "/"@);
    } else {
        lemma_below(base, rest);
    }
}

/// Soft mode is on exactly if an `ask` asks for it.
pub proof fn lemma_when_soft_mode_is_on(a: Ask, command: Command)
    ensures
        is_soft(Command::Ask(a)) == a.soft,
        !(command is Ask) ==> !is_soft(command),
{
}

}
