use jevi::config::{config_with_key, join, local_set, questions_dir, shared_set, SetFiles};
use jevi::{config_dir, config_path, Config, Env, Json, Provider};

fn some(s: &str) -> Option<String> {
    Some(s.to_string())
}

#[test]
fn paths_are_joined_with_one_separator() {
    assert_eq!(join("a", "b"), "a/b");
    assert_eq!(join("a/", "b"), "a/b");
    assert_eq!(join("", "b"), "b");
    assert_eq!(join("/", "b"), "/b");
    assert_eq!(join("a", "/b"), "/b");
}

#[test]
fn the_config_is_where_the_environment_says() {
    let home = Env {
        home: some("/home/me"),
        ..Env::default()
    };
    assert_eq!(config_dir(&home), "/home/me/.config/bitomule/jevi");
    assert_eq!(config_path(&home), "/home/me/.config/bitomule/jevi/config.json");
    assert_eq!(questions_dir(&home), "/home/me/.config/bitomule/jevi/questions");
    let xdg = Env {
        home: some("/home/me"),
        xdg_config_home: some("/x"),
        ..Env::default()
    };
    assert_eq!(config_path(&xdg), "/x/bitomule/jevi/config.json");
    let own = Env {
        xdg_config_home: some("/x"),
        jevi_config: some("/own.json"),
        ..Env::default()
    };
    assert_eq!(config_path(&own), "/own.json");
    assert_eq!(config_dir(&own), "/x/bitomule/jevi");
    let empty = Env {
        home: some("/home/me"),
        xdg_config_home: some(""),
        jevi_config: some(""),
        ..Env::default()
    };
    assert_eq!(config_path(&empty), "/home/me/.config/bitomule/jevi/config.json");
    assert_eq!(config_dir(&Env::default()), "./.config/bitomule/jevi");
}

const FILE: &str = r#"{"provider":"typesafe","timeout_ms":1500,
    "openrouter":{"api_key":"or-file","model":"or-model","base_url":"http://or"},
    "typesafe":{"api_key":"","model":7}}"#;

fn loaded(env: Env) -> Config {
    Config::load(env, Some(FILE)).expect("loads")
}

#[test]
fn the_flag_wins_over_the_environment_and_that_over_the_file() {
    let env = || Env {
        jevi_provider: some("openrouter"),
        jevi_model: some("env-model"),
        jevi_timeout_ms: some("+900"),
        ..Env::default()
    };
    let c = loaded(env());
    assert_eq!(c.provider(Some("typesafe")).expect("known"), Provider::TypeSafe);
    assert_eq!(c.provider(None).expect("known"), Provider::OpenRouter);
    assert_eq!(c.model(Provider::OpenRouter, Some("flag")), "flag");
    assert_eq!(c.model(Provider::OpenRouter, None), "env-model");
    assert_eq!(c.timeout_ms(Some(5)), 5);
    assert_eq!(c.timeout_ms(None), 900);

    let c = loaded(Env::default());
    assert_eq!(c.provider(None).expect("known"), Provider::TypeSafe);
    assert_eq!(c.model(Provider::OpenRouter, None), "or-model");
    assert_eq!(c.model(Provider::TypeSafe, None), "jev-latest");
    assert_eq!(c.url(Provider::OpenRouter), "http://or");
    assert_eq!(c.url(Provider::TypeSafe), "https://api.typesafe.ai/v1/systemone");
    assert_eq!(c.timeout_ms(None), 1500);

    let c = Config::load(Env::default(), None).expect("loads");
    assert_eq!(c.provider(None).expect("known"), Provider::OpenRouter);
    assert_eq!(c.model(Provider::OpenRouter, None), "typesafe/jev-1.13");
    assert_eq!(c.timeout_ms(None), 3000);
    assert!(!c.loaded);
    assert!(loaded(Env::default()).loaded);
}

#[test]
fn an_empty_or_broken_setting_does_not_count() {
    let env = Env {
        jevi_provider: some(""),
        jevi_model: some(""),
        jevi_timeout_ms: some("soon"),
        jevi_api_key: some(""),
        openrouter_api_key: some(""),
        ..Env::default()
    };
    let c = loaded(env);
    assert_eq!(c.provider(None).expect("known"), Provider::TypeSafe);
    assert_eq!(c.model(Provider::OpenRouter, None), "or-model");
    assert_eq!(c.timeout_ms(None), 1500);
    assert_eq!(c.key_for(Provider::OpenRouter).as_deref(), Some("or-file"));
    assert_eq!(c.key_for(Provider::TypeSafe), None);
    let c = Config::load(Env::default(), Some(r#"{"timeout_ms":-1}"#)).expect("loads");
    assert_eq!(c.timeout_ms(None), 3000);
    let c = Config::load(Env::default(), Some(r#"{"provider":""}"#)).expect("loads");
    assert_eq!(c.provider(None).expect_err("unknown").code(), 5);
}

#[test]
fn a_key_comes_from_the_environment_first() {
    let env = Env {
        jevi_api_key: some("any"),
        openrouter_api_key: some("or"),
        ..Env::default()
    };
    let c = loaded(env);
    assert_eq!(c.key_for(Provider::OpenRouter).as_deref(), Some("any"));
    assert_eq!(c.key_for(Provider::TypeSafe).as_deref(), Some("any"));
    let env = Env {
        openrouter_api_key: some("or"),
        typesafe_api_key: some("ts"),
        ..Env::default()
    };
    let c = loaded(env);
    assert_eq!(c.key_for(Provider::OpenRouter).as_deref(), Some("or"));
    assert_eq!(c.key_for(Provider::TypeSafe).as_deref(), Some("ts"));
}

#[test]
fn the_provider_with_a_key_is_asked() {
    let with = |openrouter: Option<&str>, typesafe: Option<&str>| {
        let env = Env {
            openrouter_api_key: openrouter.map(str::to_string),
            typesafe_api_key: typesafe.map(str::to_string),
            ..Env::default()
        };
        Config::load(env, None).expect("loads").provider(None).expect("known")
    };
    assert_eq!(with(None, None), Provider::OpenRouter);
    assert_eq!(with(Some("k"), None), Provider::OpenRouter);
    assert_eq!(with(None, Some("k")), Provider::TypeSafe);
    assert_eq!(with(Some("k"), Some("k")), Provider::OpenRouter);
}

#[test]
fn a_config_that_is_not_json_is_invalid_input() {
    let env = Env {
        jevi_config: some("/c.json"),
        ..Env::default()
    };
    let e = Config::load(env, Some("{,}")).expect_err("fails");
    assert_eq!(e.kind(), "config");
    assert!(e.to_string().starts_with("invalid input (config: /c.json: key must be a string"));
    // Anything that is JSON will do, though it says nothing.
    let c = Config::load(Env::default(), Some("[1]")).expect("loads");
    assert!(c.loaded && c.key_for(Provider::OpenRouter).is_none());
}

fn found(direct: Option<Result<&str, &str>>, local: Option<&str>, shared: Option<&str>) -> SetFiles {
    SetFiles {
        direct: direct.map(|d| d.map(str::to_string).map_err(str::to_string)),
        local: local.map(str::to_string),
        shared: shared.map(str::to_string),
    }
}

#[test]
fn a_question_set_is_looked_up_near_first() {
    let env = || Env {
        home: some("/h"),
        ..Env::default()
    };
    assert_eq!(local_set("triage"), ".jevi/triage.json");
    assert_eq!(shared_set(&env(), "triage"), "/h/.config/bitomule/jevi/questions/triage.json");
    let c = loaded(env());
    let ok = |f: SetFiles| c.resolve_set("triage", &f).expect("is there");
    assert_eq!(ok(found(Some(Ok("d")), Some("l"), Some("s"))), ("d".to_string(), "triage".to_string()));
    assert_eq!(
        ok(found(None, Some("l"), Some("s"))),
        ("l".to_string(), ".jevi/triage.json".to_string())
    );
    assert_eq!(
        ok(found(None, None, Some("s"))),
        (
            "s".to_string(),
            "/h/.config/bitomule/jevi/questions/triage.json".to_string()
        )
    );
    let said = |name: &str, f: SetFiles| c.resolve_set(name, &f).expect_err("is not there").to_string();
    assert_eq!(
        said("triage", found(None, None, None)),
        "invalid input (question_file: no question set `triage` (looked in ./.jevi/ and \
         /h/.config/bitomule/jevi/questions))"
    );
    assert_eq!(
        said("triage", found(Some(Err("is a directory")), Some("l"), None)),
        "invalid input (question_file: triage: is a directory)"
    );
    assert_eq!(
        said("a/b.json", found(None, Some("l"), Some("s"))),
        "invalid input (question_file: a/b.json: no such file)"
    );
}

fn stored(file: Option<&str>, p: Provider, key: &str) -> String {
    config_with_key(file, p, key).expect("has room").expect("is written")
}

#[test]
fn a_stored_key_is_read_back() {
    for file in [None, Some("not json"), Some("[1,2]"), Some("{}"), Some(FILE), Some(r#"{"openrouter":null}"#)] {
        for p in [Provider::OpenRouter, Provider::TypeSafe] {
            let written = stored(file, p, "sk-\"new\"\n");
            let c = Config::load(Env::default(), Some(&written)).expect("loads");
            assert_eq!(c.key_for(p).as_deref(), Some("sk-\"new\"\n"));
        }
    }
}

#[test]
fn storing_a_key_changes_nothing_else() {
    let written = stored(Some(FILE), Provider::OpenRouter, "new");
    assert_eq!(
        Json::parse(&written).expect("is JSON").to_text(),
        r#"{"provider":"typesafe","timeout_ms":1500,"openrouter":{"api_key":"new","model":"or-model","base_url":"http://or"},"typesafe":{"api_key":"","model":7}}"#
    );
    assert_eq!(
        stored(None, Provider::TypeSafe, "k"),
        "{\n  \"typesafe\": {\n    \"api_key\": \"k\"\n  }\n}"
    );
}

#[test]
fn a_key_is_not_stored_over_something_else() {
    for slot in ["7", "\"text\"", "[]", "true"] {
        let file = format!(r#"{{"openrouter":{slot}}}"#);
        assert!(config_with_key(Some(&file), Provider::OpenRouter, "k").is_none());
        assert!(config_with_key(Some(&file), Provider::TypeSafe, "k").is_some());
    }
}
