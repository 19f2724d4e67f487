//! Checks of the contract a caller depends on: the exit codes, and the promise that a hook is
//! never broken. Nothing here touches the network: a config points at a port nothing listens
//! on, and every request comes back as what that looks like.

use jevi::cli::Ask;
use jevi::command::{
    call, check_enabled, doctor, ending, entered_key, exit_code, plan, probe, probed, raw_state, report, state_at, stored_line,
    usage_code, Plan, Report, StateAt, StateFound,
};
use jevi::config::SetFiles;
use jevi::http::{received, Exchange, Next, Post};
use jevi::{Config, Env, Error, Json, Notes, Provider, Verdict};

const SECOND: u128 = 1_000_000_000;

const OFFLINE: &str = r#"{"openrouter":{"api_key":"test","base_url":"http://127.0.0.1:9/decisions"}}"#;

fn nothing() -> SetFiles {
    SetFiles {
        direct: None,
        local: None,
        shared: None,
    }
}

fn quiet() -> Env {
    Env::default()
}

fn refused() -> Exchange {
    Exchange::Failure("io: Connection refused".into())
}

fn answered(body: &str) -> Exchange {
    Exchange::Response {
        code: 200,
        body: Ok(body.to_string()),
    }
}

fn post(timeout_ms: u64, reply: &dyn Fn() -> Exchange, sent: &mut u32) -> Result<Json, Error> {
    let mut post = Post::new(timeout_ms);
    let mut left = timeout_ms as u128 * 1_000_000;
    loop {
        post.ready(left)?;
        *sent += 1;
        left = left.saturating_sub(SECOND / 100);
        match post.settle(received(&reply()), left) {
            Next::Again => continue,
            Next::Done(done) => return done,
        }
    }
}

struct World {
    env: Env,
    config: Option<&'static str>,
    found: SetFiles,
}

fn offline() -> World {
    World {
        env: quiet(),
        config: Some(OFFLINE),
        found: nothing(),
    }
}

struct Ran {
    code: i32,
    out: String,
    err: String,
    sent: u32,
}

fn asked(a: &Ask, world: World, stdin: &str, reply: &dyn Fn() -> Exchange, sent: &mut u32, notes: &mut Notes) -> Result<Report, Error> {
    let plan = plan(a, world.env, world.config, &world.found, notes)?;
    let found = match state_at(a) {
        StateAt::Given(t) => StateFound::Given(t),
        StateAt::File(path) => StateFound::File {
            path,
            read: Err("no such file".into()),
        },
        StateAt::Stdin => StateFound::Piped(Ok(stdin.to_string())),
    };
    let raw = raw_state(found)?;
    let ready = call(a, &plan, &raw)?;
    let came = post(ready.request.timeout_ms, reply, sent);
    report(a, &plan, &ready, came, 412)
}

fn run(a: Ask, world: World, stdin: &str, reply: &dyn Fn() -> Exchange) -> Ran {
    let mut notes = Notes::new(&world.env.jevi_quiet);
    let mut sent = 0;
    let soft = a.soft;
    let done = asked(&a, world, stdin, reply, &mut sent, &mut notes);
    let end = ending(soft, done);
    let mut err = notes.said;
    err.extend(end.err);
    Ran {
        code: end.code,
        out: end.out,
        err: err.join("\n"),
        sent,
    }
}

fn urgent() -> Ask {
    Ask {
        instructions: Some("is this urgent".into()),
        ..Ask::default()
    }
}

fn clap_code(args: &[&str]) -> i32 {
    let ask = clap::Command::new("ask").arg(clap::Arg::new("instructions"));
    let jevi = clap::Command::new("jevi").version("0.2.0").subcommand(ask);
    let e = jevi.try_get_matches_from(args).expect_err("is no command");
    usage_code(matches!(
        e.kind(),
        clap::error::ErrorKind::DisplayHelp | clap::error::ErrorKind::DisplayVersion
    ))
}

#[test]
fn a_mistyped_flag_exits_5_and_never_2() {
    // A hook's exit 2 means "block this tool call", and clap's own code for a bad flag is 2.
    assert_eq!(
        clap_code(&["jevi", "ask", "is this urgent", "--nope"]),
        5,
        "a bad flag must be invalid input, not a block"
    );
}

#[test]
fn help_and_version_are_a_success() {
    assert_eq!(clap_code(&["jevi", "--help"]), 0);
    assert_eq!(clap_code(&["jevi", "--version"]), 0);
}

#[test]
fn an_unreachable_api_is_exit_4_so_a_caller_can_fall_back() {
    let a = Ask {
        timeout: Some(1200),
        ..urgent()
    };
    let ran = run(a, offline(), "the server is down", &refused);
    assert_eq!(ran.code, 4);
    assert!(ran.err.contains("no answer"));
    assert_eq!(ran.sent, 2);
}

#[test]
fn soft_turns_every_failure_into_exit_0_and_a_json_reason() {
    let a = Ask {
        soft: true,
        timeout: Some(1200),
        ..urgent()
    };
    let ran = run(a, offline(), "the server is down", &refused);
    assert_eq!(ran.code, 0, "a hook must never be broken by this binary");
    let doc = Json::parse(&ran.out).expect("soft mode always prints a JSON document");
    assert_eq!(doc.get("ok"), Some(&Json::Bool(false)));
    assert!(doc.get("error").and_then(|e| e.get("kind")).and_then(Json::as_str).is_some());
    assert!(ran.err.is_empty(), "soft mode stays quiet on stderr");
}

#[test]
fn an_empty_state_is_refused_without_a_round_trip() {
    let ran = run(urgent(), offline(), "   \n  ", &refused);
    assert_eq!(ran.code, 5);
    assert_eq!(ran.sent, 0);
}

#[test]
fn a_question_set_that_does_not_exist_names_where_it_looked() {
    let a = Ask {
        set: Some("nope".into()),
        ..Ask::default()
    };
    let ran = run(a, offline(), "text", &refused);
    assert_eq!(ran.code, 5);
    let err = ran.err;
    assert!(
        err.contains(".jevi"),
        "the error should say where it looked: {err}"
    );
}

#[test]
fn a_malformed_question_file_is_invalid_input_not_a_failed_call() {
    let a = Ask {
        set: Some("/tmp/jevi-bad.json".into()),
        ..Ask::default()
    };
    let world = World {
        found: SetFiles {
            direct: Some(Ok(r#"{"version":1,"questions":{"q":{"type":"nope"}}}"#.into())),
            ..nothing()
        },
        ..offline()
    };
    assert_eq!(run(a, world, "text", &refused).code, 5);
}

#[test]
fn a_question_and_a_set_together_is_refused() {
    let a = Ask {
        set: Some("whatever".into()),
        ..urgent()
    };
    assert_eq!(run(a, offline(), "text", &refused).code, 5);
}

#[test]
fn the_disable_switch_works_without_editing_the_caller() {
    let a = Ask {
        soft: true,
        ..urgent()
    };
    let world = World {
        env: Env {
            jevi_disable: Some("1".into()),
            ..Env::default()
        },
        ..offline()
    };
    let ran = run(a, world, "", &refused);
    assert_eq!(ran.code, 0);
    let doc = Json::parse(&ran.out).expect("json");
    assert_eq!(
        doc.get("error").and_then(|e| e.get("kind")).and_then(Json::as_str),
        Some("disabled")
    );
    assert_eq!(ran.sent, 0);
}

#[test]
fn doctor_reports_without_a_key_instead_of_failing() {
    for config in [OFFLINE, "{}"] {
        let cfg = Config::load(quiet(), Some(config)).expect("loads");
        let out = doctor(&cfg, None).expect("reports");
        assert!(out.contains("key:"));
    }
}

const YES: &str = r#"{"model":"m-1","answers":{"answer":{"type":"noul","noul":0.96}},"usage":{"cost":0.25}}"#;

#[test]
fn an_answer_is_shown_and_is_the_exit_code() {
    let ran = run(urgent(), offline(), "the server is down", &|| answered(YES));
    assert_eq!((ran.code, ran.out.as_str()), (0, "yes\t0.96\n"));
    assert_eq!(ran.sent, 1);
    let no = r#"{"answers":{"answer":{"type":"noul","noul":0.04}}}"#;
    let ran = run(urgent(), offline(), "x", &|| answered(no));
    assert_eq!((ran.code, ran.out.as_str()), (1, "no\t0.04\n"));
    let unsure = r#"{"answers":{"answer":{"type":"noul","noul":0.5}}}"#;
    let ran = run(urgent(), offline(), "x", &|| answered(unsure));
    assert_eq!((ran.code, ran.out.as_str()), (3, "unsure\t0.50\n"));
    let ran = run(urgent(), offline(), "x", &|| answered(r#"{"answers":{}}"#));
    assert_eq!((ran.code, ran.out.as_str()), (3, "unsure\t!incomplete_answer\n"));
}

#[test]
fn a_typed_yes_no_question_is_advised_on_unless_soft() {
    let ran = run(urgent(), offline(), "x", &|| answered(YES));
    assert!(ran.err.starts_with("jevi: question `answer` is a noul with no `criteria`"));
    let a = Ask {
        soft: true,
        ..urgent()
    };
    let ran = run(a, offline(), "x", &|| answered(YES));
    assert_eq!((ran.code, ran.err.as_str()), (0, ""));
}

#[test]
fn a_cut_is_reported_in_both_outputs() {
    let a = Ask {
        json: true,
        soft: true,
        max_chars: Some(50),
        ..urgent()
    };
    let ran = run(a, offline(), &"x".repeat(200), &|| answered(YES));
    let doc = Json::parse(&ran.out).expect("is JSON");
    assert_eq!(
        doc.get("truncated").expect("is there").to_text(),
        r#"{"kept_chars":50,"dropped_chars":150}"#
    );
    assert_eq!(
        ran.err,
        "jevi: the state was cut to 50 characters and 150 were dropped — this answer is about part of the \
         input. Raise --max-chars, or pass 0 to send it whole."
    );
    let a = Ask {
        json: true,
        soft: true,
        ..urgent()
    };
    let ran = run(a, offline(), "short", &|| answered(YES));
    assert!(ran.out.starts_with(r#"{"ok":true,"provider":"openrouter","model":"m-1","latency_ms":412,"#));
    assert!(Json::parse(&ran.out).expect("is JSON").get("truncated").is_none());
    assert!(ran.out.ends_with("}\n"));
}

#[test]
fn the_length_that_counts_is_the_length_that_was_sent() {
    let set = r#"{"max_chars":10,"questions":{"q":{"type":"noul","instructions":"i","criteria":{"true":"t","false":"f"},
        "decide":{"validated":{"max_chars":10}}}}}"#;
    let reply = || answered(r#"{"answers":{"q":{"type":"noul","noul":0.99}}}"#);
    let with = |max_chars: Option<usize>| {
        let a = Ask {
            set: Some("s".into()),
            max_chars,
            ..Ask::default()
        };
        let world = World {
            found: SetFiles {
                local: Some(set.into()),
                ..nothing()
            },
            ..offline()
        };
        run(a, world, &"x".repeat(40), &reply)
    };
    let ran = with(None);
    assert_eq!((ran.code, ran.out.as_str()), (0, "q\tyes\t0.99\n"));
    assert!(ran.err.contains("cut to 10 characters and 30 were dropped"));
    let ran = with(Some(0));
    assert_eq!((ran.code, ran.out.as_str()), (3, "q\tunsure\t0.99\t!length_mismatch\n"));
    assert_eq!(ran.err, "");
}

#[test]
fn verbose_and_raw_show_more() {
    let a = Ask {
        verbose: true,
        soft: true,
        ..urgent()
    };
    let ran = run(a, offline(), "x", &|| answered(YES));
    assert_eq!(ran.err, r#"jevi: 412ms {"cost":0.25}"#);
    let a = Ask {
        raw: true,
        soft: true,
        ..urgent()
    };
    let ran = run(a, offline(), "x", &|| answered(YES));
    assert_eq!((ran.code, ran.out), (0, format!("{YES}\n")));
}

#[test]
fn without_a_key_nothing_is_sent() {
    let world = World {
        config: None,
        ..offline()
    };
    let ran = run(urgent(), world, "x", &|| answered(YES));
    assert_eq!((ran.code, ran.sent), (4, 0));
    assert!(ran.err.ends_with(
        "jevi: no answer (no_key: no credential for openrouter (set OPENROUTER_API_KEY or run `jevi config \
         set-key openrouter`))"
    ));
    let a = Ask {
        raw: true,
        ..urgent()
    };
    let world = World {
        config: None,
        ..offline()
    };
    let ran = run(a, world, "x", &|| answered(YES));
    assert!(ran.err.ends_with("jevi: no answer (no_key: no credential for openrouter)"));
}

#[test]
fn a_question_is_needed() {
    let ran = run(Ask::default(), offline(), "x", &refused);
    assert_eq!(ran.code, 5);
    assert_eq!(
        ran.err,
        "jevi: invalid input (flags: no question given — try `jevi ask --help`)"
    );
}

#[test]
fn a_broken_config_is_invalid_input() {
    let world = World {
        env: Env {
            jevi_config: Some("/c.json".into()),
            ..Env::default()
        },
        config: Some("{"),
        ..offline()
    };
    let ran = run(urgent(), world, "x", &refused);
    assert_eq!(ran.code, 5);
    assert!(ran.err.starts_with("jevi: invalid input (config: /c.json: EOF"));
}

#[test]
fn the_text_to_judge_comes_from_one_place() {
    let given = Ask {
        state_text: Some("t".into()),
        state: Some("f".into()),
        ..Ask::default()
    };
    assert!(matches!(state_at(&given), StateAt::Given(t) if t == "t"));
    let file = Ask {
        state: Some("f".into()),
        ..Ask::default()
    };
    assert!(matches!(state_at(&file), StateAt::File(p) if p == "f"));
    assert!(matches!(state_at(&Ask::default()), StateAt::Stdin));

    let said = |found: StateFound| raw_state(found).expect_err("fails").to_string();
    assert_eq!(
        said(StateFound::Terminal),
        "invalid input (state: nothing on stdin — pipe the text in, or use --text/--state)"
    );
    assert_eq!(
        said(StateFound::File {
            path: "f".into(),
            read: Err("no such file".into())
        }),
        "invalid input (state: f: no such file)"
    );
    assert_eq!(said(StateFound::Piped(Err("bad bytes".into()))), "invalid input (state: bad bytes)");
    let text = |found: StateFound| raw_state(found).expect("is there");
    assert_eq!(text(StateFound::Given("a".into())), "a");
    assert_eq!(text(StateFound::Piped(Ok("b".into()))), "b");
    assert_eq!(
        text(StateFound::File {
            path: "f".into(),
            read: Ok("c".into())
        }),
        "c"
    );
}

#[test]
fn any_unsure_answer_wins() {
    let set = r#"{"questions":{"a":{"type":"score","instructions":"i","criteria":["x","y"]},
        "b":{"type":"score","instructions":"i","criteria":["x","y"]}}}"#;
    let reply = || answered(r#"{"answers":{"a":{"type":"score","score":1,"legend":{"1":"y"}}}}"#);
    let a = Ask {
        set: Some("./s.json".into()),
        ..Ask::default()
    };
    let world = World {
        found: SetFiles {
            direct: Some(Ok(set.into())),
            ..nothing()
        },
        ..offline()
    };
    let ran = run(a, world, "x", &reply);
    assert_eq!((ran.code, ran.out.as_str()), (3, "a\ty\nb\tunsure\t!incomplete_answer\n"));
}

fn planned(env: Env) -> Plan {
    plan(&urgent(), env, Some(OFFLINE), &nothing(), &mut Notes::new(&None)).expect("plans")
}

#[test]
fn a_call_carries_the_key_the_address_and_the_body() {
    let a = Ask {
        model: Some("m-2".into()),
        timeout: Some(7),
        ..urgent()
    };
    let c = call(&a, &planned(quiet()), "is it?").expect("is ready");
    assert_eq!(c.request.key, "test");
    assert_eq!(c.request.url, "http://127.0.0.1:9/decisions");
    assert_eq!(c.request.timeout_ms, 7);
    assert_eq!(c.request.provider, Provider::OpenRouter);
    assert_eq!(
        c.request.body.to_text(),
        r#"{"model":"m-2","state":"is it?","questions":{"answer":{"instructions":"is this urgent","type":"noul"}}}"#
    );
    let a = Ask {
        state_json: true,
        ..urgent()
    };
    let c = call(&a, &planned(quiet()), r#"[1, {"k": "v"}]"#).expect("is ready");
    assert_eq!(c.request.body.get("state").expect("is there").to_text(), r#"[1,{"k":"v"}]"#);
    assert_eq!(c.request.timeout_ms, 3000);
}

#[test]
fn a_long_text_is_cut_at_eighty_thousand_characters() {
    let c = call(&urgent(), &planned(quiet()), &"x".repeat(180_001)).expect("is ready");
    assert_eq!((c.built.chars, c.built.dropped), (80_000, 100_001));
}

#[test]
fn doctor_shows_what_it_resolved() {
    let env = || Env {
        home: Some("/home/me".into()),
        jevi_disable: Some("yes".into()),
        ..Env::default()
    };
    let cfg = Config::load(env(), Some(OFFLINE)).expect("loads");
    assert_eq!(
        doctor(&cfg, Some(0o100644)).expect("reports"),
        "config:    /home/me/.config/bitomule/jevi/config.json (found)\n\
         mode:      0644  (want 0600)\n\
         provider:  openrouter\n\
         key:       present\n\
         model:     typesafe/jev-1.13\n\
         url:       http://127.0.0.1:9/decisions\n\
         questions: /home/me/.config/bitomule/jevi/questions\n\
         JEVI_DISABLE is set: every `ask` will return no answer.\n"
    );
    assert!(doctor(&cfg, Some(0o100600)).expect("reports").contains("mode:      0600\n"));
    let cfg = Config::load(quiet(), None).expect("loads");
    let out = doctor(&cfg, Some(0o100600)).expect("reports");
    assert!(out.starts_with("config:    ./.config/bitomule/jevi/config.json (absent)\nprovider:  openrouter\nkey:       MISSING\n"));
    let env = Env {
        jevi_provider: Some("nobody".into()),
        ..Env::default()
    };
    assert_eq!(doctor(&Config::load(env, None).expect("loads"), None).expect_err("fails").code(), 5);
}

#[test]
fn doctor_can_make_one_real_request() {
    let cfg = Config::load(quiet(), Some(OFFLINE)).expect("loads");
    let p = probe(&cfg, &mut Notes::new(&None)).expect("is ready");
    assert_eq!(
        p.request.body.to_text(),
        r#"{"model":"typesafe/jev-1.13","state":"The cat sat on the mat.","questions":{"answer":{"instructions":"This text mentions a cat.","type":"noul"}}}"#
    );
    let line = probed(&cfg, &p, received(&answered(YES)), 380).expect("answers");
    assert_eq!(line, "live:      ok in 380ms, model m-1, usage {\"cost\":0.25}\n");
    let line = probed(&cfg, &p, received(&answered(r#"{"answers":{}}"#)), 1).expect("answers");
    assert_eq!(line, "live:      ok in 1ms, model ?, usage ?\n");
    assert_eq!(probed(&cfg, &p, received(&refused()), 1).expect_err("fails").kind(), "connect");
    assert!(probe(&Config::load(quiet(), None).expect("loads"), &mut Notes::new(&None)).is_err());
}

#[test]
fn a_key_is_entered_without_the_space_around_it() {
    assert_eq!(entered_key(&Ok(" sk-1 \n".into())).expect("is a key"), "sk-1");
    assert_eq!(
        entered_key(&Ok(" \n".into())).expect_err("is none").to_string(),
        "invalid input (stdin: no key on stdin)"
    );
    assert_eq!(entered_key(&Err("bad bytes".into())).expect_err("is none").kind(), "stdin");
    assert_eq!(
        stored_line(Provider::TypeSafe, "/c.json"),
        "stored TYPESAFE_API_KEY in /c.json\n"
    );
}

#[test]
fn the_code_describes_the_first_question() {
    let a = |p: &str| format!(r#"{{"type":"noul","noul":{p}}}"#);
    let set = r#"{"questions":{"a":{"type":"noul","instructions":"i"},"b":{"type":"noul","instructions":"i"}}}"#;
    let outcomes = |x: &str, y: &str| {
        let body = format!(r#"{{"answers":{{"a":{},"b":{}}}}}"#, a(x), a(y));
        let asked = Ask {
            set: Some("s".into()),
            ..Ask::default()
        };
        let found = SetFiles {
            shared: Some(set.into()),
            ..nothing()
        };
        let plan = plan(&asked, quiet(), Some(OFFLINE), &found, &mut Notes::new(&None)).expect("plans");
        let ready = call(&asked, &plan, "x").expect("is ready");
        let came = received(&answered(&body));
        jevi::ask(&plan.cfg, &plan.prepared, &ready.built.state, &ready.opts, came, 1)
            .expect("answers")
            .outcomes
    };
    assert_eq!(exit_code(&outcomes("0.99", "0.01")), 0);
    assert_eq!(exit_code(&outcomes("0.01", "0.99")), 1);
    assert_eq!(exit_code(&outcomes("0.99", "0.5")), 3);
    assert_eq!(exit_code(&outcomes("0.5", "0.99")), 3);
    assert_eq!(outcomes("0.01", "0.99")[1].verdict, Verdict::Yes);
}

#[test]
fn the_model_a_set_pins_is_the_one_that_is_asked_for() {
    let asked = Ask {
        set: Some("s".into()),
        model: Some("flag".into()),
        ..Ask::default()
    };
    let env = Env {
        jevi_model: Some("env".into()),
        ..Env::default()
    };
    let found = SetFiles {
        local: Some(r#"{"model":"pinned","questions":{"q":{"type":"noul","instructions":"i"}}}"#.into()),
        ..nothing()
    };
    let plan = plan(&asked, env, Some(OFFLINE), &found, &mut Notes::new(&None)).expect("plans");
    let ready = call(&asked, &plan, "x").expect("is ready");
    assert_eq!(ready.request.body.get("model").and_then(Json::as_str), Some("pinned"));
}

#[test]
fn a_reply_from_another_model_than_the_set_pins_is_unsure() {
    let set = r#"{"model":"typesafe/jev-1.13","questions":{"q":{"type":"noul","instructions":"i","criteria":{"true":"t","false":"f"}}}}"#;
    let with = |model: &str| {
        let body = format!(r#"{{"model":"{model}","answers":{{"q":{{"type":"noul","noul":0.99}}}}}}"#);
        let a = Ask {
            set: Some("s".into()),
            ..Ask::default()
        };
        let world = World {
            found: SetFiles {
                local: Some(set.into()),
                ..nothing()
            },
            ..offline()
        };
        let ran = run(a, world, "x", &|| answered(&body));
        (ran.code, ran.out)
    };
    assert_eq!(with("typesafe/jev-2.0"), (3, "q\tunsure\t0.99\t!model_mismatch\n".to_string()));
    assert_eq!(with("typesafe/jev-1.13-20260917"), (0, "q\tyes\t0.99\n".to_string()));
}

#[test]
fn a_minimum_confidence_on_the_command_line_gates_a_score() {
    let reply = || answered(r#"{"answers":{"answer":{"type":"score","score":2.0,"confidence":0.57}}}"#);
    let with = |min: Option<&str>| {
        let a = Ask {
            levels: Some("lo,mid,hi".into()),
            min_confidence: min.map(|m| Json::parse(m).expect("is JSON").as_real().expect("is a number").clone()),
            ..urgent()
        };
        run(a, offline(), "x", &reply).code
    };
    assert_eq!(with(None), 0);
    assert_eq!(with(Some("0.95")), 3);
    assert_eq!(with(Some("0.9")), 3);
    assert_eq!(with(Some("0.5")), 0);
}

#[test]
fn the_document_reads_back_with_its_numbers() {
    let a = Ask {
        json: true,
        soft: true,
        yes_at: Some(Json::parse("0.30000000000000004").expect("is JSON").as_real().expect("is a number").clone()),
        ..urgent()
    };
    let ran = run(a, offline(), "x", &|| answered(YES));
    let doc = Json::parse(&ran.out).expect("is JSON");
    assert_eq!(format!("{}\n", doc.to_text()), ran.out);
    let answer = doc.get("answers").and_then(|a| a.get("answer")).expect("is there");
    assert_eq!(answer.get("p").expect("is there").to_text(), "0.96");
    assert_eq!(
        answer.get("cuts").expect("is there").to_text(),
        r#"{"yes":0.30000000000000004,"no":0.1}"#
    );
}

#[test]
fn the_switch_is_tested_before_anything_is_read() {
    let with = |v: Option<&str>| {
        check_enabled(&Env {
            jevi_disable: v.map(str::to_string),
            ..Env::default()
        })
        .is_ok()
    };
    assert!(with(None) && with(Some("")) && with(Some("0")));
    assert!(!with(Some("1")) && !with(Some("no")));
}
