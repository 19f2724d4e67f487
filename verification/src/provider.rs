//! The only file that knows the two providers apart.
//!
//! OpenRouter's shape is verified against ~1,300 real calls. TypeSafe's direct endpoint is
//! written from its documentation and has never been exercised — nobody here has a key. It
//! is kept behind the same few functions so correcting it is one edit, and `--raw` exists
//! so the first person with a key can see what actually comes back.

use vstd::prelude::*;

use crate::codec::{json_text, settled};
use crate::error::{invalid, no_answer, says, Error, ErrorView};
use crate::json::{field, lemma_lookup_push, object_of, text_of, Json, JsonView, Object};
use crate::text;

verus! {

#[derive(Debug, Clone, Copy, PartialEq, Eq, Structural)]
pub enum Provider {
    OpenRouter,
    TypeSafe,
}

impl View for Provider {
    type V = Provider;

    open spec fn view(&self) -> Provider {
        *self
    }
}

/// The provider with a name.
pub open spec fn named(name: Seq<char>) -> Result<Provider, ErrorView> {
    if name == "openrouter"@ {
        Ok(Provider::OpenRouter)
    } else if name == "typesafe"@ {
        Ok(Provider::TypeSafe)
    } else {
        Err(invalid("flags"@, "unknown provider `"@ + name + "` (openrouter, typesafe)"@))
    }
}

impl Provider {
    /// The name of a provider.
    pub open spec fn spec_name(self) -> Seq<char> {
        match self {
            Provider::OpenRouter => "openrouter"@,
            Provider::TypeSafe => "typesafe"@,
        }
    }

    /// Where a provider answers.
    pub open spec fn spec_default_url(self) -> Seq<char> {
        match self {
            Provider::OpenRouter => "https://openrouter.ai/api/alpha/decisions"@,
            Provider::TypeSafe => "https://api.typesafe.ai/v1/systemone"@,
        }
    }

    /// The model a provider is asked for.
    pub open spec fn spec_default_model(self) -> Seq<char> {
        match self {
            Provider::OpenRouter => "typesafe/jev-1.13"@,
            Provider::TypeSafe => "jev-latest"@,
        }
    }

    /// The environment variable that holds a provider's key.
    pub open spec fn spec_env_key(self) -> Seq<char> {
        match self {
            Provider::OpenRouter => "OPENROUTER_API_KEY"@,
            Provider::TypeSafe => "TYPESAFE_API_KEY"@,
        }
    }

    pub fn parse(name: &str) -> (r: Result<Provider, Error>)
        ensures
            says(r, named(name@)),
    {
        if text::same(name, "openrouter") {
            Ok(Provider::OpenRouter)
        } else if text::same(name, "typesafe") {
            Ok(Provider::TypeSafe)
        } else {
            Err(
                Error::invalid(
                    "flags",
                    text::cat3("unknown provider `", name, "` (openrouter, typesafe)").as_str(),
                ),
            )
        }
    }

    pub fn name(self) -> (r: &'static str)
        ensures
            r@ == self.spec_name(),
    {
        match self {
            Provider::OpenRouter => "openrouter",
            Provider::TypeSafe => "typesafe",
        }
    }

    pub fn default_url(self) -> (r: &'static str)
        ensures
            r@ == self.spec_default_url(),
    {
        match self {
            Provider::OpenRouter => "https://openrouter.ai/api/alpha/decisions",
            Provider::TypeSafe => "https://api.typesafe.ai/v1/systemone",
        }
    }

    pub fn default_model(self) -> (r: &'static str)
        ensures
            r@ == self.spec_default_model(),
    {
        match self {
            Provider::OpenRouter => "typesafe/jev-1.13",
            Provider::TypeSafe => "jev-latest",
        }
    }

    pub fn env_key(self) -> (r: &'static str)
        ensures
            r@ == self.spec_env_key(),
    {
        match self {
            Provider::OpenRouter => "OPENROUTER_API_KEY",
            Provider::TypeSafe => "TYPESAFE_API_KEY",
        }
    }

    /// The body of a request.
    pub fn body(self, model: &str, state: &Json, questions: &Object) -> (r: Json)
        ensures
            r@ == request_body(model@, state@, questions@),
    {
        let body = Object::new().with("model", Json::Text(model.to_owned())).with("state", state.clone()).with(
            "questions",
            Json::Object(questions.clone()),
        );
        proof {
            broadcast use lemma_lookup_push;

            reveal_strlit("model");
            reveal_strlit("state");
            reveal_strlit("questions");
            assert("model"@[0] != "state"@[0]);
            assert(body@ =~= request_body(model@, state@, questions@)->Object_0);
        }
        Json::Object(body)
    }
}

/// What is sent: the model, the state and the questions, in this order.
pub open spec fn request_body(
    model: Seq<char>,
    state: JsonView,
    questions: Seq<(Seq<char>, JsonView)>,
) -> JsonView {
    JsonView::Object(
        seq![
            ("model"@, JsonView::Text(model)),
            ("state"@, state),
            ("questions"@, JsonView::Object(questions)),
        ],
    )
}

/// What is sent can be read off the body again.
pub proof fn lemma_body_reads_back(model: Seq<char>, state: JsonView, questions: Seq<(Seq<char>, JsonView)>)
    ensures
        field(request_body(model, state, questions), "model"@) == Some(JsonView::Text(model)),
        field(request_body(model, state, questions), "state"@) == Some(state),
        field(request_body(model, state, questions), "questions"@) == Some(JsonView::Object(questions)),
{
    broadcast use lemma_lookup_push;

    reveal_strlit("model");
    reveal_strlit("state");
    reveal_strlit("questions");
    assert("model"@.len() == 5 && "state"@.len() == 5 && "questions"@.len() == 9);
    assert("model"@[0] != "state"@[0]);
    let none = Seq::<(Seq<char>, JsonView)>::empty();
    assert(request_body(model, state, questions)->Object_0 =~= none.push(("model"@, JsonView::Text(model))).push(
        ("state"@, state),
    ).push(("questions"@, JsonView::Object(questions))));
}

/// What came back, in the shape the rest of the program uses.
#[derive(Debug)]
pub struct Response {
    pub answers: Object,
    pub model: Option<String>,
    pub usage: Option<Json>,
}

/// What a [`Response`] says.
pub struct ResponseView {
    pub answers: Seq<(Seq<char>, JsonView)>,
    pub model: Option<Seq<char>>,
    pub usage: Option<JsonView>,
}

/// The text that may be there.
pub open spec fn opt_text(s: Option<String>) -> Option<Seq<char>> {
    match s {
        Some(s) => Some(s@),
        None => None,
    }
}

/// The JSON value that may be there.
pub open spec fn opt_json(j: Option<Json>) -> Option<JsonView> {
    match j {
        Some(j) => Some(j@),
        None => None,
    }
}

impl View for Response {
    type V = ResponseView;

    open spec fn view(&self) -> ResponseView {
        ResponseView { answers: self.answers@, model: opt_text(self.model), usage: opt_json(self.usage) }
    }
}

/// What the body of a reply says: its answers, or that it has none and what it says of an
/// error instead.
pub open spec fn reading(body: JsonView) -> Result<ResponseView, ErrorView> {
    match object_of(field(body, "answers"@)) {
        Some(answers) => Ok(
            ResponseView { answers, model: text_of(field(body, "model"@)), usage: field(body, "usage"@) },
        ),
        None => {
            let hint = match field(body, "error"@) {
                Some(e) => json_text(settled(e)),
                None => ""@,
            };
            Err(no_answer("bad_response"@, "no `answers` in the response "@ + hint))
        },
    }
}

/// Reads the body of a reply.
pub fn read(body: &Json) -> (r: Result<Response, Error>)
    ensures
        says(r, reading(body@)),
{
    let answers = match body.get("answers") {
        Some(a) => a.as_object(),
        None => None,
    };
    match answers {
        Some(answers) => {
            let model = match body.get("model") {
                Some(m) => match m.as_str() {
                    Some(m) => Some(m.to_owned()),
                    None => None,
                },
                None => None,
            };
            let usage = match body.get("usage") {
                Some(u) => Some(u.clone()),
                None => None,
            };
            Ok(Response { answers: answers.clone(), model, usage })
        },
        None => {
            let hint = match body.get("error") {
                Some(e) => e.to_text(),
                None => "".to_owned(),
            };
            Err(
                Error::no_answer(
                    "bad_response",
                    text::cat("no `answers` in the response ", hint.as_str()).as_str(),
                ),
            )
        },
    }
}

}
