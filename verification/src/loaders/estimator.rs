//! Token estimators of earlier configurations.

use vstd::prelude::*;
use crate::config::{join_path, joined};
use crate::json::Json;
use crate::model::TokenEstimatorType;
use crate::text::{
    cat3, cat5, char_is_ascii_word, chars_of, is_ascii_word, opt_str_view, opt_view, text_eq,
};
use crate::words::{lower_seq, to_lower};

verus! {

#[derive(Debug)]
pub enum LegacyTemplate {
    Builtin,
    Local { path: String, field: Option<String> },
    Huggingface {
        repo: String,
        revision: Option<String>,
        file: Option<String>,
        field: Option<String>,
    },
}

#[derive(Debug)]
pub enum LegacyTokenizer {
    Tiktoken { encoding: Option<String> },
    Local { path: String },
    Huggingface { repo: String, revision: Option<String>, file: Option<String> },
}

/// How tokens were to be counted for a model.
#[derive(Debug)]
pub struct LegacyTokenEstimation {
    pub huggingface: bool,
    pub repo: Option<String>,
    pub revision: Option<String>,
    pub template: Option<LegacyTemplate>,
    pub tokenizer: Option<LegacyTokenizer>,
}

/// What is to be done for a model's estimator.
#[derive(Debug)]
pub enum EstimatorPlan {
    /// The estimator and the address of its settings are known.
    Ready { kind: TokenEstimatorType, url: Option<String> },
    /// Files below the directory of the configuration have to be looked at.
    Files { template: String, tokenizer: String },
}

pub enum PlanView {
    Ready { kind: TokenEstimatorType, url: Option<Seq<char>> },
    Files { template: Seq<char>, tokenizer: Seq<char> },
}

impl EstimatorPlan {
    pub open spec fn view(self) -> PlanView {
        match self {
            EstimatorPlan::Ready { kind, url } => PlanView::Ready { kind, url: opt_view(url) },
            EstimatorPlan::Files { template, tokenizer } => PlanView::Files {
                template: template@,
                tokenizer: tokenizer@,
            },
        }
    }
}

pub open spec fn or_default(t: Option<String>, default: Seq<char>) -> Seq<char> {
    match t {
        Some(t) => t@,
        None => default,
    }
}

fn text_or<'a>(t: &'a Option<String>, default: &'a str) -> (r: &'a str)
    ensures
        r@ == or_default(*t, default@),
{
    match t {
        Some(t) => t.as_str(),
        None => default,
    }
}

/// The address of a tokenizer's settings.
pub open spec fn settings_url(repo: Seq<char>, revision: Seq<char>) -> Seq<char> {
    "https://huggingface.co/"@ + repo + "/raw/"@ + revision + "/tokenizer_config.json"@
}

pub open spec fn huggingface_ready(repo: Seq<char>, revision: Seq<char>) -> PlanView {
    PlanView::Ready {
        kind: TokenEstimatorType::HuggingFace,
        url: Some(settings_url(repo, revision)),
    }
}

fn make_huggingface(repo: &str, revision: &str) -> (r: EstimatorPlan)
    ensures
        r@ == huggingface_ready(repo@, revision@),
{
    EstimatorPlan::Ready {
        kind: TokenEstimatorType::HuggingFace,
        url: Some(
            cat5("https://huggingface.co/", repo, "/raw/", revision, "/tokenizer_config.json"),
        ),
    }
}

pub open spec fn local_ready() -> PlanView {
    PlanView::Ready { kind: TokenEstimatorType::Local, url: None }
}

pub open spec fn of_model(name: Seq<char>, rest: Seq<char>) -> Seq<char> {
    "model '"@ + name + rest
}

pub open spec fn quoted_for(name: Seq<char>, rest: Seq<char>, value: Seq<char>) -> Seq<char> {
    "model '"@ + name + rest + value + "'"@
}

fn model_error(name: &str, rest: &str) -> (r: String)
    ensures
        r@ == of_model(name@, rest@),
{
    cat3("model '", name, rest)
}

fn model_error_with(name: &str, rest: &str, value: &str) -> (r: String)
    ensures
        r@ == quoted_for(name@, rest@, value@),
{
    cat5("model '", name, rest, value, "'")
}

/// A template from a repository needs the tokenizer of the same repository.
pub open spec fn repository_plan(
    name: Seq<char>,
    repo: Seq<char>,
    revision: Option<String>,
    file: Option<String>,
    field: Option<String>,
    tokenizer: Option<LegacyTokenizer>,
) -> Result<PlanView, Seq<char>> {
    if or_default(file, "tokenizer_config.json"@) != "tokenizer_config.json"@ {
        Err(
            quoted_for(
                name,
                "' uses unsupported huggingface token template file '"@,
                or_default(file, "tokenizer_config.json"@),
            ),
        )
    } else if or_default(field, "chat_template"@) != "chat_template"@ {
        Err(
            quoted_for(
                name,
                "' uses unsupported huggingface token template field '"@,
                or_default(field, "chat_template"@),
            ),
        )
    } else {
        match tokenizer {
            Some(LegacyTokenizer::Huggingface { repo: other, revision: other_revision, file: tokens }) => {
                if other@ != repo {
                    Err(
                        of_model(
                            name,
                            "' uses different huggingface repos for template/tokenizer"@,
                        ),
                    )
                } else if or_default(tokens, "tokenizer.json"@) != "tokenizer.json"@ {
                    Err(
                        quoted_for(
                            name,
                            "' uses unsupported huggingface tokenizer file '"@,
                            or_default(tokens, "tokenizer.json"@),
                        ),
                    )
                } else if or_default(other_revision, "main"@) != or_default(revision, "main"@) {
                    Err(
                        of_model(
                            name,
                            "' uses different huggingface revisions for template/tokenizer"@,
                        ),
                    )
                } else {
                    Ok(huggingface_ready(repo, or_default(revision, "main"@)))
                }
            },
            _ => Err(of_model(name, "' uses unsupported mixed token_estimation config"@)),
        }
    }
}

/// The plan for a model's estimator, or why it cannot be taken over.
pub open spec fn estimator_plan(name: Seq<char>, e: Option<LegacyTokenEstimation>) -> Result<
    PlanView,
    Seq<char>,
> {
    match e {
        None => Ok(local_ready()),
        Some(c) => if c.huggingface {
            match c.repo {
                None => Err(
                    of_model(name, "' token_estimation.source=huggingface requires repo"@),
                ),
                Some(repo) => Ok(huggingface_ready(repo@, or_default(c.revision, "main"@))),
            }
        } else {
            match (c.template, c.tokenizer) {
                (Some(LegacyTemplate::Huggingface { repo, revision, file, field }), tokenizer) =>
                    repository_plan(name, repo@, revision, file, field, tokenizer),
                (_, Some(LegacyTokenizer::Tiktoken { encoding })) => if or_default(
                    encoding,
                    "auto"@,
                ) != "auto"@ {
                    Err(
                        "model '"@ + name + "' uses explicit tiktoken encoding '"@ + or_default(
                            encoding,
                            "auto"@,
                        ) + "', which stellaclaw does not support yet"@,
                    )
                } else {
                    Ok(local_ready())
                },
                (
                    Some(LegacyTemplate::Local { path, field }),
                    Some(LegacyTokenizer::Local { path: tokenizer }),
                ) => if or_default(field, "chat_template"@) != "chat_template"@ {
                    Err(
                        quoted_for(
                            name,
                            "' uses unsupported local token template field '"@,
                            or_default(field, "chat_template"@),
                        ),
                    )
                } else {
                    Ok(PlanView::Files { template: path@, tokenizer: tokenizer@ })
                },
                _ => Err(
                    of_model(name, "' uses an unsupported token_estimation configuration"@),
                ),
            }
        },
    }
}

fn plan_repository(
    name: &str,
    repo: &str,
    revision: &Option<String>,
    file: &Option<String>,
    field: &Option<String>,
    tokenizer: &Option<LegacyTokenizer>,
) -> (r: Result<EstimatorPlan, String>)
    ensures
        match (r, repository_plan(name@, repo@, *revision, *file, *field, *tokenizer)) {
            (Ok(p), Ok(q)) => p@ == q,
            (Err(e), Err(f)) => e@ == f,
            _ => false,
        },
{
    let file: &str = text_or(file, "tokenizer_config.json");
    if !text_eq(file, "tokenizer_config.json") {
        return Err(
            model_error_with(
                name,
                "' uses unsupported huggingface token template file '",
                file,
            ),
        );
    }
    let field: &str = text_or(field, "chat_template");
    if !text_eq(field, "chat_template") {
        return Err(
            model_error_with(
                name,
                "' uses unsupported huggingface token template field '",
                field,
            ),
        );
    }
    match tokenizer {
        Some(LegacyTokenizer::Huggingface { repo: other, revision: other_revision, file: tokens }) => {
            if !text_eq(other.as_str(), repo) {
                return Err(
                    model_error(name, "' uses different huggingface repos for template/tokenizer"),
                );
            }
            let tokens: &str = text_or(tokens, "tokenizer.json");
            if !text_eq(tokens, "tokenizer.json") {
                return Err(
                    model_error_with(
                        name,
                        "' uses unsupported huggingface tokenizer file '",
                        tokens,
                    ),
                );
            }
            let revision: &str = text_or(revision, "main");
            if !text_eq(text_or(other_revision, "main"), revision) {
                return Err(
                    model_error(
                        name,
                        "' uses different huggingface revisions for template/tokenizer",
                    ),
                );
            }
            Ok(make_huggingface(repo, revision))
        },
        _ => Err(model_error(name, "' uses unsupported mixed token_estimation config")),
    }
}

pub fn convert_token_estimator(name: &str, estimation: &Option<LegacyTokenEstimation>) -> (r: Result<
    EstimatorPlan,
    String,
>)
    ensures
        match (r, estimator_plan(name@, *estimation)) {
            (Ok(p), Ok(q)) => p@ == q,
            (Err(e), Err(f)) => e@ == f,
            _ => false,
        },
{
    let config: &LegacyTokenEstimation = match estimation {
        Some(c) => c,
        None => {
            return Ok(EstimatorPlan::Ready { kind: TokenEstimatorType::Local, url: None });
        },
    };
    if config.huggingface {
        return match &config.repo {
            Some(repo) => Ok(make_huggingface(repo.as_str(), text_or(&config.revision, "main"))),
            None => Err(
                model_error(name, "' token_estimation.source=huggingface requires repo"),
            ),
        };
    }
    match &config.template {
        Some(LegacyTemplate::Huggingface { repo, revision, file, field }) => {
            return plan_repository(name, repo.as_str(), revision, file, field, &config.tokenizer);
        },
        _ => {},
    }
    match (&config.template, &config.tokenizer) {
        (_, Some(LegacyTokenizer::Tiktoken { encoding })) => {
            let encoding: &str = text_or(encoding, "auto");
            if !text_eq(encoding, "auto") {
                return Err(
                    cat5(
                        "model '",
                        name,
                        "' uses explicit tiktoken encoding '",
                        encoding,
                        "', which stellaclaw does not support yet",
                    ),
                );
            }
            Ok(EstimatorPlan::Ready { kind: TokenEstimatorType::Local, url: None })
        },
        (
            Some(LegacyTemplate::Local { path, field }),
            Some(LegacyTokenizer::Local { path: tokenizer }),
        ) => {
            let field: &str = text_or(field, "chat_template");
            if !text_eq(field, "chat_template") {
                return Err(
                    model_error_with(
                        name,
                        "' uses unsupported local token template field '",
                        field,
                    ),
                );
            }
            Ok(EstimatorPlan::Files { template: path.clone(), tokenizer: tokenizer.clone() })
        },
        _ => Err(model_error(name, "' uses an unsupported token_estimation configuration")),
    }
}

/// Whether the files can be used where they are: both in one directory, under the names
/// that an estimator expects.
pub fn files_fit_in_place(
    template_name: Option<&str>,
    tokenizer_name: Option<&str>,
    same_directory: bool,
) -> (b: bool)
    ensures
        b == (opt_str_view(template_name) == Some("tokenizer_config.json"@) && opt_str_view(
            tokenizer_name,
        ) == Some("tokenizer.json"@) && same_directory),
{
    match (template_name, tokenizer_name) {
        (Some(a), Some(b)) => text_eq(a, "tokenizer_config.json") && text_eq(b, "tokenizer.json")
            && same_directory,
        _ => false,
    }
}

pub open spec fn keeps_in_name(c: char) -> bool {
    is_ascii_word(c) || c == '-' || c == '_' || c == '.'
}

/// Text that is safe as one part of a path: other characters become `_`.
pub open spec fn safe_component(s: Seq<char>) -> Seq<char> {
    s.map_values(
        |c: char|
            if keeps_in_name(c) {
                c
            } else {
                '_'
            },
    )
}

pub fn make_safe_component(value: &str) -> (r: String)
    ensures
        r@ == safe_component(value@),
{
    let chars: Vec<char> = chars_of(value);
    let mut r: String = String::new();
    let mut i: usize = 0;
    while i < chars.len()
        invariant
            i <= chars@.len(),
            chars@ == value@,
            r@ =~= safe_component(value@).take(i as int),
        decreases chars@.len() - i,
    {
        let c: char = chars[i];
        if char_is_ascii_word(c) || c == '-' || c == '_' || c == '.' {
            r.push(c);
        } else {
            r.push('_');
        }
        i += 1;
    }
    assert(safe_component(value@).take(value@.len() as int) =~= safe_component(value@));
    r
}

/// A safe path component never names another directory level.
pub proof fn safe_component_has_no_separator(s: Seq<char>)
    ensures
        !safe_component(s).contains('/'),
        safe_component(s).len() == s.len(),
        safe_component(safe_component(s)) == safe_component(s),
{
    assert(safe_component(safe_component(s)) =~= safe_component(s));
}

/// The name of a model as a directory; `_` where nothing is left.
pub open spec fn directory_name(name: Seq<char>) -> Seq<char> {
    if name.len() == 0 {
        "_"@
    } else {
        safe_component(name)
    }
}

pub fn sanitize_name(name: &str) -> (r: String)
    ensures
        r@ == directory_name(name@),
{
    if name.is_empty() {
        "_".to_owned()
    } else {
        make_safe_component(name)
    }
}

/// The directory that the files of a model's estimator are copied to.
pub fn migrated_estimator_directory(base: &str, name: &str) -> (r: String)
    ensures
        r@ == joined(
            joined(joined(base@, ".stellaclaw_migrated"@), "token_estimators"@),
            directory_name(name@),
        ),
{
    let root: String = join_path(base, ".stellaclaw_migrated");
    let estimators: String = join_path(root.as_str(), "token_estimators");
    let own: String = sanitize_name(name);
    join_path(estimators.as_str(), own.as_str())
}

/// The chat template that a file holds: a JSON file under `chat_template`, any other as
/// a whole. `parsed` is the value of a JSON file.
pub fn local_chat_template(
    name: &str,
    path: &str,
    extension: Option<&str>,
    raw: &str,
    parsed: Option<&Json>,
) -> (r: Result<String, String>)
    ensures
        if opt_str_view(extension) matches Some(e) && lower_seq(e) == "json"@ {
            match parsed {
                None => r matches Err(e) && e@ == "model '"@ + name@ + "' local token template "@
                    + path@ + " is not valid JSON"@,
                Some(value) => match value@.text_field("chat_template"@) {
                    Some(t) => r matches Ok(s) && s@ == t,
                    None => r matches Err(e) && e@ == "model '"@ + name@
                        + "' local token template "@ + path@ + " is missing chat_template"@,
                },
            }
        } else {
            r matches Ok(s) && s@ == raw@
        },
{
    let json: bool = match extension {
        Some(e) => {
            let lower: String = to_lower(e);
            text_eq(lower.as_str(), "json")
        },
        None => false,
    };
    if !json {
        return Ok(raw.to_owned());
    }
    match parsed {
        None => Err(
            cat5("model '", name, "' local token template ", path, " is not valid JSON"),
        ),
        Some(value) => match value.text_field("chat_template") {
            Some(t) => Ok(t.to_owned()),
            None => Err(
                cat5("model '", name, "' local token template ", path, " is missing chat_template"),
            ),
        },
    }
}

} // verus!
