//! The source readers and the resolver entry point: read the config-file
//! and environment documents, memoize the environment read per resolver
//! context, merge the chosen sources in precedence order, deserialize the
//! merged document, and reinject the command-line-only fields from the
//! draft.
//!
//! JSON text parsing and comment stripping are the only outside calls;
//! each stands behind a trusted wrapper whose result is named, and every
//! decision on the parsed values is verified.

use vstd::prelude::*;
use crate::args::{flag_texts, text_args, forwarded_args, Argument, ArgumentV};
use crate::cli::{cli_fold, parse_cli, CliOutcome, CliSpecOutcome};
use crate::errors::ConfigError;
use crate::json::{doc_copy, doc_wf, entries_map, merge_jv, merged, Doc, Jv};
use crate::schema::{
    config_jv, config_of_jv, config_wf, default_config, default_config_spec, from_doc, to_doc,
    RgaConfig, RgaConfigV,
};

verus! {

#[verifier::external_type_specification]
#[verifier::external_body]
pub struct ExJsonValue(serde_json::Value);

/// The document denoted by a JSON text, if it parses and every number fits
/// a document integer. Named: the result depends on the text alone.
pub uninterp spec fn json_doc_of_text(s: Seq<char>) -> Option<Doc>;

/// The comment-stripped form of a JSON-with-comments text, or nothing
/// when the text ends inside a string or block comment. Named: both the
/// outcome and the stripped text depend on the input text alone.
pub uninterp spec fn strip_result(s: Seq<char>) -> Option<Seq<char>>;

/// Conversion used only by `parse_json_text`, whose contract covers the
/// composition: turns a parsed `serde_json::Value` into the crate's
/// document tree, rejecting numbers that do not fit `i64`.
#[verifier::external_body]
fn doc_of_value(v: serde_json::Value) -> (r: Option<Doc>) {
    match v {
        serde_json::Value::Null => Some(Doc::Null),
        serde_json::Value::Bool(b) => Some(Doc::Bool(b)),
        serde_json::Value::Number(n) => n.as_i64().map(Doc::Int),
        serde_json::Value::String(s) => Some(Doc::Str(s)),
        serde_json::Value::Array(a) => a.into_iter().map(doc_of_value).collect::<Option<
            Vec<Doc>,
        >>().map(Doc::Arr),
        serde_json::Value::Object(m) => m.into_iter().map(
            |kv: (String, serde_json::Value)| doc_of_value(kv.1).map(|d| (kv.0, d)),
        ).collect::<Option<Vec<(String, Doc)>>>().map(Doc::Obj),
    }
}

/// Relies on serde_json::from_str::<serde_json::Value>: whether a text
/// parses, and to what, is a function of the text alone; the parsed map
/// keeps one entry per key, so every object of the result has distinct
/// keys (well-formedness).
#[verifier::external_body]
fn parse_json_text(s: &str) -> (r: Option<Doc>)
    ensures
        r == json_doc_of_text(s@),
        r matches Some(d) ==> doc_wf(d),
{
    match serde_json::from_str::<serde_json::Value>(s) {
        Ok(v) => doc_of_value(v),
        Err(_) => None,
    }
}

/// Relies on json_comments::StripComments: replaces `//`, `/* */` and
/// shell-style `#` comments outside strings with whitespace. The transform
/// is a pure state machine over the bytes, so both the outcome (it fails
/// on text ending inside a string or block comment) and the stripped text
/// are functions of the input alone.
#[verifier::external_body]
fn strip_json_comments(s: &str) -> (r: Option<String>)
    ensures
        (r is Some) == (strip_result(s@) is Some),
        r matches Some(t) ==> Some(t@) == strip_result(s@),
{
    let mut out = String::new();
    let mut reader = json_comments::StripComments::new(s.as_bytes());
    match std::io::Read::read_to_string(&mut reader, &mut out) {
        Ok(_) => Some(out),
        Err(_) => None,
    }
}

/// The document denoted by the environment source: present text must
/// parse as JSON; an unset variable stands for the fully-defaulted
/// configuration serialized to the same shape.
pub open spec fn env_doc_jv(env_text: Option<String>) -> Option<Jv> {
    match env_text {
        Some(t) => match json_doc_of_text(t@) {
            Some(d) => Some(d@),
            None => None,
        },
        None => Some(config_jv(default_config_spec())),
    }
}

/// Read the environment document from the variable's text, if set.
pub fn read_config_env(env_text: &Option<String>) -> (r: Result<Doc, ConfigError>)
    ensures
        (r is Ok) == (env_doc_jv(*env_text) is Some),
        r is Ok ==> Some(r->Ok_0@) == env_doc_jv(*env_text) && doc_wf(r->Ok_0),
        r is Err ==> (env_text matches Some(t) && r->Err_0 matches ConfigError::EnvNotJson(u)
            && u@ == t@),
{
    match env_text {
        Some(t) => match parse_json_text(t.as_str()) {
            Some(d) => Ok(d),
            None => Err(ConfigError::EnvNotJson(t.clone())),
        },
        None => Ok(to_doc(&default_config())),
    }
}

/// Per-process resolver context. It owns the memoized environment
/// document; callers that need isolation construct a fresh context.
#[derive(Debug)]
pub struct Resolver {
    /// The environment document kept from the first successful read.
    pub env_doc: Option<Doc>,
}

/// A cached environment document is well-formed.
pub open spec fn resolver_wf(r: Resolver) -> bool {
    match r.env_doc {
        Some(d) => doc_wf(d),
        None => true,
    }
}

impl Resolver {
    /// A fresh context with no memoized environment document.
    pub fn new() -> (r: Resolver)
        ensures
            r.env_doc is None,
            resolver_wf(r),
    {
        Resolver { env_doc: None }
    }

    /// Whether the environment has already been read in this context.
    pub fn env_is_cached(&self) -> (r: bool)
        ensures
            r == (self.env_doc is Some),
    {
        self.env_doc.is_some()
    }

    /// Memoized environment read: the first successful read is kept, and
    /// every later call returns the kept document without looking at
    /// `env_text` again.
    pub fn read_config_env_cached(&mut self, env_text: &Option<String>) -> (r: Result<
        Doc,
        ConfigError,
    >)
        requires
            resolver_wf(*old(self)),
        ensures
            resolver_wf(*final(self)),
            old(self).env_doc matches Some(d) ==> r is Ok && r->Ok_0@ == d@
                && final(self).env_doc == old(self).env_doc,
            old(self).env_doc is None ==> {
                &&& (r is Ok) == (env_doc_jv(*env_text) is Some)
                &&& (r is Ok ==> Some(r->Ok_0@) == env_doc_jv(*env_text)
                    && (final(self).env_doc matches Some(d) && d@ == r->Ok_0@))
                &&& (r is Err ==> final(self).env_doc is None && (env_text matches Some(t)
                    && r->Err_0 matches ConfigError::EnvNotJson(u) && u@ == t@))
            },
            r is Ok ==> doc_wf(r->Ok_0),
    {
        if let Some(d) = &self.env_doc {
            return Ok(doc_copy(d));
        }
        let d = read_config_env(env_text)?;
        self.env_doc = Some(doc_copy(&d));
        Ok(d)
    }
}

/// Where the config file's contents come from: the boundary hands over
/// the file's text if one exists at the chosen location, else `Absent`.
#[derive(Debug)]
pub enum FileSource {
    Contents(String),
    Absent,
}

/// The document denoted by a config-file source: file text with its
/// comments stripped must parse as JSON and pass the typed check; a
/// missing file is the empty document, unless an explicit override path
/// named it, which denotes nothing (an error).
pub open spec fn file_doc_jv(source: FileSource, override_path: Option<Seq<char>>) -> Option<
    Jv,
> {
    match source {
        FileSource::Contents(text) => match strip_result(text@) {
            Some(st) => match json_doc_of_text(st) {
                Some(d) => if config_of_jv(d@) is Some {
                    Some(d@)
                } else {
                    None
                },
                None => None,
            },
            None => None,
        },
        FileSource::Absent => if override_path is Some {
            None
        } else {
            Some(Jv::Obj(Map::empty()))
        },
    }
}

/// The view of an optional path.
pub open spec fn opt_text(p: Option<String>) -> Option<Seq<char>> {
    match p {
        Some(s) => Some(s@),
        None => None,
    }
}

/// The untyped document of already comment-stripped config text: it must
/// parse as JSON and fully deserialize as a configuration (the typed
/// result is discarded; only the shape check's error surfaces). The
/// untyped document comes back for merging.
pub fn config_doc_of_stripped(stripped: &str) -> (r: Result<Doc, ConfigError>)
    ensures
        (r is Ok) == (json_doc_of_text(stripped@) matches Some(d) && config_of_jv(d@) is Some),
        r is Ok ==> (json_doc_of_text(stripped@) matches Some(d) && r->Ok_0@ == d@)
            && doc_wf(r->Ok_0),
        r is Err ==> r->Err_0 is ConfigFileNotJson || r->Err_0 is WrongValueType
            || r->Err_0 is NumberOutOfRange,
        r is Err ==> ((r->Err_0 is ConfigFileNotJson) == (json_doc_of_text(stripped@)
            is None)),
        r is Err ==> (r->Err_0 matches ConfigError::ConfigFileNotJson(t) ==> t@ == stripped@),
{
    match parse_json_text(stripped) {
        Some(d) => match from_doc(&d) {
            Ok(_) => Ok(d),
            Err(e) => Err(e),
        },
        None => Err(ConfigError::ConfigFileNotJson(stripped.to_owned())),
    }
}

/// Read the config-file document. An explicit override path naming a
/// missing file is an error of its own kind; a missing file without an
/// override is the empty document (the boundary writes the on-disk
/// defaults); existing contents are comment-stripped, parsed and
/// shape-checked.
pub fn read_config_file(source: &FileSource, override_path: &Option<String>) -> (r: Result<
    Doc,
    ConfigError,
>)
    ensures
        source is Absent && override_path is Some ==> (r matches Err(e)
            && (e matches ConfigError::ConfigFileNotFound(q) && q@ == override_path->0@)),
        source is Absent && override_path is None ==> (r matches Ok(d) && d@ == Jv::Obj(
            Map::empty(),
        ) && doc_wf(d)),
        source matches FileSource::Contents(text) ==> {
            &&& (r is Ok) == (file_doc_jv(*source, opt_text(*override_path)) is Some)
            &&& (r is Ok ==> Some(r->Ok_0@) == file_doc_jv(*source, opt_text(*override_path))
                && doc_wf(r->Ok_0))
            &&& (r is Err ==> r->Err_0 is ConfigFileNotJson || r->Err_0 is WrongValueType
                || r->Err_0 is NumberOutOfRange)
            &&& (r is Err ==> (r->Err_0 matches ConfigError::ConfigFileNotJson(t) ==> (
                (strip_result(text@) is None && t@ == text@) || (strip_result(text@)
                    matches Some(st) && t@ == st && json_doc_of_text(st) is None))))
        },
{
    match source {
        FileSource::Contents(text) => match strip_json_comments(text.as_str()) {
            Some(stripped) => config_doc_of_stripped(stripped.as_str()),
            None => Err(ConfigError::ConfigFileNotJson(text.clone())),
        },
        FileSource::Absent => match override_path {
            Some(p) => Err(ConfigError::ConfigFileNotFound(p.clone())),
            None => {
                let d = Doc::Obj(Vec::new());
                proof {
                    assert(d@ is Obj);
                    assert(d@->Obj_0 =~= Map::<Seq<char>, Jv>::empty());
                }
                Ok(d)
            }
        },
    }
}

/// The merged resolution document: the config file (absent in lightweight
/// mode), then the environment, then the command-line draft, later
/// sources overriding earlier ones.
pub open spec fn resolved_jv(file: Option<Jv>, env: Jv, draft: RgaConfigV) -> Jv {
    let base = match file {
        Some(f) => merge_jv(f, env),
        None => env,
    };
    merge_jv(base, config_jv(draft))
}

/// The typed result with the command-line-only fields taken back from the
/// draft: they are never serialized, so the merge/deserialize round trip
/// would otherwise lose them.
pub open spec fn reinject_cli(cv: RgaConfigV, draft: RgaConfigV) -> RgaConfigV {
    RgaConfigV {
        config_file_path: draft.config_file_path,
        fzf_path: draft.fzf_path,
        list_adapters: draft.list_adapters,
        print_config_schema: draft.print_config_schema,
        rg_help: draft.rg_help,
        rg_version: draft.rg_version,
        ..cv
    }
}

/// The view of an optional file document.
pub open spec fn opt_doc_jv(file_doc: Option<&Doc>) -> Option<Jv> {
    match file_doc {
        Some(d) => Some(d@),
        None => None,
    }
}

fn opt_str_copy(s: &Option<String>) -> (r: Option<String>)
    ensures
        r == *s,
{
    match s {
        Some(x) => Some(x.clone()),
        None => None,
    }
}

/// Resolver entry point over already-read source documents: merge in
/// precedence order, deserialize the merged document into the typed
/// configuration, and copy the command-line-only fields back from the
/// draft. Lightweight per-file mode passes no file document.
pub fn resolve(file_doc: Option<&Doc>, env_doc: &Doc, cli_draft: &RgaConfig) -> (r: Result<
    RgaConfig,
    ConfigError,
>)
    requires
        file_doc matches Some(d) ==> doc_wf(*d),
        doc_wf(*env_doc),
        config_wf(*cli_draft),
    ensures
        (r is Ok) == (config_of_jv(resolved_jv(opt_doc_jv(file_doc), env_doc@, cli_draft@))
            is Some),
        r is Ok ==> r->Ok_0@ == reinject_cli(
            config_of_jv(resolved_jv(opt_doc_jv(file_doc), env_doc@, cli_draft@))->0,
            cli_draft@,
        ),
        r is Ok ==> config_wf(r->Ok_0),
        r is Err ==> (r->Err_0 matches ConfigError::MergedConfigInvalid(k, d) && d@
            == resolved_jv(opt_doc_jv(file_doc), env_doc@, cli_draft@)
            && (crate::schema::config_field_rejects(d@, k@) || crate::schema::config_range_rejects(
            d@,
            k@,
        ))),
{
    let args_doc = to_doc(cli_draft);
    let base = match file_doc {
        Some(f) => {
            let fe = merged(f, env_doc);
            merged(&fe, &args_doc)
        }
        None => merged(env_doc, &args_doc),
    };
    let mut res = match from_doc(&base) {
        Ok(c) => c,
        Err(e) => {
            let key = match e {
                ConfigError::WrongValueType(k) => k,
                ConfigError::NumberOutOfRange(k) => k,
                _ => String::new(),
            };
            return Err(ConfigError::MergedConfigInvalid(key, base));
        }
    };
    res.config_file_path = opt_str_copy(&cli_draft.config_file_path);
    res.fzf_path = opt_str_copy(&cli_draft.fzf_path);
    res.list_adapters = cli_draft.list_adapters;
    res.print_config_schema = cli_draft.print_config_schema;
    res.rg_help = cli_draft.rg_help;
    res.rg_version = cli_draft.rg_version;
    proof {
        assert(res@ =~~= reinject_cli(
            config_of_jv(resolved_jv(opt_doc_jv(file_doc), env_doc@, cli_draft@))->0,
            cli_draft@,
        ));
    }
    Ok(res)
}

/// Outcome of a full argument parse: a resolved configuration, or a
/// request for the tool's own help or version text.
#[derive(Debug)]
pub enum ParsedArgs {
    Config(RgaConfig),
    Help,
    Version,
}

/// The flag tokens of a tool-owned argument vector: everything after the
/// program name.
pub open spec fn flag_texts_of(args: Seq<ArgumentV>) -> Seq<Seq<char>> {
    if args.len() <= 1 {
        Seq::empty()
    } else {
        flag_texts(args.skip(1))
    }
}

/// Parse the tool-owned arguments against the sources the boundary has
/// read. Lightweight (per-file) mode merges only the memoized environment
/// document and the arguments; full mode merges the config file, the
/// environment (read afresh) and the arguments, in that precedence order.
pub fn parse_args(
    resolver: &mut Resolver,
    args: &Vec<Argument>,
    is_rga_preproc: bool,
    file: &FileSource,
    env_text: &Option<String>,
) -> (r: Result<ParsedArgs, ConfigError>)
    requires
        resolver_wf(*old(resolver)),
        forall|i: int| 1 <= i < args@.len() ==> (#[trigger] args@[i]@) is Text,
    ensures
        resolver_wf(*final(resolver)),
        !is_rga_preproc ==> final(resolver).env_doc == old(resolver).env_doc,
        (r matches Ok(ParsedArgs::Help)) == (cli_fold(
            default_config_spec(),
            flag_texts_of(args.deep_view()),
        ) is Help),
        (r matches Ok(ParsedArgs::Version)) == (cli_fold(
            default_config_spec(),
            flag_texts_of(args.deep_view()),
        ) is Version),
        cli_fold(default_config_spec(), flag_texts_of(args.deep_view())) is Fail ==> r is Err,
        is_rga_preproc ==> (cli_fold(default_config_spec(), flag_texts_of(args.deep_view()))
            matches CliSpecOutcome::Done(dv) ==> {
            let envj = match old(resolver).env_doc {
                Some(ed) => Some(ed@),
                None => env_doc_jv(*env_text),
            };
            match envj {
                None => r is Err,
                Some(ej) => match config_of_jv(resolved_jv(None, ej, dv)) {
                    Some(cv) => (r matches Ok(ParsedArgs::Config(c)) && c@ == reinject_cli(
                        cv,
                        dv,
                    )),
                    None => r is Err,
                },
            }
        }),
        !is_rga_preproc ==> (cli_fold(default_config_spec(), flag_texts_of(args.deep_view()))
            matches CliSpecOutcome::Done(dv) ==> {
            match file_doc_jv(*file, dv.config_file_path) {
                None => r is Err,
                Some(fj) => match env_doc_jv(*env_text) {
                    None => r is Err,
                    Some(ej) => match config_of_jv(resolved_jv(Some(fj), ej, dv)) {
                        Some(cv) => (r matches Ok(ParsedArgs::Config(c)) && c@ == reinject_cli(
                            cv,
                            dv,
                        )),
                        None => r is Err,
                    },
                },
            }
        }),
{
    let flags = text_args(args);
    proof {
        assert(args.deep_view().len() == args@.len());
        assert(flags.deep_view() == flag_texts_of(args.deep_view()));
    }
    let draft = match parse_cli(&flags)? {
        CliOutcome::Help => {
            return Ok(ParsedArgs::Help);
        }
        CliOutcome::Version => {
            return Ok(ParsedArgs::Version);
        }
        CliOutcome::Parsed(d) => d,
    };
    let res = if is_rga_preproc {
        let env_doc = resolver.read_config_env_cached(env_text)?;
        resolve(None, &env_doc, &draft)?
    } else {
        let file_doc = read_config_file(file, &draft.config_file_path)?;
        let env_doc = read_config_env(env_text)?;
        resolve(Some(&file_doc), &env_doc, &draft)?
    };
    Ok(ParsedArgs::Config(res))
}

/// The full invocation flow of the original splitter, over an already
/// partitioned argument vector: parse the tool-owned half, and prepend
/// the wrapped engine's own help/version flags to the pass-through half
/// when the configuration requests them.
pub fn resolve_invocation(
    resolver: &mut Resolver,
    tool_owned: &Vec<Argument>,
    passthrough: &Vec<Argument>,
    is_rga_preproc: bool,
    file: &FileSource,
    env_text: &Option<String>,
) -> (r: Result<(ParsedArgs, Vec<Argument>), ConfigError>)
    requires
        resolver_wf(*old(resolver)),
        forall|i: int| 1 <= i < tool_owned@.len() ==> (#[trigger] tool_owned@[i]@) is Text,
    ensures
        resolver_wf(*final(resolver)),
        !is_rga_preproc ==> final(resolver).env_doc == old(resolver).env_doc,
        ((cli_fold(default_config_spec(), flag_texts_of(tool_owned.deep_view())) is Help)
            == (r matches Ok(o) && o.0 is Help)),
        ((cli_fold(default_config_spec(), flag_texts_of(tool_owned.deep_view())) is Version)
            == (r matches Ok(o) && o.0 is Version)),
        cli_fold(default_config_spec(), flag_texts_of(tool_owned.deep_view())) is Fail
            ==> r is Err,
        is_rga_preproc ==> (cli_fold(default_config_spec(), flag_texts_of(
            tool_owned.deep_view(),
        )) matches CliSpecOutcome::Done(dv) ==> {
            let envj = match old(resolver).env_doc {
                Some(ed) => Some(ed@),
                None => env_doc_jv(*env_text),
            };
            match envj {
                None => r is Err,
                Some(ej) => match config_of_jv(resolved_jv(None, ej, dv)) {
                    Some(cv) => (r matches Ok(o) && o.0 matches ParsedArgs::Config(c) && c@
                        == reinject_cli(cv, dv)),
                    None => r is Err,
                },
            }
        }),
        !is_rga_preproc ==> (cli_fold(default_config_spec(), flag_texts_of(
            tool_owned.deep_view(),
        )) matches CliSpecOutcome::Done(dv) ==> {
            match file_doc_jv(*file, dv.config_file_path) {
                None => r is Err,
                Some(fj) => match env_doc_jv(*env_text) {
                    None => r is Err,
                    Some(ej) => match config_of_jv(resolved_jv(Some(fj), ej, dv)) {
                        Some(cv) => (r matches Ok(o) && o.0 matches ParsedArgs::Config(c)
                            && c@ == reinject_cli(cv, dv)),
                        None => r is Err,
                    },
                },
            }
        }),
        r matches Ok((ParsedArgs::Config(c), p)) ==> p.deep_view() == (if c.rg_version {
            seq![ArgumentV::Text("--version"@)]
        } else {
            Seq::<ArgumentV>::empty()
        }).add(
            if c.rg_help {
                seq![ArgumentV::Text("--help"@)]
            } else {
                Seq::<ArgumentV>::empty()
            },
        ).add(passthrough.deep_view()),
        r matches Ok((ParsedArgs::Help, p)) ==> p.deep_view() == passthrough.deep_view(),
        r matches Ok((ParsedArgs::Version, p)) ==> p.deep_view() == passthrough.deep_view(),
{
    let parsed = parse_args(resolver, tool_owned, is_rga_preproc, file, env_text)?;
    match parsed {
        ParsedArgs::Config(c) => {
            let fwd = forwarded_args(c.rg_help, c.rg_version, passthrough);
            Ok((ParsedArgs::Config(c), fwd))
        }
        other => {
            let fwd = forwarded_args(false, false, passthrough);
            Ok((other, fwd))
        }
    }
}

} // verus!
