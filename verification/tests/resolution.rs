use rga_config::args::{split_args, Argument};
use rga_config::cli::{parse_cli, CliOutcome};
use rga_config::json::{json_merge, Doc};
use rga_config::scalars::{CacheMaxBlobLen, CacheCompressionLevel, MaxArchiveRecursion};
use rga_config::schema::{default_config, from_doc, to_doc};
use rga_config::errors::ConfigError;
use rga_config::resolve::{
    parse_args, read_config_env, resolve_invocation, FileSource, ParsedArgs, Resolver,
};

#[test]
fn byte_size_round_trip_with_suffixes() {
    for (text, value) in [("10k", 10_000usize), ("10M", 10_000_000), ("1G", 1_000_000_000)] {
        let parsed = CacheMaxBlobLen::from_str(text).unwrap();
        assert_eq!(parsed.0, value);
        let formatted = parsed.to_text();
        assert_eq!(CacheMaxBlobLen::from_str(&formatted).unwrap().0, value);
    }
}

#[test]
fn byte_size_rejects_empty_and_garbage() {
    assert!(CacheMaxBlobLen::from_str("").is_err());
    assert!(CacheMaxBlobLen::from_str("abc").is_err());
}

#[test]
fn scalar_parse_and_format() {
    assert_eq!(CacheCompressionLevel::parse_text("12").unwrap().0, 12);
    assert_eq!(CacheCompressionLevel::parse_text("-3").unwrap().0, -3);
    assert_eq!(CacheCompressionLevel(22).to_text(), "22");
    assert_eq!(MaxArchiveRecursion::parse_text("7").unwrap().0, 7);
    assert!(MaxArchiveRecursion::parse_text("x7").is_err());
}

#[test]
fn merge_latest_document_wins() {
    let mut a = Doc::Obj(vec![
        ("x".to_string(), Doc::Int(1)),
        ("keep".to_string(), Doc::Str("old".to_string())),
    ]);
    let b = Doc::Obj(vec![("x".to_string(), Doc::Int(2))]);
    json_merge(&mut a, &b);
    match &a {
        Doc::Obj(entries) => {
            assert_eq!(entries.len(), 2);
            assert!(matches!(entries[0], (ref k, Doc::Int(2)) if k == "x"));
            assert!(matches!(entries[1], (ref k, Doc::Str(ref v)) if k == "keep" && v == "old"));
        }
        _ => panic!("merge of objects must stay an object"),
    }
}

#[test]
fn merge_recurses_into_shared_objects() {
    let mut file = Doc::Obj(vec![(
        "cache".to_string(),
        Doc::Obj(vec![("disabled".to_string(), Doc::Bool(true))]),
    )]);
    let cli = Doc::Obj(vec![(
        "cache".to_string(),
        Doc::Obj(vec![("max_blob_len".to_string(), Doc::Int(10_000_000))]),
    )]);
    json_merge(&mut file, &cli);
    let resolved = from_doc(&file).unwrap();
    assert!(resolved.cache.disabled);
    assert_eq!(resolved.cache.max_blob_len.0, 10_000_000);
    assert_eq!(resolved.cache.compression_level.0, 12);
}

#[test]
fn default_config_round_trips_through_document() {
    let doc = to_doc(&default_config());
    let back = from_doc(&doc).unwrap();
    let dflt = default_config();
    assert_eq!(back.accurate, dflt.accurate);
    assert_eq!(back.adapters, dflt.adapters);
    assert_eq!(back.cache.disabled, dflt.cache.disabled);
    assert_eq!(back.cache.max_blob_len, dflt.cache.max_blob_len);
    assert_eq!(back.cache.compression_level, dflt.cache.compression_level);
    assert_eq!(back.max_archive_recursion.0, dflt.max_archive_recursion.0);
    assert_eq!(back.zip_extensions, dflt.zip_extensions);
    assert_eq!(back.postproc_page_include_empty, dflt.postproc_page_include_empty);
}

#[test]
fn empty_sources_resolve_to_compiled_defaults() {
    // no config file, no environment: an empty document deserializes to
    // the compiled-in defaults
    let empty = Doc::Obj(vec![]);
    let resolved = from_doc(&empty).unwrap();
    assert!(!resolved.cache.disabled);
    assert_eq!(resolved.cache.max_blob_len.0, 2_000_000);
    assert_eq!(resolved.cache.compression_level.0, 12);
    assert_eq!(resolved.max_archive_recursion.0, 5);
}

#[test]
fn partition_is_stable_and_first_argument_is_tool_owned() {
    let argv = vec![
        Argument::Text("prog".to_string()),
        Argument::Text("--rga-accurate".to_string()),
        Argument::Text("--rga-max-archive-recursion=3".to_string()),
        Argument::Text("foo".to_string()),
        Argument::Text("bar.txt".to_string()),
        Argument::Raw(vec![0xff, 0xfe]),
    ];
    let (owned, pass) = split_args(&argv);
    let owned_texts: Vec<&str> = owned
        .iter()
        .map(|a| match a {
            Argument::Text(s) => s.as_str(),
            Argument::Raw(_) => panic!("tool-owned arguments are text"),
        })
        .collect();
    assert_eq!(owned_texts, vec!["prog", "--rga-accurate", "--rga-max-archive-recursion=3"]);
    assert_eq!(pass.len(), 3);
    assert!(matches!(&pass[0], Argument::Text(s) if s == "foo"));
    assert!(matches!(&pass[1], Argument::Text(s) if s == "bar.txt"));
    assert!(matches!(&pass[2], Argument::Raw(b) if b == &vec![0xff, 0xfe]));
}

#[test]
fn cli_draft_reflects_flags_over_defaults() {
    let flags = vec![
        "--rga-accurate".to_string(),
        "--rga-max-archive-recursion=3".to_string(),
    ];
    match parse_cli(&flags).unwrap() {
        CliOutcome::Parsed(cfg) => {
            assert!(cfg.accurate);
            assert_eq!(cfg.max_archive_recursion.0, 3);
            assert_eq!(cfg.cache.max_blob_len.0, 2_000_000);
        }
        _ => panic!("plain flags must parse to a draft"),
    }
}

#[test]
fn cli_errors_name_the_offending_flag() {
    let unknown = vec!["--rga-bogus".to_string()];
    assert!(parse_cli(&unknown).is_err());
    let missing = vec!["--rga-adapters".to_string()];
    assert!(parse_cli(&missing).is_err());
    let bad_value = vec!["--rga-cache-max-blob-len=".to_string()];
    assert!(parse_cli(&bad_value).is_err());
}

#[test]
fn cli_help_and_version_are_recognized() {
    assert!(matches!(parse_cli(&vec!["-h".to_string()]), Ok(CliOutcome::Help)));
    assert!(matches!(parse_cli(&vec!["--version".to_string()]), Ok(CliOutcome::Version)));
}

#[test]
fn byte_size_takes_only_one_suffix_character() {
    // only the final character may be a suffix: a repeated suffix leaves
    // a prefix that is not an unsigned integer
    assert!(CacheMaxBlobLen::from_str("5kk").is_err());
    assert!(CacheMaxBlobLen::from_str("5MM").is_err());
    assert_eq!(CacheMaxBlobLen::from_str("5k").unwrap().0, 5000);
}

#[test]
fn resolution_with_no_sources_gives_defaults() {
    let mut resolver = Resolver::new();
    let args = vec![Argument::Text("prog".to_string())];
    let r = parse_args(&mut resolver, &args, false, &FileSource::Absent, &None).unwrap();
    match r {
        ParsedArgs::Config(cfg) => {
            assert!(!cfg.cache.disabled);
            assert_eq!(cfg.cache.max_blob_len.0, 2_000_000);
            assert_eq!(cfg.cache.compression_level.0, 12);
            assert_eq!(cfg.max_archive_recursion.0, 5);
        }
        _ => panic!("empty args must resolve to a configuration"),
    }
}

#[test]
fn cli_overrides_file_on_touched_field_only() {
    let mut resolver = Resolver::new();
    let file = FileSource::Contents(
        "{ /* disable the cache */ \"cache\": { \"disabled\": true } }".to_string(),
    );
    let args = vec![
        Argument::Text("prog".to_string()),
        Argument::Text("--rga-cache-max-blob-len=10M".to_string()),
    ];
    let r = parse_args(&mut resolver, &args, false, &file, &None).unwrap();
    match r {
        ParsedArgs::Config(cfg) => {
            assert!(cfg.cache.disabled);
            assert_eq!(cfg.cache.max_blob_len.0, 10_000_000);
        }
        _ => panic!("flags must resolve to a configuration"),
    }
}

#[test]
fn environment_overrides_file_and_cli_overrides_environment() {
    let mut resolver = Resolver::new();
    let file = FileSource::Contents(
        "{ \"max_archive_recursion\": 2, \"accurate\": true }".to_string(),
    );
    let env = Some("{ \"max_archive_recursion\": 4 }".to_string());
    let args = vec![Argument::Text("prog".to_string())];
    match parse_args(&mut resolver, &args, false, &file, &env).unwrap() {
        ParsedArgs::Config(cfg) => {
            assert_eq!(cfg.max_archive_recursion.0, 4);
            assert!(cfg.accurate);
        }
        _ => panic!("must resolve"),
    }
}

#[test]
fn missing_override_file_is_its_own_error() {
    let mut resolver = Resolver::new();
    let args = vec![
        Argument::Text("prog".to_string()),
        Argument::Text("--rga-config-file=/nowhere/rga.jsonc".to_string()),
    ];
    match parse_args(&mut resolver, &args, false, &FileSource::Absent, &None) {
        Err(ConfigError::ConfigFileNotFound(p)) => assert_eq!(p, "/nowhere/rga.jsonc"),
        other => panic!("expected a config-file-not-found error, got {other:?}"),
    }
}

#[test]
fn malformed_environment_is_rejected_with_its_text() {
    match read_config_env(&Some("{nope".to_string())) {
        Err(ConfigError::EnvNotJson(t)) => assert_eq!(t, "{nope"),
        other => panic!("expected an environment JSON error, got {other:?}"),
    }
}

#[test]
fn lightweight_mode_reads_the_environment_once() {
    let mut resolver = Resolver::new();
    let args = vec![Argument::Text("prog".to_string())];
    let mut env_reads = 0;
    let mut read_env = || {
        env_reads += 1;
        Some("{ \"accurate\": true }".to_string())
    };
    let env1 = if resolver.env_is_cached() { None } else { read_env() };
    let r1 = parse_args(&mut resolver, &args, true, &FileSource::Absent, &env1).unwrap();
    assert!(matches!(r1, ParsedArgs::Config(ref c) if c.accurate));
    // second resolution in the same context: the variable is not read
    // again, and even a text that would fail to parse is never touched
    let env2 = Some("this is not json".to_string());
    assert!(resolver.env_is_cached());
    let r2 = parse_args(&mut resolver, &args, true, &FileSource::Absent, &env2).unwrap();
    assert!(matches!(r2, ParsedArgs::Config(ref c) if c.accurate));
    assert_eq!(env_reads, 1);
}

#[test]
fn help_and_version_forward_to_the_engine() {
    let mut resolver = Resolver::new();
    let owned = vec![
        Argument::Text("prog".to_string()),
        Argument::Text("--rg-help".to_string()),
    ];
    let pass = vec![Argument::Text("pattern".to_string())];
    let (r, fwd) =
        resolve_invocation(&mut resolver, &owned, &pass, false, &FileSource::Absent, &None)
            .unwrap();
    assert!(matches!(r, ParsedArgs::Config(ref c) if c.rg_help));
    let texts: Vec<&str> = fwd
        .iter()
        .map(|a| match a {
            Argument::Text(s) => s.as_str(),
            Argument::Raw(_) => panic!("text expected"),
        })
        .collect();
    assert_eq!(texts, vec!["--help", "pattern"]);
}

#[test]
fn schema_description_lists_every_serialized_option() {
    match rga_config::schema::schema_doc() {
        Doc::Obj(entries) => {
            assert_eq!(entries.len(), 14);
            assert!(entries.iter().any(|(k, v)| {
                k == "cache.max_blob_len" && matches!(v, Doc::Str(s) if s.contains("2000000"))
            }));
            assert!(entries.iter().any(|(k, _)| k == "max_archive_recursion"));
        }
        _ => panic!("the option description is an object"),
    }
}
