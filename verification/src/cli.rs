//! The CLI reader: parses the tool-owned argument tokens into a draft
//! configuration over the schema defaults. Flags are long-form with the
//! tool's own prefix; value-carrying flags require `=value`; list values
//! are comma-delimited. Unknown flags, missing values and malformed values
//! fail with an error naming the offending text.

use vstd::prelude::*;
use crate::errors::ConfigError;
use crate::scalars::{
    byte_size_of, CacheCompressionLevel, CacheMaxBlobLen, CachePath, MaxArchiveRecursion,
};
use crate::schema::{default_config_spec, default_config, config_wf, RgaConfig, RgaConfigV, CacheConfigV};
use crate::args::has_prefix;
use crate::text::{
    int_text_val, split_commas, split_commas_spec, str_eq_str, str_starts_with, valid_int_text,
};

verus! {

/// What a sequence of CLI tokens denotes.
pub enum CliSpecOutcome {
    /// A draft configuration.
    Done(RgaConfigV),
    /// The tool's own help was requested.
    Help,
    /// The tool's own version was requested.
    Version,
    /// A token was rejected.
    Fail,
}

/// Result of parsing the tool-owned tokens.
#[derive(Debug)]
pub enum CliOutcome {
    /// The parsed draft configuration.
    Parsed(RgaConfig),
    /// The tool's own help was requested.
    Help,
    /// The tool's own version was requested.
    Version,
}

/// What one token does to the draft configuration `c`.
pub open spec fn cli_token(c: RgaConfigV, t: Seq<char>) -> CliSpecOutcome {
    if t == "--help"@ || t == "-h"@ {
        CliSpecOutcome::Help
    } else if t == "--version"@ || t == "-V"@ {
        CliSpecOutcome::Version
    } else if t == "--rga-accurate"@ {
        CliSpecOutcome::Done(RgaConfigV { accurate: true, ..c })
    } else if t == "--rga-no-prefix-filenames"@ {
        CliSpecOutcome::Done(RgaConfigV { no_prefix_filenames: true, ..c })
    } else if t == "--rga-list-adapters"@ {
        CliSpecOutcome::Done(RgaConfigV { list_adapters: true, ..c })
    } else if t == "--rga-print-config-schema"@ {
        CliSpecOutcome::Done(RgaConfigV { print_config_schema: true, ..c })
    } else if t == "--rg-help"@ {
        CliSpecOutcome::Done(RgaConfigV { rg_help: true, ..c })
    } else if t == "--rg-version"@ {
        CliSpecOutcome::Done(RgaConfigV { rg_version: true, ..c })
    } else if t == "--rga-no-cache"@ {
        CliSpecOutcome::Done(
            RgaConfigV { cache: CacheConfigV { disabled: true, ..c.cache }, ..c },
        )
    } else if t == "--rga-postproc-page-include-empty"@ {
        CliSpecOutcome::Done(RgaConfigV { postproc_page_include_empty: Some(true), ..c })
    } else if has_prefix(t, "--rga-adapters="@) {
        CliSpecOutcome::Done(
            RgaConfigV { adapters: split_commas_spec(t.skip("--rga-adapters="@.len() as int)), ..c },
        )
    } else if t == "--rga-adapters"@ {
        CliSpecOutcome::Fail
    } else if has_prefix(t, "--rga-max-archive-recursion="@) {
        let v = t.skip("--rga-max-archive-recursion="@.len() as int);
        if valid_int_text(v) && i32::MIN <= int_text_val(v) <= i32::MAX {
            CliSpecOutcome::Done(RgaConfigV { max_archive_recursion: int_text_val(v), ..c })
        } else {
            CliSpecOutcome::Fail
        }
    } else if t == "--rga-max-archive-recursion"@ {
        CliSpecOutcome::Fail
    } else if has_prefix(t, "--rga-config-file="@) {
        CliSpecOutcome::Done(
            RgaConfigV { config_file_path: Some(t.skip("--rga-config-file="@.len() as int)), ..c },
        )
    } else if t == "--rga-config-file"@ {
        CliSpecOutcome::Fail
    } else if has_prefix(t, "--rga-fzf-path="@) {
        CliSpecOutcome::Done(
            RgaConfigV { fzf_path: Some(t.skip("--rga-fzf-path="@.len() as int)), ..c },
        )
    } else if t == "--rga-fzf-path"@ {
        CliSpecOutcome::Fail
    } else if has_prefix(t, "--rga-zip-extensions="@) {
        CliSpecOutcome::Done(
            RgaConfigV {
                zip_extensions: Some(
                    split_commas_spec(t.skip("--rga-zip-extensions="@.len() as int)),
                ),
                ..c
            },
        )
    } else if t == "--rga-zip-extensions"@ {
        CliSpecOutcome::Fail
    } else if has_prefix(t, "--rga-ffmpeg-extensions="@) {
        CliSpecOutcome::Done(
            RgaConfigV {
                ffmpeg_extensions: Some(
                    split_commas_spec(t.skip("--rga-ffmpeg-extensions="@.len() as int)),
                ),
                ..c
            },
        )
    } else if t == "--rga-ffmpeg-extensions"@ {
        CliSpecOutcome::Fail
    } else if has_prefix(t, "--rga-postproc-binary-marker="@) {
        CliSpecOutcome::Done(
            RgaConfigV {
                postproc_binary_marker: Some(
                    t.skip("--rga-postproc-binary-marker="@.len() as int),
                ),
                ..c
            },
        )
    } else if t == "--rga-postproc-binary-marker"@ {
        CliSpecOutcome::Fail
    } else if has_prefix(t, "--rga-postproc-page-prefix="@) {
        CliSpecOutcome::Done(
            RgaConfigV {
                postproc_page_prefix: Some(t.skip("--rga-postproc-page-prefix="@.len() as int)),
                ..c
            },
        )
    } else if t == "--rga-postproc-page-prefix"@ {
        CliSpecOutcome::Fail
    } else if has_prefix(t, "--rga-cache-max-blob-len="@) {
        let v = t.skip("--rga-cache-max-blob-len="@.len() as int);
        if byte_size_of(v) matches Some(n) && n <= usize::MAX && n <= i64::MAX {
            CliSpecOutcome::Done(
                RgaConfigV {
                    cache: CacheConfigV { max_blob_len: byte_size_of(v)->0, ..c.cache },
                    ..c
                },
            )
        } else {
            CliSpecOutcome::Fail
        }
    } else if t == "--rga-cache-max-blob-len"@ {
        CliSpecOutcome::Fail
    } else if has_prefix(t, "--rga-cache-compression-level="@) {
        let v = t.skip("--rga-cache-compression-level="@.len() as int);
        if valid_int_text(v) && i32::MIN <= int_text_val(v) <= i32::MAX {
            CliSpecOutcome::Done(
                RgaConfigV {
                    cache: CacheConfigV { compression_level: int_text_val(v), ..c.cache },
                    ..c
                },
            )
        } else {
            CliSpecOutcome::Fail
        }
    } else if t == "--rga-cache-compression-level"@ {
        CliSpecOutcome::Fail
    } else if has_prefix(t, "--rga-cache-path="@) {
        CliSpecOutcome::Done(
            RgaConfigV {
                cache: CacheConfigV {
                    path: t.skip("--rga-cache-path="@.len() as int),
                    ..c.cache
                },
                ..c
            },
        )
    } else if t == "--rga-cache-path"@ {
        CliSpecOutcome::Fail
    } else {
        CliSpecOutcome::Fail
    }
}

/// What a token sequence denotes, applied left to right from draft `c`:
/// the first help/version request or rejected token decides; otherwise the
/// final draft.
pub open spec fn cli_fold(c: RgaConfigV, ts: Seq<Seq<char>>) -> CliSpecOutcome
    decreases ts.len(),
{
    if ts.len() == 0 {
        CliSpecOutcome::Done(c)
    } else {
        match cli_token(c, ts[0]) {
            CliSpecOutcome::Done(c2) => cli_fold(c2, ts.skip(1)),
            o => o,
        }
    }
}

/// Parse the tool-owned flag tokens (the program name already removed)
/// into a draft configuration over the schema defaults.
#[verifier::rlimit(100)]
#[verifier::spinoff_prover]
#[verifier::loop_isolation(false)]
pub fn parse_cli(flags: &Vec<String>) -> (r: Result<CliOutcome, ConfigError>)
    ensures
        cli_fold(default_config_spec(), flags.deep_view()) matches CliSpecOutcome::Done(v)
            ==> (r matches Ok(CliOutcome::Parsed(c)) && c@ == v && config_wf(c)),
        (r matches Ok(CliOutcome::Help)) == (cli_fold(default_config_spec(), flags.deep_view())
            is Help),
        (r matches Ok(CliOutcome::Version)) == (cli_fold(
            default_config_spec(),
            flags.deep_view(),
        ) is Version),
        (r is Err) == (cli_fold(default_config_spec(), flags.deep_view()) is Fail),
        r is Err ==> (r->Err_0 is UnknownFlag || r->Err_0 is MissingFlagValue
            || r->Err_0 is MalformedNumber || r->Err_0 is NumberOutOfRange
            || r->Err_0 is EmptyByteSize),
{
    let ghost full = flags.deep_view();
    let mut cfg: RgaConfig = default_config();
    let mut i: usize = 0;
    proof {
        assert(full.skip(0) =~= full);
    }
    while i < flags.len()
        invariant
            i <= flags@.len(),
            full == flags.deep_view(),
            flags.deep_view().len() == flags@.len(),
            forall|j: int| 0 <= j < flags@.len() ==> #[trigger] flags.deep_view()[j]
                == flags@[j]@,
            config_wf(cfg),
            cfg.custom_adapters is None,
            cli_fold(default_config_spec(), full) == cli_fold(cfg@, full.skip(i as int)),
        decreases flags@.len() - i,
    {
        let ghost prev = cfg@;
        let ghost rest = full.skip(i as int);
        proof {
            assert(rest[0] == full[i as int]);
            assert(rest.skip(1) =~= full.skip(i as int + 1));
        }
        let t = flags[i].as_str();
        let n = t.unicode_len();
        if str_eq_str(t, "--help") || str_eq_str(t, "-h") {
            proof {
                assert(cli_token(prev, t@) is Help);
            }
            return Ok(CliOutcome::Help);
        } else if str_eq_str(t, "--version") || str_eq_str(t, "-V") {
            return Ok(CliOutcome::Version);
        } else if str_eq_str(t, "--rga-accurate") {
            cfg.accurate = true;
        } else if str_eq_str(t, "--rga-no-prefix-filenames") {
            cfg.no_prefix_filenames = true;
        } else if str_eq_str(t, "--rga-list-adapters") {
            cfg.list_adapters = true;
        } else if str_eq_str(t, "--rga-print-config-schema") {
            cfg.print_config_schema = true;
        } else if str_eq_str(t, "--rg-help") {
            cfg.rg_help = true;
        } else if str_eq_str(t, "--rg-version") {
            cfg.rg_version = true;
        } else if str_eq_str(t, "--rga-no-cache") {
            cfg.cache.disabled = true;
        } else if str_eq_str(t, "--rga-postproc-page-include-empty") {
            cfg.postproc_page_include_empty = Some(true);
        } else if str_starts_with(t, "--rga-adapters=") {
            let p = "--rga-adapters=";
            let value = t.substring_char(p.unicode_len(), n);
            proof {
                assert(value@ =~= t@.skip(p@.len() as int));
            }
            cfg.adapters = split_commas(value);
        } else if str_eq_str(t, "--rga-adapters") {
            return Err(ConfigError::MissingFlagValue(t.to_owned()));
        } else if str_starts_with(t, "--rga-max-archive-recursion=") {
            let p = "--rga-max-archive-recursion=";
            let value = t.substring_char(p.unicode_len(), n);
            proof {
                assert(value@ =~= t@.skip(p@.len() as int));
            }
            match MaxArchiveRecursion::parse_text(value) {
                Ok(v) => {
                    cfg.max_archive_recursion = v;
                }
                Err(e) => {
                    return Err(e);
                }
            }
        } else if str_eq_str(t, "--rga-max-archive-recursion") {
            return Err(ConfigError::MissingFlagValue(t.to_owned()));
        } else if str_starts_with(t, "--rga-config-file=") {
            let p = "--rga-config-file=";
            let value = t.substring_char(p.unicode_len(), n);
            proof {
                assert(value@ =~= t@.skip(p@.len() as int));
            }
            cfg.config_file_path = Some(value.to_owned());
        } else if str_eq_str(t, "--rga-config-file") {
            return Err(ConfigError::MissingFlagValue(t.to_owned()));
        } else if str_starts_with(t, "--rga-fzf-path=") {
            let p = "--rga-fzf-path=";
            let value = t.substring_char(p.unicode_len(), n);
            proof {
                assert(value@ =~= t@.skip(p@.len() as int));
            }
            cfg.fzf_path = Some(value.to_owned());
        } else if str_eq_str(t, "--rga-fzf-path") {
            return Err(ConfigError::MissingFlagValue(t.to_owned()));
        } else if str_starts_with(t, "--rga-zip-extensions=") {
            let p = "--rga-zip-extensions=";
            let value = t.substring_char(p.unicode_len(), n);
            proof {
                assert(value@ =~= t@.skip(p@.len() as int));
            }
            cfg.zip_extensions = Some(split_commas(value));
        } else if str_eq_str(t, "--rga-zip-extensions") {
            return Err(ConfigError::MissingFlagValue(t.to_owned()));
        } else if str_starts_with(t, "--rga-ffmpeg-extensions=") {
            let p = "--rga-ffmpeg-extensions=";
            let value = t.substring_char(p.unicode_len(), n);
            proof {
                assert(value@ =~= t@.skip(p@.len() as int));
            }
            cfg.ffmpeg_extensions = Some(split_commas(value));
        } else if str_eq_str(t, "--rga-ffmpeg-extensions") {
            return Err(ConfigError::MissingFlagValue(t.to_owned()));
        } else if str_starts_with(t, "--rga-postproc-binary-marker=") {
            let p = "--rga-postproc-binary-marker=";
            let value = t.substring_char(p.unicode_len(), n);
            proof {
                assert(value@ =~= t@.skip(p@.len() as int));
            }
            cfg.postproc_binary_marker = Some(value.to_owned());
        } else if str_eq_str(t, "--rga-postproc-binary-marker") {
            return Err(ConfigError::MissingFlagValue(t.to_owned()));
        } else if str_starts_with(t, "--rga-postproc-page-prefix=") {
            let p = "--rga-postproc-page-prefix=";
            let value = t.substring_char(p.unicode_len(), n);
            proof {
                assert(value@ =~= t@.skip(p@.len() as int));
            }
            cfg.postproc_page_prefix = Some(value.to_owned());
        } else if str_eq_str(t, "--rga-postproc-page-prefix") {
            return Err(ConfigError::MissingFlagValue(t.to_owned()));
        } else if str_starts_with(t, "--rga-cache-max-blob-len=") {
            let p = "--rga-cache-max-blob-len=";
            let value = t.substring_char(p.unicode_len(), n);
            proof {
                assert(value@ =~= t@.skip(p@.len() as int));
            }
            match CacheMaxBlobLen::from_str(value) {
                Ok(v) => {
                    cfg.cache.max_blob_len = v;
                }
                Err(e) => {
                    return Err(e);
                }
            }
        } else if str_eq_str(t, "--rga-cache-max-blob-len") {
            return Err(ConfigError::MissingFlagValue(t.to_owned()));
        } else if str_starts_with(t, "--rga-cache-compression-level=") {
            let p = "--rga-cache-compression-level=";
            let value = t.substring_char(p.unicode_len(), n);
            proof {
                assert(value@ =~= t@.skip(p@.len() as int));
            }
            match CacheCompressionLevel::parse_text(value) {
                Ok(v) => {
                    cfg.cache.compression_level = v;
                }
                Err(e) => {
                    return Err(e);
                }
            }
        } else if str_eq_str(t, "--rga-cache-compression-level") {
            return Err(ConfigError::MissingFlagValue(t.to_owned()));
        } else if str_starts_with(t, "--rga-cache-path=") {
            let p = "--rga-cache-path=";
            let value = t.substring_char(p.unicode_len(), n);
            proof {
                assert(value@ =~= t@.skip(p@.len() as int));
            }
            cfg.cache.path = CachePath(value.to_owned());
        } else if str_eq_str(t, "--rga-cache-path") {
            return Err(ConfigError::MissingFlagValue(t.to_owned()));
        } else {
            return Err(ConfigError::UnknownFlag(t.to_owned()));
        }
        proof {
            assert(cli_token(prev, t@) matches CliSpecOutcome::Done(v) && v =~~= cfg@);
        }
        i = i + 1;
    }
    proof {
        assert(full.skip(flags@.len() as int) =~= Seq::<Seq<char>>::empty());
    }
    Ok(CliOutcome::Parsed(cfg))
}

} // verus!
