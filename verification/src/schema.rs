//! The configuration schema: the full set of recognized options with their
//! defaults, and the serialization of a typed configuration to and from the
//! generic document tree used for merging.
//!
//! Fields marked "skip when default" in the serialized form are omitted when
//! equal to their default, so a freshly-defaulted configuration serializes
//! small and never falsely signals an explicitly-set value during merging.
//! The pass-through and override fields (help/version requests, the
//! fuzzy-finder path, the adapter-listing and schema-print requests, the
//! config-file path) exist only on the command line and are never
//! serialized.

use vstd::prelude::*;
use vstd::std_specs::cmp::PartialEqSpec;
use crate::errors::ConfigError;
use crate::json::{
    doc_view, doc_wf, docs_view, docs_wf, entries_map, entries_wf, lemma_entries_map, doc_copy,
    lemma_docs_pointwise, Doc, Jv,
};
use crate::scalars::{CacheCompressionLevel, CacheMaxBlobLen, CachePath, MaxArchiveRecursion};

verus! {

/// Cache settings block.
#[derive(Debug, Clone)]
pub struct CacheConfig {
    /// Disable caching of results.
    pub disabled: bool,
    /// Longest compressed blob length that is still cached.
    pub max_blob_len: CacheMaxBlobLen,
    /// ZSTD compression level applied before storing.
    pub compression_level: CacheCompressionLevel,
    /// Where the cache database lives.
    pub path: CachePath,
}

/// Model of a cache settings block.
#[verifier::ext_equal]
pub struct CacheConfigV {
    pub disabled: bool,
    pub max_blob_len: int,
    pub compression_level: int,
    pub path: Seq<char>,
}

impl View for CacheConfig {
    type V = CacheConfigV;

    open spec fn view(&self) -> CacheConfigV {
        CacheConfigV {
            disabled: self.disabled,
            max_blob_len: self.max_blob_len.0 as int,
            compression_level: self.compression_level.0 as int,
            path: self.path.0@,
        }
    }
}

/// The fully-defaulted cache settings.
pub open spec fn default_cache_spec() -> CacheConfigV {
    CacheConfigV { disabled: false, max_blob_len: 2000000, compression_level: 12, path: seq![] }
}

impl Default for CacheConfig {
    /// Compiled-in cache defaults: caching on, two-megabyte blob limit,
    /// level-12 compression, platform cache directory.
    fn default() -> (r: Self)
        ensures
            r@ == default_cache_spec(),
    {
        let r = CacheConfig {
            disabled: false,
            max_blob_len: CacheMaxBlobLen(2000000),
            compression_level: CacheCompressionLevel(12),
            path: CachePath(String::new()),
        };
        proof {
            assert(r@ =~= default_cache_spec());
        }
        r
    }
}

/// The resolved configuration consumed by the rest of the tool.
#[derive(Debug)]
pub struct RgaConfig {
    /// Use more accurate but slower matching by mime type.
    pub accurate: bool,
    /// Which adapters to use, in priority order; empty means the defaults.
    pub adapters: Vec<String>,
    /// Cache settings block.
    pub cache: CacheConfig,
    /// Maximum depth of nested archives to recurse into.
    pub max_archive_recursion: MaxArchiveRecursion,
    /// Don't prefix lines of archived files with the path inside the archive.
    pub no_prefix_filenames: bool,
    /// User-defined adapter descriptors; config-file only, kept as raw
    /// documents.
    pub custom_adapters: Option<Vec<Doc>>,
    /// Explicit config-file path override; command-line only.
    pub config_file_path: Option<String>,
    /// Path override used by the fuzzy-finder integration; command-line only.
    pub fzf_path: Option<String>,
    /// Request to list all known adapters; command-line only.
    pub list_adapters: bool,
    /// Request to print the config schema; command-line only.
    pub print_config_schema: bool,
    /// Request to see the wrapped engine's own help; command-line only.
    pub rg_help: bool,
    /// Request to see the wrapped engine's own version; command-line only.
    pub rg_version: bool,
    /// Override of the built-in ZIP adapter's file extensions.
    pub zip_extensions: Option<Vec<String>>,
    /// Override of the built-in FFmpeg adapter's file extensions.
    pub ffmpeg_extensions: Option<Vec<String>>,
    /// Marker inserted by post-processing for binary content.
    pub postproc_binary_marker: Option<String>,
    /// Prefix inserted by post-processing before each page.
    pub postproc_page_prefix: Option<String>,
    /// Whether post-processing keeps empty pages.
    pub postproc_page_include_empty: Option<bool>,
}

/// Model of the resolved configuration.
#[verifier::ext_equal]
pub struct RgaConfigV {
    pub accurate: bool,
    pub adapters: Seq<Seq<char>>,
    pub cache: CacheConfigV,
    pub max_archive_recursion: int,
    pub no_prefix_filenames: bool,
    pub custom_adapters: Option<Seq<Jv>>,
    pub config_file_path: Option<Seq<char>>,
    pub fzf_path: Option<Seq<char>>,
    pub list_adapters: bool,
    pub print_config_schema: bool,
    pub rg_help: bool,
    pub rg_version: bool,
    pub zip_extensions: Option<Seq<Seq<char>>>,
    pub ffmpeg_extensions: Option<Seq<Seq<char>>>,
    pub postproc_binary_marker: Option<Seq<char>>,
    pub postproc_page_prefix: Option<Seq<char>>,
    pub postproc_page_include_empty: Option<bool>,
}

impl View for RgaConfig {
    type V = RgaConfigV;

    open spec fn view(&self) -> RgaConfigV {
        RgaConfigV {
            accurate: self.accurate,
            adapters: self.adapters.deep_view(),
            cache: self.cache@,
            max_archive_recursion: self.max_archive_recursion.0 as int,
            no_prefix_filenames: self.no_prefix_filenames,
            custom_adapters: match self.custom_adapters {
                Some(v) => Some(docs_view(v@)),
                None => None,
            },
            config_file_path: match self.config_file_path {
                Some(s) => Some(s@),
                None => None,
            },
            fzf_path: match self.fzf_path {
                Some(s) => Some(s@),
                None => None,
            },
            list_adapters: self.list_adapters,
            print_config_schema: self.print_config_schema,
            rg_help: self.rg_help,
            rg_version: self.rg_version,
            zip_extensions: match self.zip_extensions {
                Some(v) => Some(v.deep_view()),
                None => None,
            },
            ffmpeg_extensions: match self.ffmpeg_extensions {
                Some(v) => Some(v.deep_view()),
                None => None,
            },
            postproc_binary_marker: match self.postproc_binary_marker {
                Some(s) => Some(s@),
                None => None,
            },
            postproc_page_prefix: match self.postproc_page_prefix {
                Some(s) => Some(s@),
                None => None,
            },
            postproc_page_include_empty: self.postproc_page_include_empty,
        }
    }
}

/// The fully-defaulted configuration.
pub open spec fn default_config_spec() -> RgaConfigV {
    RgaConfigV {
        accurate: false,
        adapters: seq![],
        cache: default_cache_spec(),
        max_archive_recursion: 5,
        no_prefix_filenames: false,
        custom_adapters: None,
        config_file_path: None,
        fzf_path: None,
        list_adapters: false,
        print_config_schema: false,
        rg_help: false,
        rg_version: false,
        zip_extensions: None,
        ffmpeg_extensions: None,
        postproc_binary_marker: None,
        postproc_page_prefix: None,
        postproc_page_include_empty: None,
    }
}

/// The compiled-in default configuration.
pub fn default_config() -> (r: RgaConfig)
    ensures
        r@ == default_config_spec(),
{
    let r = RgaConfig {
        accurate: false,
        adapters: Vec::new(),
        cache: CacheConfig::default(),
        max_archive_recursion: MaxArchiveRecursion(5),
        no_prefix_filenames: false,
        custom_adapters: None,
        config_file_path: None,
        fzf_path: None,
        list_adapters: false,
        print_config_schema: false,
        rg_help: false,
        rg_version: false,
        zip_extensions: None,
        ffmpeg_extensions: None,
        postproc_binary_marker: None,
        postproc_page_prefix: None,
        postproc_page_include_empty: None,
    };
    proof {
        assert(r.adapters.deep_view() =~= Seq::<Seq<char>>::empty());
        assert(r@ =~= default_config_spec());
    }
    r
}

impl Default for RgaConfig {
    /// Same value as `default_config`.
    fn default() -> (r: Self)
        ensures
            r@ == default_config_spec(),
    {
        default_config()
    }
}

/// Whether a value equals its type's default, decided through the type's
/// own equality. When the type's equality obeys its specification, the
/// result is the specified equality against some default value of the type.
pub fn is_default<T: core::default::Default + PartialEq>(t: &T) -> (r: bool)
    ensures
        T::obeys_eq_spec() ==> exists|d: T|
            call_ensures(T::default, (), d) && r == t.eq_spec(&d),
{
    let d = T::default();
    *t == d
}

/// Whether the cache block equals its default.
pub open spec fn cache_is_default(c: CacheConfigV) -> bool {
    c == default_cache_spec()
}

fn cache_block_is_default(c: &CacheConfig) -> (r: bool)
    ensures
        r == cache_is_default(c@),
{
    let r = !c.disabled && c.max_blob_len.0 == 2000000 && c.compression_level.0 == 12
        && c.path.0.unicode_len() == 0;
    proof {
        if r {
            assert(c.path.0@ =~= Seq::<char>::empty());
            assert(c@ =~= default_cache_spec());
        } else {
            assert(c@ != default_cache_spec());
        }
    }
    r
}

/// The serialized form of a cache block: each field present exactly when it
/// differs from its default.
pub open spec fn cache_jv(c: CacheConfigV) -> Jv {
    let m = Map::<Seq<char>, Jv>::empty();
    let m = if c.disabled { m.insert("disabled"@, Jv::Bool(c.disabled)) } else { m };
    let m = if c.max_blob_len != 2000000 {
        m.insert("max_blob_len"@, Jv::Int(c.max_blob_len))
    } else {
        m
    };
    let m = if c.compression_level != 12 {
        m.insert("compression_level"@, Jv::Int(c.compression_level))
    } else {
        m
    };
    let m = if c.path.len() != 0 { m.insert("path"@, Jv::Str(c.path)) } else { m };
    Jv::Obj(m)
}

/// The serialized form of a configuration: fields with in-schema defaults
/// are present exactly when they differ from the default; the extension
/// overrides and post-processing options are always present, `null` when
/// unset; command-line-only fields are never present.
pub open spec fn config_jv(c: RgaConfigV) -> Jv {
    let m = Map::<Seq<char>, Jv>::empty();
    let m = if c.accurate { m.insert("accurate"@, Jv::Bool(c.accurate)) } else { m };
    let m = if c.adapters.len() > 0 {
        m.insert("adapters"@, Jv::Arr(c.adapters.map_values(|s: Seq<char>| Jv::Str(s))))
    } else {
        m
    };
    let m = if !cache_is_default(c.cache) { m.insert("cache"@, cache_jv(c.cache)) } else { m };
    let m = if c.max_archive_recursion != 5 {
        m.insert("max_archive_recursion"@, Jv::Int(c.max_archive_recursion))
    } else {
        m
    };
    let m = if c.no_prefix_filenames {
        m.insert("no_prefix_filenames"@, Jv::Bool(c.no_prefix_filenames))
    } else {
        m
    };
    let m = match c.custom_adapters {
        Some(v) => m.insert("custom_adapters"@, Jv::Arr(v)),
        None => m,
    };
    let m = m.insert(
        "zip_extensions"@,
        match c.zip_extensions {
            Some(v) => Jv::Arr(v.map_values(|s: Seq<char>| Jv::Str(s))),
            None => Jv::Null,
        },
    );
    let m = m.insert(
        "ffmpeg_extensions"@,
        match c.ffmpeg_extensions {
            Some(v) => Jv::Arr(v.map_values(|s: Seq<char>| Jv::Str(s))),
            None => Jv::Null,
        },
    );
    let m = m.insert(
        "postproc_binary_marker"@,
        match c.postproc_binary_marker {
            Some(s) => Jv::Str(s),
            None => Jv::Null,
        },
    );
    let m = m.insert(
        "postproc_page_prefix"@,
        match c.postproc_page_prefix {
            Some(s) => Jv::Str(s),
            None => Jv::Null,
        },
    );
    let m = m.insert(
        "postproc_page_include_empty"@,
        match c.postproc_page_include_empty {
            Some(b) => Jv::Bool(b),
            None => Jv::Null,
        },
    );
    Jv::Obj(m)
}

/// Serialize a list of strings as an array document.
fn str_list_doc(v: &Vec<String>) -> (r: Doc)
    ensures
        r@ == Jv::Arr(v.deep_view().map_values(|s: Seq<char>| Jv::Str(s))),
        doc_wf(r),
{
    let mut out: Vec<Doc> = Vec::new();
    let mut i: usize = 0;
    while i < v.len()
        invariant
            i <= v@.len(),
            out@.len() == i,
            forall|j: int| #![trigger out@[j]] 0 <= j < i ==> out@[j] == Doc::Str(v@[j]),
        decreases v@.len() - i,
    {
        out.push(Doc::Str(v[i].clone()));
        i = i + 1;
    }
    proof {
        lemma_docs_view_index(out@);
        assert(docs_view(out@) =~= v.deep_view().map_values(|s: Seq<char>| Jv::Str(s)));
        assert(docs_wf(out@));
    }
    Doc::Arr(out)
}

/// `docs_view` is the pointwise model.
pub proof fn lemma_docs_view_index(s: Seq<Doc>)
    ensures
        docs_view(s).len() == s.len(),
        forall|i: int| 0 <= i < s.len() ==> #[trigger] docs_view(s)[i] == doc_view(s[i]),
    decreases s.len(),
{
    if s.len() > 0 {
        lemma_docs_view_index(s.drop_last());
    }
}

/// Pushing a fresh key onto a well-formed entry list keeps it well-formed
/// and inserts into the denoted map.
pub proof fn lemma_entries_push(pre: Seq<(String, Doc)>, k: String, v: Doc)
    requires
        entries_wf(pre),
        doc_wf(v),
        forall|i: int| #![trigger pre[i]] 0 <= i < pre.len() ==> pre[i].0@ != k@,
    ensures
        entries_wf(pre.push((k, v))),
        entries_map(pre.push((k, v))) == entries_map(pre).insert(k@, doc_view(v)),
{
    let s = pre.push((k, v));
    assert(s.drop_last() =~= pre);
    assert(s.last() == (k, v));
    assert forall|i: int| 0 <= i < s.len() implies doc_wf((#[trigger] s[i]).1) by {
        if i < pre.len() {
            assert(s[i] == pre[i]);
        }
    }
    assert forall|i: int, j: int| 0 <= i < j < s.len() implies (#[trigger] s[i].0@)
        != (#[trigger] s[j].0@) by {
        if j < pre.len() {
            assert(s[i] == pre[i] && s[j] == pre[j]);
        } else {
            assert(s[i] == pre[i] && s[j] == (k, v));
        }
    }
}

/// Serialize the cache block.
fn cache_to_doc(c: &CacheConfig) -> (r: Doc)
    requires
        c.max_blob_len.0 as int <= i64::MAX as int,
    ensures
        r@ == cache_jv(c@),
        doc_wf(r),
{
    proof {
        reveal_strlit("disabled");
        reveal_strlit("max_blob_len");
        reveal_strlit("compression_level");
        reveal_strlit("path");
    }
    let mut out: Vec<(String, Doc)> = Vec::new();
    if c.disabled {
        let ghost pre = out@;
        out.push((String::from_str("disabled"), Doc::Bool(c.disabled)));
        proof {
            assert(forall|i: int| #![trigger pre[i]] 0 <= i < pre.len() ==> pre[i].0@
                != out@.last().0@);
            lemma_entries_push(pre, out@.last().0, out@.last().1);
            assert(pre.push(out@.last()) =~= out@);
        }
    }
    proof {
        assert(forall|i: int| #![trigger out@[i]] 0 <= i < out@.len() ==> out@[i].0@
            == "disabled"@);
    }
    if c.max_blob_len.0 != 2000000 {
        let ghost pre = out@;
        out.push((String::from_str("max_blob_len"), Doc::Int(usize_to_i64(c.max_blob_len.0))));
        proof {
            assert(forall|i: int| #![trigger pre[i]] 0 <= i < pre.len() ==> pre[i].0@
                != out@.last().0@);
            lemma_entries_push(pre, out@.last().0, out@.last().1);
            assert(pre.push(out@.last()) =~= out@);
        }
    }
    proof {
        assert(forall|i: int| #![trigger out@[i]] 0 <= i < out@.len() ==> out@[i].0@
            == "disabled"@ || out@[i].0@ == "max_blob_len"@);
    }
    if c.compression_level.0 != 12 {
        let ghost pre = out@;
        out.push((
            String::from_str("compression_level"),
            Doc::Int(c.compression_level.0 as i64),
        ));
        proof {
            assert(forall|i: int| #![trigger pre[i]] 0 <= i < pre.len() ==> pre[i].0@
                != out@.last().0@);
            lemma_entries_push(pre, out@.last().0, out@.last().1);
            assert(pre.push(out@.last()) =~= out@);
        }
    }
    proof {
        assert(forall|i: int| #![trigger out@[i]] 0 <= i < out@.len() ==> out@[i].0@
            == "disabled"@ || out@[i].0@ == "max_blob_len"@ || out@[i].0@
            == "compression_level"@);
    }
    if c.path.0.unicode_len() != 0 {
        let ghost pre = out@;
        out.push((String::from_str("path"), Doc::Str(c.path.0.clone())));
        proof {
            assert(forall|i: int| #![trigger pre[i]] 0 <= i < pre.len() ==> pre[i].0@
                != out@.last().0@);
            lemma_entries_push(pre, out@.last().0, out@.last().1);
            assert(pre.push(out@.last()) =~= out@);
        }
    }
    let r = Doc::Obj(out);
    proof {
        assert(r@ is Obj);
        assert(r@->Obj_0 =~= cache_jv(c@)->Obj_0);
        assert(r@ == cache_jv(c@));
    }
    r
}

fn usize_to_i64(v: usize) -> (r: i64)
    requires
        v as int <= i64::MAX as int,
    ensures
        r as int == v as int,
{
    v as i64
}


/// Copy a list of documents.
fn docs_list_copy(v: &Vec<Doc>) -> (r: Vec<Doc>)
    ensures
        docs_view(r@) == docs_view(v@),
        docs_wf(r@) == docs_wf(v@),
{
    let mut out: Vec<Doc> = Vec::new();
    let mut i: usize = 0;
    while i < v.len()
        invariant
            i <= v@.len(),
            out@.len() == i,
            forall|j: int| #![trigger out@[j]] 0 <= j < i ==> doc_view(out@[j])
                == doc_view(v@[j]) && doc_wf(out@[j]) == doc_wf(v@[j]),
        decreases v@.len() - i,
    {
        let c = doc_copy(&v[i]);
        out.push(c);
        i = i + 1;
    }
    proof {
        lemma_docs_pointwise(out@, v@);
    }
    out
}

/// Copy a list of strings.
fn str_vec_copy(v: &Vec<String>) -> (r: Vec<String>)
    ensures
        r@ == v@,
{
    let mut out: Vec<String> = Vec::new();
    let mut i: usize = 0;
    while i < v.len()
        invariant
            i <= v@.len(),
            out@ =~= v@.subrange(0, i as int),
        decreases v@.len() - i,
    {
        out.push(v[i].clone());
        i = i + 1;
    }
    proof {
        assert(v@.subrange(0, v@.len() as int) =~= v@);
    }
    out
}

/// Validity of a configuration value beyond what its types enforce: the
/// blob length serializes as a document integer, and any custom adapter
/// descriptors are well-formed documents.
pub open spec fn config_wf(c: RgaConfig) -> bool {
    &&& c.cache.max_blob_len.0 as int <= i64::MAX as int
    &&& match c.custom_adapters {
        Some(v) => docs_wf(v@),
        None => true,
    }
}

/// Copy of a configuration.
pub fn config_copy(c: &RgaConfig) -> (r: RgaConfig)
    ensures
        r@ == c@,
        config_wf(*c) ==> config_wf(r),
{
    let r = RgaConfig {
        accurate: c.accurate,
        adapters: str_vec_copy(&c.adapters),
        cache: CacheConfig {
            disabled: c.cache.disabled,
            max_blob_len: c.cache.max_blob_len,
            compression_level: c.cache.compression_level,
            path: CachePath(c.cache.path.0.clone()),
        },
        max_archive_recursion: c.max_archive_recursion,
        no_prefix_filenames: c.no_prefix_filenames,
        custom_adapters: match &c.custom_adapters {
            Some(v) => Some(docs_list_copy(v)),
            None => None,
        },
        config_file_path: match &c.config_file_path {
            Some(s) => Some(s.clone()),
            None => None,
        },
        fzf_path: match &c.fzf_path {
            Some(s) => Some(s.clone()),
            None => None,
        },
        list_adapters: c.list_adapters,
        print_config_schema: c.print_config_schema,
        rg_help: c.rg_help,
        rg_version: c.rg_version,
        zip_extensions: match &c.zip_extensions {
            Some(v) => Some(str_vec_copy(v)),
            None => None,
        },
        ffmpeg_extensions: match &c.ffmpeg_extensions {
            Some(v) => Some(str_vec_copy(v)),
            None => None,
        },
        postproc_binary_marker: match &c.postproc_binary_marker {
            Some(s) => Some(s.clone()),
            None => None,
        },
        postproc_page_prefix: match &c.postproc_page_prefix {
            Some(s) => Some(s.clone()),
            None => None,
        },
        postproc_page_include_empty: c.postproc_page_include_empty,
    };
    proof {
        assert(r@ =~~= c@);
    }
    r
}

/// Serialize a configuration to its document form.
#[verifier::rlimit(100)]
#[verifier::spinoff_prover]
pub fn to_doc(c: &RgaConfig) -> (r: Doc)
    requires
        config_wf(*c),
    ensures
        r@ == config_jv(c@),
        doc_wf(r),
{
    proof {
        reveal_strlit("accurate");
        reveal_strlit("adapters");
        reveal_strlit("cache");
        reveal_strlit("max_archive_recursion");
        reveal_strlit("no_prefix_filenames");
        reveal_strlit("custom_adapters");
        reveal_strlit("zip_extensions");
        reveal_strlit("ffmpeg_extensions");
        reveal_strlit("postproc_binary_marker");
        reveal_strlit("postproc_page_prefix");
        reveal_strlit("postproc_page_include_empty");
        assert("accurate"@[1] == 'c' && "adapters"@[1] == 'd');
        assert("accurate"@ != "adapters"@);
        assert("accurate"@.len() == 8);
        assert("adapters"@.len() == 8);
        assert("cache"@.len() == 5);
        assert("max_archive_recursion"@.len() == 21);
        assert("no_prefix_filenames"@.len() == 19);
        assert("custom_adapters"@.len() == 15);
        assert("zip_extensions"@.len() == 14);
        assert("ffmpeg_extensions"@.len() == 17);
        assert("postproc_binary_marker"@.len() == 22);
        assert("postproc_page_prefix"@.len() == 20);
        assert("postproc_page_include_empty"@.len() == 27);
    }
    let mut out: Vec<(String, Doc)> = Vec::new();
    if c.accurate {
        let ghost pre = out@;
        out.push((String::from_str("accurate"), Doc::Bool(c.accurate)));
        proof {
            assert(forall|i: int| #![trigger pre[i]] 0 <= i < pre.len() ==> pre[i].0@
                != out@.last().0@);
            lemma_entries_push(pre, out@.last().0, out@.last().1);
            assert(pre.push(out@.last()) =~= out@);
        }
    }
    proof {
        assert(forall|i: int| #![trigger out@[i]] 0 <= i < out@.len() ==> out@[i].0@
            == "accurate"@);
    }
    if c.adapters.len() > 0 {
        let ghost pre = out@;
        let v = str_list_doc(&c.adapters);
        out.push((String::from_str("adapters"), v));
        proof {
            assert(forall|i: int| #![trigger pre[i]] 0 <= i < pre.len() ==> pre[i].0@
                != out@.last().0@);
            lemma_entries_push(pre, out@.last().0, out@.last().1);
            assert(pre.push(out@.last()) =~= out@);
        }
    }
    proof {
        assert(forall|i: int| #![trigger out@[i]] 0 <= i < out@.len() ==> out@[i].0@
            == "accurate"@ || out@[i].0@ == "adapters"@);
    }
    if !cache_block_is_default(&c.cache) {
        let ghost pre = out@;
        let v = cache_to_doc(&c.cache);
        out.push((String::from_str("cache"), v));
        proof {
            assert(forall|i: int| #![trigger pre[i]] 0 <= i < pre.len() ==> pre[i].0@
                != out@.last().0@);
            lemma_entries_push(pre, out@.last().0, out@.last().1);
            assert(pre.push(out@.last()) =~= out@);
        }
    }
    proof {
        assert(forall|i: int| #![trigger out@[i]] 0 <= i < out@.len() ==> out@[i].0@
            == "accurate"@ || out@[i].0@ == "adapters"@ || out@[i].0@ == "cache"@);
    }
    if c.max_archive_recursion.0 != 5 {
        let ghost pre = out@;
        out.push((
            String::from_str("max_archive_recursion"),
            Doc::Int(c.max_archive_recursion.0 as i64),
        ));
        proof {
            assert(forall|i: int| #![trigger pre[i]] 0 <= i < pre.len() ==> pre[i].0@
                != out@.last().0@);
            lemma_entries_push(pre, out@.last().0, out@.last().1);
            assert(pre.push(out@.last()) =~= out@);
        }
    }
    proof {
        assert(forall|i: int| #![trigger out@[i]] 0 <= i < out@.len() ==> out@[i].0@
            == "accurate"@ || out@[i].0@ == "adapters"@ || out@[i].0@ == "cache"@
            || out@[i].0@ == "max_archive_recursion"@);
    }
    if c.no_prefix_filenames {
        let ghost pre = out@;
        out.push((String::from_str("no_prefix_filenames"), Doc::Bool(c.no_prefix_filenames)));
        proof {
            assert(forall|i: int| #![trigger pre[i]] 0 <= i < pre.len() ==> pre[i].0@
                != out@.last().0@);
            lemma_entries_push(pre, out@.last().0, out@.last().1);
            assert(pre.push(out@.last()) =~= out@);
        }
    }
    proof {
        assert(forall|i: int| #![trigger out@[i]] 0 <= i < out@.len() ==> out@[i].0@
            == "accurate"@ || out@[i].0@ == "adapters"@ || out@[i].0@ == "cache"@
            || out@[i].0@ == "max_archive_recursion"@ || out@[i].0@ == "no_prefix_filenames"@);
    }
    if let Some(v) = &c.custom_adapters {
        let ghost pre = out@;
        let copied = docs_list_copy(v);
        out.push((String::from_str("custom_adapters"), Doc::Arr(copied)));
        proof {
            assert(forall|i: int| #![trigger pre[i]] 0 <= i < pre.len() ==> pre[i].0@
                != out@.last().0@);
            lemma_entries_push(pre, out@.last().0, out@.last().1);
            assert(pre.push(out@.last()) =~= out@);
        }
    }
    proof {
        assert(forall|i: int| #![trigger out@[i]] 0 <= i < out@.len() ==> out@[i].0@
            == "accurate"@ || out@[i].0@ == "adapters"@ || out@[i].0@ == "cache"@
            || out@[i].0@ == "max_archive_recursion"@ || out@[i].0@ == "no_prefix_filenames"@
            || out@[i].0@ == "custom_adapters"@);
    }
    {
        let ghost pre = out@;
        let v = match &c.zip_extensions {
            Some(list) => str_list_doc(list),
            None => Doc::Null,
        };
        out.push((String::from_str("zip_extensions"), v));
        proof {
            assert(forall|i: int| #![trigger pre[i]] 0 <= i < pre.len() ==> pre[i].0@
                != out@.last().0@);
            lemma_entries_push(pre, out@.last().0, out@.last().1);
            assert(pre.push(out@.last()) =~= out@);
        }
    }
    proof {
        assert(forall|i: int| #![trigger out@[i]] 0 <= i < out@.len() ==> out@[i].0@
            == "accurate"@ || out@[i].0@ == "adapters"@ || out@[i].0@ == "cache"@
            || out@[i].0@ == "max_archive_recursion"@ || out@[i].0@ == "no_prefix_filenames"@
            || out@[i].0@ == "custom_adapters"@ || out@[i].0@ == "zip_extensions"@);
    }
    {
        let ghost pre = out@;
        let v = match &c.ffmpeg_extensions {
            Some(list) => str_list_doc(list),
            None => Doc::Null,
        };
        out.push((String::from_str("ffmpeg_extensions"), v));
        proof {
            assert(forall|i: int| #![trigger pre[i]] 0 <= i < pre.len() ==> pre[i].0@
                != out@.last().0@);
            lemma_entries_push(pre, out@.last().0, out@.last().1);
            assert(pre.push(out@.last()) =~= out@);
        }
    }
    proof {
        assert(forall|i: int| #![trigger out@[i]] 0 <= i < out@.len() ==> out@[i].0@
            == "accurate"@ || out@[i].0@ == "adapters"@ || out@[i].0@ == "cache"@
            || out@[i].0@ == "max_archive_recursion"@ || out@[i].0@ == "no_prefix_filenames"@
            || out@[i].0@ == "custom_adapters"@ || out@[i].0@ == "zip_extensions"@
            || out@[i].0@ == "ffmpeg_extensions"@);
    }
    {
        let ghost pre = out@;
        let v = match &c.postproc_binary_marker {
            Some(s) => Doc::Str(s.clone()),
            None => Doc::Null,
        };
        out.push((String::from_str("postproc_binary_marker"), v));
        proof {
            assert(forall|i: int| #![trigger pre[i]] 0 <= i < pre.len() ==> pre[i].0@
                != out@.last().0@);
            lemma_entries_push(pre, out@.last().0, out@.last().1);
            assert(pre.push(out@.last()) =~= out@);
        }
    }
    proof {
        assert(forall|i: int| #![trigger out@[i]] 0 <= i < out@.len() ==> out@[i].0@
            == "accurate"@ || out@[i].0@ == "adapters"@ || out@[i].0@ == "cache"@
            || out@[i].0@ == "max_archive_recursion"@ || out@[i].0@ == "no_prefix_filenames"@
            || out@[i].0@ == "custom_adapters"@ || out@[i].0@ == "zip_extensions"@
            || out@[i].0@ == "ffmpeg_extensions"@ || out@[i].0@ == "postproc_binary_marker"@);
    }
    {
        let ghost pre = out@;
        let v = match &c.postproc_page_prefix {
            Some(s) => Doc::Str(s.clone()),
            None => Doc::Null,
        };
        out.push((String::from_str("postproc_page_prefix"), v));
        proof {
            assert(forall|i: int| #![trigger pre[i]] 0 <= i < pre.len() ==> pre[i].0@
                != out@.last().0@);
            lemma_entries_push(pre, out@.last().0, out@.last().1);
            assert(pre.push(out@.last()) =~= out@);
        }
    }
    proof {
        assert(forall|i: int| #![trigger out@[i]] 0 <= i < out@.len() ==> out@[i].0@
            == "accurate"@ || out@[i].0@ == "adapters"@ || out@[i].0@ == "cache"@
            || out@[i].0@ == "max_archive_recursion"@ || out@[i].0@ == "no_prefix_filenames"@
            || out@[i].0@ == "custom_adapters"@ || out@[i].0@ == "zip_extensions"@
            || out@[i].0@ == "ffmpeg_extensions"@ || out@[i].0@ == "postproc_binary_marker"@
            || out@[i].0@ == "postproc_page_prefix"@);
    }
    {
        let ghost pre = out@;
        let v = match c.postproc_page_include_empty {
            Some(b) => Doc::Bool(b),
            None => Doc::Null,
        };
        out.push((String::from_str("postproc_page_include_empty"), v));
        proof {
            assert(forall|i: int| #![trigger pre[i]] 0 <= i < pre.len() ==> pre[i].0@
                != out@.last().0@);
            lemma_entries_push(pre, out@.last().0, out@.last().1);
            assert(pre.push(out@.last()) =~= out@);
        }
    }
    let r = Doc::Obj(out);
    proof {
        assert(r@ is Obj);
        assert(r@->Obj_0 =~= config_jv(c@)->Obj_0);
        assert(r@ == config_jv(c@));
    }
    r
}

/// The value at key `k` of an object document, if any.
pub open spec fn obj_get(j: Jv, k: Seq<char>) -> Option<Jv> {
    if j is Obj && j->Obj_0.contains_key(k) {
        Some(j->Obj_0[k])
    } else {
        None
    }
}

/// Read a boolean field: absent means the default, anything but a boolean
/// is an error.
pub open spec fn want_bool(v: Option<Jv>, dflt: bool) -> Option<bool> {
    match v {
        None => Some(dflt),
        Some(Jv::Bool(b)) => Some(b),
        Some(_) => None,
    }
}

/// Read an integer field: absent means the default.
pub open spec fn want_int(v: Option<Jv>, dflt: int) -> Option<int> {
    match v {
        None => Some(dflt),
        Some(Jv::Int(i)) => Some(i),
        Some(_) => None,
    }
}

/// Read a string field: absent means the default.
pub open spec fn want_str(v: Option<Jv>, dflt: Seq<char>) -> Option<Seq<char>> {
    match v {
        None => Some(dflt),
        Some(Jv::Str(s)) => Some(s),
        Some(_) => None,
    }
}

/// Read an optional boolean field: absent or `null` means unset.
pub open spec fn want_opt_bool(v: Option<Jv>) -> Option<Option<bool>> {
    match v {
        None => Some(None),
        Some(Jv::Null) => Some(None),
        Some(Jv::Bool(b)) => Some(Some(b)),
        Some(_) => None,
    }
}

/// Read an optional string field: absent or `null` means unset.
pub open spec fn want_opt_str(v: Option<Jv>) -> Option<Option<Seq<char>>> {
    match v {
        None => Some(None),
        Some(Jv::Null) => Some(None),
        Some(Jv::Str(s)) => Some(Some(s)),
        Some(_) => None,
    }
}

/// The strings of an array of string documents, or nothing if any element
/// is not a string.
pub open spec fn str_seq_of(s: Seq<Jv>) -> Option<Seq<Seq<char>>>
    decreases s.len(),
{
    if s.len() == 0 {
        Some(Seq::empty())
    } else {
        match str_seq_of(s.drop_last()) {
            None => None,
            Some(r) => match s.last() {
                Jv::Str(t) => Some(r.push(t)),
                _ => None,
            },
        }
    }
}

proof fn lemma_str_seq_of(s: Seq<Jv>)
    ensures
        (str_seq_of(s) is Some) <==> (forall|i: int| 0 <= i < s.len() ==> (#[trigger] s[i])
            is Str),
        str_seq_of(s) is Some ==> str_seq_of(s)->0.len() == s.len() && forall|i: int|
            0 <= i < s.len() ==> #[trigger] str_seq_of(s)->0[i] == s[i]->Str_0,
    decreases s.len(),
{
    if s.len() > 0 {
        lemma_str_seq_of(s.drop_last());
        if forall|i: int| 0 <= i < s.len() ==> (#[trigger] s[i]) is Str {
            assert(forall|i: int| 0 <= i < s.len() - 1 ==> (#[trigger] s.drop_last()[i])
                is Str);
        }
        if str_seq_of(s) is Some {
            assert forall|i: int| 0 <= i < s.len() implies (#[trigger] s[i]) is Str by {
                if i < s.len() - 1 {
                    assert(s.drop_last()[i] is Str);
                }
            }
        }
    }
}

/// Read a list-of-strings field: absent means the default list.
pub open spec fn want_str_list(v: Option<Jv>, dflt: Seq<Seq<char>>) -> Option<Seq<Seq<char>>> {
    match v {
        None => Some(dflt),
        Some(Jv::Arr(a)) => str_seq_of(a),
        Some(_) => None,
    }
}

/// Read an optional list-of-strings field: absent or `null` means unset.
pub open spec fn want_opt_str_list(v: Option<Jv>) -> Option<Option<Seq<Seq<char>>>> {
    match v {
        None => Some(None),
        Some(Jv::Null) => Some(None),
        Some(Jv::Arr(a)) => match str_seq_of(a) {
            Some(r) => Some(Some(r)),
            None => None,
        },
        Some(_) => None,
    }
}

/// Read an optional list of raw documents: absent or `null` means unset.
pub open spec fn want_opt_docs(v: Option<Jv>) -> Option<Option<Seq<Jv>>> {
    match v {
        None => Some(None),
        Some(Jv::Null) => Some(None),
        Some(Jv::Arr(a)) => Some(Some(a)),
        Some(_) => None,
    }
}

/// The typed cache block denoted by a cache document, if well-shaped.
pub open spec fn cache_of_jv(j: Jv) -> Option<CacheConfigV> {
    if !(j is Obj) {
        None
    } else {
        match want_bool(obj_get(j, "disabled"@), false) {
            None => None,
            Some(disabled) => match want_int(obj_get(j, "max_blob_len"@), 2000000) {
                None => None,
                Some(mbl) => if !(0 <= mbl && mbl <= usize::MAX && mbl <= i64::MAX) {
                    None
                } else {
                    match want_int(obj_get(j, "compression_level"@), 12) {
                        None => None,
                        Some(cl) => if !(i32::MIN <= cl && cl <= i32::MAX) {
                            None
                        } else {
                            match want_str(obj_get(j, "path"@), seq![]) {
                                None => None,
                                Some(path) => Some(
                                    CacheConfigV {
                                        disabled,
                                        max_blob_len: mbl,
                                        compression_level: cl,
                                        path,
                                    },
                                ),
                            }
                        },
                    }
                },
            },
        }
    }
}

/// The typed configuration denoted by a document, if well-shaped: each
/// field is read from its key, absent fields default, and the
/// command-line-only fields are always defaulted.
pub open spec fn config_of_jv(j: Jv) -> Option<RgaConfigV> {
    if !(j is Obj) {
        None
    } else {
        match want_bool(obj_get(j, "accurate"@), false) {
            None => None,
            Some(accurate) => match want_str_list(obj_get(j, "adapters"@), seq![]) {
                None => None,
                Some(adapters) => match obj_get(j, "cache"@) {
                    Some(cj) => match cache_of_jv(cj) {
                        None => None,
                        Some(cache) => config_of_jv_rest(j, accurate, adapters, cache),
                    },
                    None => config_of_jv_rest(j, accurate, adapters, default_cache_spec()),
                },
            },
        }
    }
}

/// The remaining fields of `config_of_jv`, after the cache block.
pub open spec fn config_of_jv_rest(
    j: Jv,
    accurate: bool,
    adapters: Seq<Seq<char>>,
    cache: CacheConfigV,
) -> Option<RgaConfigV> {
    match want_int(obj_get(j, "max_archive_recursion"@), 5) {
        None => None,
        Some(mar) => if !(i32::MIN <= mar && mar <= i32::MAX) {
            None
        } else {
            match want_bool(obj_get(j, "no_prefix_filenames"@), false) {
                None => None,
                Some(no_prefix_filenames) => match want_opt_docs(
                    obj_get(j, "custom_adapters"@),
                ) {
                    None => None,
                    Some(custom_adapters) => match want_opt_str_list(
                        obj_get(j, "zip_extensions"@),
                    ) {
                        None => None,
                        Some(zip_extensions) => match want_opt_str_list(
                            obj_get(j, "ffmpeg_extensions"@),
                        ) {
                            None => None,
                            Some(ffmpeg_extensions) => match want_opt_str(
                                obj_get(j, "postproc_binary_marker"@),
                            ) {
                                None => None,
                                Some(postproc_binary_marker) => match want_opt_str(
                                    obj_get(j, "postproc_page_prefix"@),
                                ) {
                                    None => None,
                                    Some(postproc_page_prefix) => match want_opt_bool(
                                        obj_get(j, "postproc_page_include_empty"@),
                                    ) {
                                        None => None,
                                        Some(postproc_page_include_empty) => Some(
                                            RgaConfigV {
                                                accurate,
                                                adapters,
                                                cache,
                                                max_archive_recursion: mar,
                                                no_prefix_filenames,
                                                custom_adapters,
                                                config_file_path: None,
                                                fzf_path: None,
                                                list_adapters: false,
                                                print_config_schema: false,
                                                rg_help: false,
                                                rg_version: false,
                                                zip_extensions,
                                                ffmpeg_extensions,
                                                postproc_binary_marker,
                                                postproc_page_prefix,
                                                postproc_page_include_empty,
                                            },
                                        ),
                                    },
                                },
                            },
                        },
                    },
                },
            }
        },
    }
}


/// The entry of an object document at `key`, if any.
fn doc_get<'a>(d: &'a Doc, key: &str) -> (r: Option<&'a Doc>)
    requires
        doc_wf(*d),
        d matches Doc::Obj(_),
    ensures
        match r {
            Some(v) => obj_get(d@, key@) == Some(v@) && doc_wf(*v),
            None => obj_get(d@, key@) is None,
        },
{
    match d {
        Doc::Obj(e) => {
            proof {
                lemma_entries_map(e@);
            }
            match crate::json::obj_find(e, key) {
                Some(i) => {
                    proof {
                        assert(forall|j: int| (i as int) < j < e@.len() ==> e@[j].0@
                            != e@[i as int].0@);
                        assert(entries_map(e@)[e@[i as int].0@] == doc_view(e@[i as int].1));
                    }
                    Some(&e[i].1)
                }
                None => {
                    proof {
                        assert(!entries_map(e@).contains_key(key@));
                    }
                    None
                }
            }
        }
        _ => None,
    }
}

fn read_bool(d: &Doc, key: &str, dflt: bool) -> (r: Result<bool, ConfigError>)
    requires
        doc_wf(*d),
        d matches Doc::Obj(_),
    ensures
        (r is Ok) == (want_bool(obj_get(d@, key@), dflt) is Some),
        r is Ok ==> Some(r->Ok_0) == want_bool(obj_get(d@, key@), dflt),
        r is Err ==> (r->Err_0 matches ConfigError::WrongValueType(t) && t@ == key@),
{
    match doc_get(d, key) {
        None => Ok(dflt),
        Some(v) => match v {
            Doc::Bool(b) => Ok(*b),
            _ => Err(ConfigError::WrongValueType(key.to_owned())),
        },
    }
}

fn read_int(d: &Doc, key: &str, dflt: i64) -> (r: Result<i64, ConfigError>)
    requires
        doc_wf(*d),
        d matches Doc::Obj(_),
    ensures
        (r is Ok) == (want_int(obj_get(d@, key@), dflt as int) is Some),
        r is Ok ==> Some(r->Ok_0 as int) == want_int(obj_get(d@, key@), dflt as int),
        r is Err ==> (r->Err_0 matches ConfigError::WrongValueType(t) && t@ == key@),
{
    match doc_get(d, key) {
        None => Ok(dflt),
        Some(v) => match v {
            Doc::Int(i) => Ok(*i),
            _ => Err(ConfigError::WrongValueType(key.to_owned())),
        },
    }
}

fn read_str(d: &Doc, key: &str, dflt: &str) -> (r: Result<String, ConfigError>)
    requires
        doc_wf(*d),
        d matches Doc::Obj(_),
    ensures
        (r is Ok) == (want_str(obj_get(d@, key@), dflt@) is Some),
        r is Ok ==> Some(r->Ok_0@) == want_str(obj_get(d@, key@), dflt@),
        r is Err ==> (r->Err_0 matches ConfigError::WrongValueType(t) && t@ == key@),
{
    match doc_get(d, key) {
        None => Ok(dflt.to_owned()),
        Some(v) => match v {
            Doc::Str(s) => Ok(s.clone()),
            _ => Err(ConfigError::WrongValueType(key.to_owned())),
        },
    }
}

fn read_opt_bool(d: &Doc, key: &str) -> (r: Result<Option<bool>, ConfigError>)
    requires
        doc_wf(*d),
        d matches Doc::Obj(_),
    ensures
        (r is Ok) == (want_opt_bool(obj_get(d@, key@)) is Some),
        r is Ok ==> Some(r->Ok_0) == want_opt_bool(obj_get(d@, key@)),
        r is Err ==> (r->Err_0 matches ConfigError::WrongValueType(t) && t@ == key@),
{
    match doc_get(d, key) {
        None => Ok(None),
        Some(v) => match v {
            Doc::Null => Ok(None),
            Doc::Bool(b) => Ok(Some(*b)),
            _ => Err(ConfigError::WrongValueType(key.to_owned())),
        },
    }
}

fn read_opt_str(d: &Doc, key: &str) -> (r: Result<Option<String>, ConfigError>)
    requires
        doc_wf(*d),
        d matches Doc::Obj(_),
    ensures
        (r is Ok) == (want_opt_str(obj_get(d@, key@)) is Some),
        r is Ok ==> (match r->Ok_0 {
            Some(s) => want_opt_str(obj_get(d@, key@)) == Some(Some(s@)),
            None => want_opt_str(obj_get(d@, key@)) == Some(None::<Seq<char>>),
        }),
        r is Err ==> (r->Err_0 matches ConfigError::WrongValueType(t) && t@ == key@),
{
    match doc_get(d, key) {
        None => Ok(None),
        Some(v) => match v {
            Doc::Null => Ok(None),
            Doc::Str(s) => Ok(Some(s.clone())),
            _ => Err(ConfigError::WrongValueType(key.to_owned())),
        },
    }
}

#[verifier::loop_isolation(false)]
fn str_list_of(v: &Vec<Doc>) -> (r: Option<Vec<String>>)
    ensures
        match r {
            Some(out) => str_seq_of(docs_view(v@)) == Some(out.deep_view()),
            None => str_seq_of(docs_view(v@)) is None,
        },
{
    proof {
        lemma_docs_view_index(v@);
        lemma_str_seq_of(docs_view(v@));
    }
    let mut out: Vec<String> = Vec::new();
    let mut i: usize = 0;
    while i < v.len()
        invariant
            i <= v@.len(),
            out@.len() == i,
            forall|j: int| 0 <= j < v@.len() ==> #[trigger] docs_view(v@)[j] == doc_view(v@[j]),
            docs_view(v@).len() == v@.len(),
            forall|j: int| 0 <= j < i ==> (#[trigger] docs_view(v@)[j]) is Str
                && out@[j]@ == docs_view(v@)[j]->Str_0,
        decreases v@.len() - i,
    {
        match &v[i] {
            Doc::Str(s) => {
                out.push(s.clone());
            }
            _ => {
                proof {
                    assert(!(docs_view(v@)[i as int] is Str));
                }
                return None;
            }
        }
        i = i + 1;
    }
    proof {
        assert(forall|j: int| 0 <= j < v@.len() ==> (#[trigger] docs_view(v@)[j]) is Str);
        let w = str_seq_of(docs_view(v@))->0;
        assert(forall|j: int| 0 <= j < out@.len() ==> #[trigger] out.deep_view()[j]
            == out@[j]@);
        assert(out.deep_view() =~= w);
    }
    Some(out)
}

fn read_str_list(d: &Doc, key: &str) -> (r: Result<Vec<String>, ConfigError>)
    requires
        doc_wf(*d),
        d matches Doc::Obj(_),
    ensures
        (r is Ok) == (want_str_list(obj_get(d@, key@), seq![]) is Some),
        r is Ok ==> Some(r->Ok_0.deep_view()) == want_str_list(obj_get(d@, key@), seq![]),
        r is Err ==> (r->Err_0 matches ConfigError::WrongValueType(t) && t@ == key@),
{
    match doc_get(d, key) {
        None => {
            let out: Vec<String> = Vec::new();
            proof {
                assert(out.deep_view() =~= Seq::<Seq<char>>::empty());
            }
            Ok(out)
        }
        Some(v) => match v {
            Doc::Arr(a) => match str_list_of(a) {
                Some(out) => Ok(out),
                None => Err(ConfigError::WrongValueType(key.to_owned())),
            },
            _ => Err(ConfigError::WrongValueType(key.to_owned())),
        },
    }
}

fn read_opt_str_list(d: &Doc, key: &str) -> (r: Result<Option<Vec<String>>, ConfigError>)
    requires
        doc_wf(*d),
        d matches Doc::Obj(_),
    ensures
        (r is Ok) == (want_opt_str_list(obj_get(d@, key@)) is Some),
        r is Ok ==> (match r->Ok_0 {
            Some(out) => want_opt_str_list(obj_get(d@, key@)) == Some(Some(out.deep_view())),
            None => want_opt_str_list(obj_get(d@, key@)) == Some(None::<Seq<Seq<char>>>),
        }),
        r is Err ==> (r->Err_0 matches ConfigError::WrongValueType(t) && t@ == key@),
{
    match doc_get(d, key) {
        None => Ok(None),
        Some(v) => match v {
            Doc::Null => Ok(None),
            Doc::Arr(a) => match str_list_of(a) {
                Some(out) => Ok(Some(out)),
                None => Err(ConfigError::WrongValueType(key.to_owned())),
            },
            _ => Err(ConfigError::WrongValueType(key.to_owned())),
        },
    }
}

fn read_opt_docs(d: &Doc, key: &str) -> (r: Result<Option<Vec<Doc>>, ConfigError>)
    requires
        doc_wf(*d),
        d matches Doc::Obj(_),
    ensures
        (r is Ok) == (want_opt_docs(obj_get(d@, key@)) is Some),
        r is Ok ==> (match r->Ok_0 {
            Some(out) => want_opt_docs(obj_get(d@, key@)) == Some(Some(docs_view(out@)))
                && docs_wf(out@),
            None => want_opt_docs(obj_get(d@, key@)) == Some(None::<Seq<Jv>>),
        }),
        r is Err ==> (r->Err_0 matches ConfigError::WrongValueType(t) && t@ == key@),
{
    match doc_get(d, key) {
        None => Ok(None),
        Some(v) => match v {
            Doc::Null => Ok(None),
            Doc::Arr(a) => {
                let out = docs_list_copy(a);
                Ok(Some(out))
            }
            _ => Err(ConfigError::WrongValueType(key.to_owned())),
        },
    }
}

/// The carried key names a field of the cache block whose document value
/// has the wrong shape, or the block itself when it is not an object.
pub open spec fn cache_field_rejects(j: Jv, k: Seq<char>) -> bool {
    if !(j is Obj) {
        k == "cache"@
    } else {
        ||| (k == "disabled"@ && want_bool(obj_get(j, "disabled"@), false) is None)
        ||| (k == "max_blob_len"@ && want_int(obj_get(j, "max_blob_len"@), 2000000) is None)
        ||| (k == "compression_level"@ && want_int(obj_get(j, "compression_level"@), 12)
            is None)
        ||| (k == "path"@ && want_str(obj_get(j, "path"@), seq![]) is None)
    }
}

/// The carried key names a number field of the cache block whose value is
/// syntactically an integer but out of the field's range.
pub open spec fn cache_range_rejects(j: Jv, k: Seq<char>) -> bool {
    ||| (k == "max_blob_len"@ && (want_int(obj_get(j, "max_blob_len"@), 2000000) matches
        Some(n) && !(0 <= n <= usize::MAX)))
    ||| (k == "compression_level"@ && (want_int(obj_get(j, "compression_level"@), 12) matches
        Some(n) && !(i32::MIN <= n <= i32::MAX)))
}

/// The carried key names a field whose document value has the wrong
/// shape, or the document itself when it is not an object.
pub open spec fn config_field_rejects(j: Jv, k: Seq<char>) -> bool {
    if !(j is Obj) {
        k == "configuration"@
    } else {
        ||| (k == "accurate"@ && want_bool(obj_get(j, "accurate"@), false) is None)
        ||| (k == "adapters"@ && want_str_list(obj_get(j, "adapters"@), seq![]) is None)
        ||| (match obj_get(j, "cache"@) {
            Some(cj) => cache_field_rejects(cj, k),
            None => false,
        })
        ||| (k == "max_archive_recursion"@ && want_int(obj_get(j, "max_archive_recursion"@), 5)
            is None)
        ||| (k == "no_prefix_filenames"@ && want_bool(obj_get(j, "no_prefix_filenames"@), false)
            is None)
        ||| (k == "custom_adapters"@ && want_opt_docs(obj_get(j, "custom_adapters"@)) is None)
        ||| (k == "zip_extensions"@ && want_opt_str_list(obj_get(j, "zip_extensions"@)) is None)
        ||| (k == "ffmpeg_extensions"@ && want_opt_str_list(obj_get(j, "ffmpeg_extensions"@))
            is None)
        ||| (k == "postproc_binary_marker"@ && want_opt_str(obj_get(j, "postproc_binary_marker"@))
            is None)
        ||| (k == "postproc_page_prefix"@ && want_opt_str(obj_get(j, "postproc_page_prefix"@))
            is None)
        ||| (k == "postproc_page_include_empty"@ && want_opt_bool(
            obj_get(j, "postproc_page_include_empty"@),
        ) is None)
    }
}

/// The carried key names a number field whose value is out of range.
pub open spec fn config_range_rejects(j: Jv, k: Seq<char>) -> bool {
    ||| (k == "max_archive_recursion"@ && (want_int(obj_get(j, "max_archive_recursion"@), 5)
        matches Some(n) && !(i32::MIN <= n <= i32::MAX)))
    ||| (match obj_get(j, "cache"@) {
        Some(cj) => cache_range_rejects(cj, k),
        None => false,
    })
}

/// Deserialize the cache block from its document value.
#[verifier::rlimit(60)]
fn cache_from_doc(d: &Doc) -> (r: Result<CacheConfig, ConfigError>)
    requires
        doc_wf(*d),
    ensures
        (r is Ok) == (cache_of_jv(d@) is Some),
        r is Ok ==> Some(r->Ok_0@) == cache_of_jv(d@),
        r is Ok ==> r->Ok_0.max_blob_len.0 as int <= i64::MAX as int,
        r is Err ==> r->Err_0 is WrongValueType || r->Err_0 is NumberOutOfRange,
        r is Err ==> (r->Err_0 matches ConfigError::WrongValueType(t) ==> cache_field_rejects(
            d@,
            t@,
        )),
        r is Err ==> (r->Err_0 matches ConfigError::NumberOutOfRange(t) ==> cache_range_rejects(
            d@,
            t@,
        )),
{
    match d {
        Doc::Obj(_) => {}
        _ => {
            return Err(ConfigError::WrongValueType(String::from_str("cache")));
        }
    }
    let disabled = read_bool(d, "disabled", false)?;
    let mbl = read_int(d, "max_blob_len", 2000000)?;
    if mbl < 0 {
        return Err(ConfigError::NumberOutOfRange(String::from_str("max_blob_len")));
    }
    if (mbl as u64) > (usize::MAX as u64) {
        return Err(ConfigError::NumberOutOfRange(String::from_str("max_blob_len")));
    }
    let cl = read_int(d, "compression_level", 12)?;
    if cl < (i32::MIN as i64) || cl > (i32::MAX as i64) {
        return Err(ConfigError::NumberOutOfRange(String::from_str("compression_level")));
    }
    let path = read_str(d, "path", "")?;
    proof {
        reveal_strlit("");
        assert(""@ =~= Seq::<char>::empty());
    }
    let r = CacheConfig {
        disabled,
        max_blob_len: CacheMaxBlobLen(mbl as usize),
        compression_level: CacheCompressionLevel(cl as i32),
        path: CachePath(path),
    };
    proof {
        assert(Some(r@) =~~= cache_of_jv(d@));
    }
    Ok(r)
}

/// Deserialize a configuration from a merged document. Fields absent from
/// the document default; a field whose value has the wrong shape or range
/// is an error; the command-line-only fields always come back defaulted.
#[verifier::rlimit(100)]
#[verifier::spinoff_prover]
pub fn from_doc(d: &Doc) -> (r: Result<RgaConfig, ConfigError>)
    requires
        doc_wf(*d),
    ensures
        (r is Ok) == (config_of_jv(d@) is Some),
        r is Ok ==> Some(r->Ok_0@) == config_of_jv(d@),
        r is Ok ==> config_wf(r->Ok_0),
        r is Err ==> r->Err_0 is WrongValueType || r->Err_0 is NumberOutOfRange,
        r is Err ==> (r->Err_0 matches ConfigError::WrongValueType(t) ==> config_field_rejects(
            d@,
            t@,
        )),
        r is Err ==> (r->Err_0 matches ConfigError::NumberOutOfRange(t) ==> config_range_rejects(
            d@,
            t@,
        )),
{
    match d {
        Doc::Obj(_) => {}
        _ => {
            return Err(ConfigError::WrongValueType(String::from_str("configuration")));
        }
    }
    let accurate = read_bool(d, "accurate", false)?;
    let adapters = read_str_list(d, "adapters")?;
    let cache = match doc_get(d, "cache") {
        None => CacheConfig::default(),
        Some(cj) => cache_from_doc(cj)?,
    };
    let mar = read_int(d, "max_archive_recursion", 5)?;
    if mar < (i32::MIN as i64) || mar > (i32::MAX as i64) {
        return Err(ConfigError::NumberOutOfRange(String::from_str("max_archive_recursion")));
    }
    let no_prefix_filenames = read_bool(d, "no_prefix_filenames", false)?;
    let custom_adapters = read_opt_docs(d, "custom_adapters")?;
    let zip_extensions = read_opt_str_list(d, "zip_extensions")?;
    let ffmpeg_extensions = read_opt_str_list(d, "ffmpeg_extensions")?;
    let postproc_binary_marker = read_opt_str(d, "postproc_binary_marker")?;
    let postproc_page_prefix = read_opt_str(d, "postproc_page_prefix")?;
    let postproc_page_include_empty = read_opt_bool(d, "postproc_page_include_empty")?;
    let r = RgaConfig {
        accurate,
        adapters,
        cache,
        max_archive_recursion: MaxArchiveRecursion(mar as i32),
        no_prefix_filenames,
        custom_adapters,
        config_file_path: None,
        fzf_path: None,
        list_adapters: false,
        print_config_schema: false,
        rg_help: false,
        rg_version: false,
        zip_extensions,
        ffmpeg_extensions,
        postproc_binary_marker,
        postproc_page_prefix,
        postproc_page_include_empty,
    };
    proof {
        assert(Some(r@) =~~= config_of_jv(d@));
    }
    Ok(r)
}

/// Round trip: deserializing the serialized default configuration gives
/// the default configuration back.
pub proof fn lemma_default_round_trip()
    ensures
        config_of_jv(config_jv(default_config_spec())) == Some(default_config_spec()),
{
    reveal_strlit("accurate");
    reveal_strlit("adapters");
    reveal_strlit("cache");
    reveal_strlit("max_archive_recursion");
    reveal_strlit("no_prefix_filenames");
    reveal_strlit("custom_adapters");
    reveal_strlit("zip_extensions");
    reveal_strlit("ffmpeg_extensions");
    reveal_strlit("postproc_binary_marker");
    reveal_strlit("postproc_page_prefix");
    reveal_strlit("postproc_page_include_empty");
    assert("accurate"@[1] == 'c' && "adapters"@[1] == 'd');
    assert("accurate"@ != "adapters"@);
    assert("accurate"@.len() == 8);
    assert("adapters"@.len() == 8);
    assert("cache"@.len() == 5);
    assert("max_archive_recursion"@.len() == 21);
    assert("no_prefix_filenames"@.len() == 19);
    assert("custom_adapters"@.len() == 15);
    assert("zip_extensions"@.len() == 14);
    assert("ffmpeg_extensions"@.len() == 17);
    assert("postproc_binary_marker"@.len() == 22);
    assert("postproc_page_prefix"@.len() == 20);
    assert("postproc_page_include_empty"@.len() == 27);
    let j = config_jv(default_config_spec());
    assert(obj_get(j, "accurate"@) is None);
    assert(obj_get(j, "adapters"@) is None);
    assert(obj_get(j, "cache"@) is None);
    assert(obj_get(j, "max_archive_recursion"@) is None);
    assert(obj_get(j, "no_prefix_filenames"@) is None);
    assert(obj_get(j, "custom_adapters"@) is None);
    assert(obj_get(j, "zip_extensions"@) == Some(Jv::Null));
    assert(obj_get(j, "ffmpeg_extensions"@) == Some(Jv::Null));
    assert(obj_get(j, "postproc_binary_marker"@) == Some(Jv::Null));
    assert(obj_get(j, "postproc_page_prefix"@) == Some(Jv::Null));
    assert(obj_get(j, "postproc_page_include_empty"@) == Some(Jv::Null));
    assert(config_of_jv(j) matches Some(v) && v =~~= default_config_spec());
}


/// The machine-readable description of the full option set: one entry
/// per serialized option, naming its type, default and meaning.
pub open spec fn schema_description_jv() -> Jv {
    let m = Map::<Seq<char>, Jv>::empty();
    let m = m.insert("accurate"@, Jv::Str(
        "boolean, default false: match by mime type instead of file extension"@,
    ));
    let m = m.insert("adapters"@, Jv::Str(
        "list of adapter names, default empty: adapter selection in priority order"@,
    ));
    let m = m.insert("cache.disabled"@, Jv::Str(
        "boolean, default false: disable caching of extracted text"@,
    ));
    let m = m.insert("cache.max_blob_len"@, Jv::Str(
        "byte count, default 2000000: longest compressed blob stored in the cache"@,
    ));
    let m = m.insert("cache.compression_level"@, Jv::Str(
        "integer, default 12: ZSTD level applied before storing"@,
    ));
    let m = m.insert("cache.path"@, Jv::Str(
        "string, default empty: cache database location, empty means the platform cache directory"@,
    ));
    let m = m.insert("max_archive_recursion"@, Jv::Str(
        "integer, default 5: maximum depth of nested archives"@,
    ));
    let m = m.insert("no_prefix_filenames"@, Jv::Str(
        "boolean, default false: omit the inner path prefix on archived lines"@,
    ));
    let m = m.insert("custom_adapters"@, Jv::Str(
        "list of adapter descriptors, config-file only, default unset"@,
    ));
    let m = m.insert("zip_extensions"@, Jv::Str(
        "list of extensions, default unset: override for the ZIP adapter"@,
    ));
    let m = m.insert("ffmpeg_extensions"@, Jv::Str(
        "list of extensions, default unset: override for the FFmpeg adapter"@,
    ));
    let m = m.insert("postproc_binary_marker"@, Jv::Str(
        "string, default unset: marker emitted for binary content"@,
    ));
    let m = m.insert("postproc_page_prefix"@, Jv::Str(
        "string, default unset: prefix emitted before each page"@,
    ));
    let m = m.insert("postproc_page_include_empty"@, Jv::Str(
        "boolean, default unset: keep empty pages"@,
    ));
    Jv::Obj(m)
}

/// Build the option-set description document, written beside the config
/// file on first run.
#[verifier::rlimit(100)]
#[verifier::spinoff_prover]
pub fn schema_doc() -> (r: Doc)
    ensures
        r@ == schema_description_jv(),
        doc_wf(r),
{
    proof {
        reveal_strlit("accurate");
        reveal_strlit("adapters");
        reveal_strlit("cache.disabled");
        reveal_strlit("cache.max_blob_len");
        reveal_strlit("cache.compression_level");
        reveal_strlit("cache.path");
        reveal_strlit("max_archive_recursion");
        reveal_strlit("no_prefix_filenames");
        reveal_strlit("custom_adapters");
        reveal_strlit("zip_extensions");
        reveal_strlit("ffmpeg_extensions");
        reveal_strlit("postproc_binary_marker");
        reveal_strlit("postproc_page_prefix");
        reveal_strlit("postproc_page_include_empty");
        assert("accurate"@.len() == 8);
        assert("adapters"@.len() == 8);
        assert("cache.disabled"@.len() == 14);
        assert("cache.max_blob_len"@.len() == 18);
        assert("cache.compression_level"@.len() == 23);
        assert("cache.path"@.len() == 10);
        assert("max_archive_recursion"@.len() == 21);
        assert("no_prefix_filenames"@.len() == 19);
        assert("custom_adapters"@.len() == 15);
        assert("zip_extensions"@.len() == 14);
        assert("ffmpeg_extensions"@.len() == 17);
        assert("postproc_binary_marker"@.len() == 22);
        assert("postproc_page_prefix"@.len() == 20);
        assert("postproc_page_include_empty"@.len() == 27);
        assert("accurate"@[1] == 'c' && "adapters"@[1] == 'd');
        assert("accurate"@ != "adapters"@);
        assert("cache.disabled"@[0] == 'c' && "zip_extensions"@[0] == 'z');
        assert("cache.disabled"@ != "zip_extensions"@);
    }
    let mut out: Vec<(String, Doc)> = Vec::new();
    {
        let ghost pre = out@;
        out.push((
            String::from_str("accurate"),
            Doc::Str(String::from_str(
                "boolean, default false: match by mime type instead of file extension",
            )),
        ));
        proof {
            assert(forall|i: int| #![trigger pre[i]] 0 <= i < pre.len() ==> pre[i].0@
                != out@.last().0@);
            lemma_entries_push(pre, out@.last().0, out@.last().1);
            assert(pre.push(out@.last()) =~= out@);
        }
    }
    proof {
        assert(forall|i: int| #![trigger out@[i]] 0 <= i < out@.len() ==> out@[i].0@ == "accurate"@);
    }
    {
        let ghost pre = out@;
        out.push((
            String::from_str("adapters"),
            Doc::Str(String::from_str(
                "list of adapter names, default empty: adapter selection in priority order",
            )),
        ));
        proof {
            assert(forall|i: int| #![trigger pre[i]] 0 <= i < pre.len() ==> pre[i].0@
                != out@.last().0@);
            lemma_entries_push(pre, out@.last().0, out@.last().1);
            assert(pre.push(out@.last()) =~= out@);
        }
    }
    proof {
        assert(forall|i: int| #![trigger out@[i]] 0 <= i < out@.len() ==> out@[i].0@ == "accurate"@ || out@[i].0@ == "adapters"@);
    }
    {
        let ghost pre = out@;
        out.push((
            String::from_str("cache.disabled"),
            Doc::Str(String::from_str(
                "boolean, default false: disable caching of extracted text",
            )),
        ));
        proof {
            assert(forall|i: int| #![trigger pre[i]] 0 <= i < pre.len() ==> pre[i].0@
                != out@.last().0@);
            lemma_entries_push(pre, out@.last().0, out@.last().1);
            assert(pre.push(out@.last()) =~= out@);
        }
    }
    proof {
        assert(forall|i: int| #![trigger out@[i]] 0 <= i < out@.len() ==> out@[i].0@ == "accurate"@ || out@[i].0@ == "adapters"@ || out@[i].0@ == "cache.disabled"@);
    }
    {
        let ghost pre = out@;
        out.push((
            String::from_str("cache.max_blob_len"),
            Doc::Str(String::from_str(
                "byte count, default 2000000: longest compressed blob stored in the cache",
            )),
        ));
        proof {
            assert(forall|i: int| #![trigger pre[i]] 0 <= i < pre.len() ==> pre[i].0@
                != out@.last().0@);
            lemma_entries_push(pre, out@.last().0, out@.last().1);
            assert(pre.push(out@.last()) =~= out@);
        }
    }
    proof {
        assert(forall|i: int| #![trigger out@[i]] 0 <= i < out@.len() ==> out@[i].0@ == "accurate"@ || out@[i].0@ == "adapters"@ || out@[i].0@ == "cache.disabled"@ || out@[i].0@ == "cache.max_blob_len"@);
    }
    {
        let ghost pre = out@;
        out.push((
            String::from_str("cache.compression_level"),
            Doc::Str(String::from_str(
                "integer, default 12: ZSTD level applied before storing",
            )),
        ));
        proof {
            assert(forall|i: int| #![trigger pre[i]] 0 <= i < pre.len() ==> pre[i].0@
                != out@.last().0@);
            lemma_entries_push(pre, out@.last().0, out@.last().1);
            assert(pre.push(out@.last()) =~= out@);
        }
    }
    proof {
        assert(forall|i: int| #![trigger out@[i]] 0 <= i < out@.len() ==> out@[i].0@ == "accurate"@ || out@[i].0@ == "adapters"@ || out@[i].0@ == "cache.disabled"@ || out@[i].0@ == "cache.max_blob_len"@ || out@[i].0@ == "cache.compression_level"@);
    }
    {
        let ghost pre = out@;
        out.push((
            String::from_str("cache.path"),
            Doc::Str(String::from_str(
                "string, default empty: cache database location, empty means the platform cache directory",
            )),
        ));
        proof {
            assert(forall|i: int| #![trigger pre[i]] 0 <= i < pre.len() ==> pre[i].0@
                != out@.last().0@);
            lemma_entries_push(pre, out@.last().0, out@.last().1);
            assert(pre.push(out@.last()) =~= out@);
        }
    }
    proof {
        assert(forall|i: int| #![trigger out@[i]] 0 <= i < out@.len() ==> out@[i].0@ == "accurate"@ || out@[i].0@ == "adapters"@ || out@[i].0@ == "cache.disabled"@ || out@[i].0@ == "cache.max_blob_len"@ || out@[i].0@ == "cache.compression_level"@ || out@[i].0@ == "cache.path"@);
    }
    {
        let ghost pre = out@;
        out.push((
            String::from_str("max_archive_recursion"),
            Doc::Str(String::from_str(
                "integer, default 5: maximum depth of nested archives",
            )),
        ));
        proof {
            assert(forall|i: int| #![trigger pre[i]] 0 <= i < pre.len() ==> pre[i].0@
                != out@.last().0@);
            lemma_entries_push(pre, out@.last().0, out@.last().1);
            assert(pre.push(out@.last()) =~= out@);
        }
    }
    proof {
        assert(forall|i: int| #![trigger out@[i]] 0 <= i < out@.len() ==> out@[i].0@ == "accurate"@ || out@[i].0@ == "adapters"@ || out@[i].0@ == "cache.disabled"@ || out@[i].0@ == "cache.max_blob_len"@ || out@[i].0@ == "cache.compression_level"@ || out@[i].0@ == "cache.path"@ || out@[i].0@ == "max_archive_recursion"@);
    }
    {
        let ghost pre = out@;
        out.push((
            String::from_str("no_prefix_filenames"),
            Doc::Str(String::from_str(
                "boolean, default false: omit the inner path prefix on archived lines",
            )),
        ));
        proof {
            assert(forall|i: int| #![trigger pre[i]] 0 <= i < pre.len() ==> pre[i].0@
                != out@.last().0@);
            lemma_entries_push(pre, out@.last().0, out@.last().1);
            assert(pre.push(out@.last()) =~= out@);
        }
    }
    proof {
        assert(forall|i: int| #![trigger out@[i]] 0 <= i < out@.len() ==> out@[i].0@ == "accurate"@ || out@[i].0@ == "adapters"@ || out@[i].0@ == "cache.disabled"@ || out@[i].0@ == "cache.max_blob_len"@ || out@[i].0@ == "cache.compression_level"@ || out@[i].0@ == "cache.path"@ || out@[i].0@ == "max_archive_recursion"@ || out@[i].0@ == "no_prefix_filenames"@);
    }
    {
        let ghost pre = out@;
        out.push((
            String::from_str("custom_adapters"),
            Doc::Str(String::from_str(
                "list of adapter descriptors, config-file only, default unset",
            )),
        ));
        proof {
            assert(forall|i: int| #![trigger pre[i]] 0 <= i < pre.len() ==> pre[i].0@
                != out@.last().0@);
            lemma_entries_push(pre, out@.last().0, out@.last().1);
            assert(pre.push(out@.last()) =~= out@);
        }
    }
    proof {
        assert(forall|i: int| #![trigger out@[i]] 0 <= i < out@.len() ==> out@[i].0@ == "accurate"@ || out@[i].0@ == "adapters"@ || out@[i].0@ == "cache.disabled"@ || out@[i].0@ == "cache.max_blob_len"@ || out@[i].0@ == "cache.compression_level"@ || out@[i].0@ == "cache.path"@ || out@[i].0@ == "max_archive_recursion"@ || out@[i].0@ == "no_prefix_filenames"@ || out@[i].0@ == "custom_adapters"@);
    }
    {
        let ghost pre = out@;
        out.push((
            String::from_str("zip_extensions"),
            Doc::Str(String::from_str(
                "list of extensions, default unset: override for the ZIP adapter",
            )),
        ));
        proof {
            assert(forall|i: int| #![trigger pre[i]] 0 <= i < pre.len() ==> pre[i].0@
                != out@.last().0@);
            lemma_entries_push(pre, out@.last().0, out@.last().1);
            assert(pre.push(out@.last()) =~= out@);
        }
    }
    proof {
        assert(forall|i: int| #![trigger out@[i]] 0 <= i < out@.len() ==> out@[i].0@ == "accurate"@ || out@[i].0@ == "adapters"@ || out@[i].0@ == "cache.disabled"@ || out@[i].0@ == "cache.max_blob_len"@ || out@[i].0@ == "cache.compression_level"@ || out@[i].0@ == "cache.path"@ || out@[i].0@ == "max_archive_recursion"@ || out@[i].0@ == "no_prefix_filenames"@ || out@[i].0@ == "custom_adapters"@ || out@[i].0@ == "zip_extensions"@);
    }
    {
        let ghost pre = out@;
        out.push((
            String::from_str("ffmpeg_extensions"),
            Doc::Str(String::from_str(
                "list of extensions, default unset: override for the FFmpeg adapter",
            )),
        ));
        proof {
            assert(forall|i: int| #![trigger pre[i]] 0 <= i < pre.len() ==> pre[i].0@
                != out@.last().0@);
            lemma_entries_push(pre, out@.last().0, out@.last().1);
            assert(pre.push(out@.last()) =~= out@);
        }
    }
    proof {
        assert(forall|i: int| #![trigger out@[i]] 0 <= i < out@.len() ==> out@[i].0@ == "accurate"@ || out@[i].0@ == "adapters"@ || out@[i].0@ == "cache.disabled"@ || out@[i].0@ == "cache.max_blob_len"@ || out@[i].0@ == "cache.compression_level"@ || out@[i].0@ == "cache.path"@ || out@[i].0@ == "max_archive_recursion"@ || out@[i].0@ == "no_prefix_filenames"@ || out@[i].0@ == "custom_adapters"@ || out@[i].0@ == "zip_extensions"@ || out@[i].0@ == "ffmpeg_extensions"@);
    }
    {
        let ghost pre = out@;
        out.push((
            String::from_str("postproc_binary_marker"),
            Doc::Str(String::from_str(
                "string, default unset: marker emitted for binary content",
            )),
        ));
        proof {
            assert(forall|i: int| #![trigger pre[i]] 0 <= i < pre.len() ==> pre[i].0@
                != out@.last().0@);
            lemma_entries_push(pre, out@.last().0, out@.last().1);
            assert(pre.push(out@.last()) =~= out@);
        }
    }
    proof {
        assert(forall|i: int| #![trigger out@[i]] 0 <= i < out@.len() ==> out@[i].0@ == "accurate"@ || out@[i].0@ == "adapters"@ || out@[i].0@ == "cache.disabled"@ || out@[i].0@ == "cache.max_blob_len"@ || out@[i].0@ == "cache.compression_level"@ || out@[i].0@ == "cache.path"@ || out@[i].0@ == "max_archive_recursion"@ || out@[i].0@ == "no_prefix_filenames"@ || out@[i].0@ == "custom_adapters"@ || out@[i].0@ == "zip_extensions"@ || out@[i].0@ == "ffmpeg_extensions"@ || out@[i].0@ == "postproc_binary_marker"@);
    }
    {
        let ghost pre = out@;
        out.push((
            String::from_str("postproc_page_prefix"),
            Doc::Str(String::from_str(
                "string, default unset: prefix emitted before each page",
            )),
        ));
        proof {
            assert(forall|i: int| #![trigger pre[i]] 0 <= i < pre.len() ==> pre[i].0@
                != out@.last().0@);
            lemma_entries_push(pre, out@.last().0, out@.last().1);
            assert(pre.push(out@.last()) =~= out@);
        }
    }
    proof {
        assert(forall|i: int| #![trigger out@[i]] 0 <= i < out@.len() ==> out@[i].0@ == "accurate"@ || out@[i].0@ == "adapters"@ || out@[i].0@ == "cache.disabled"@ || out@[i].0@ == "cache.max_blob_len"@ || out@[i].0@ == "cache.compression_level"@ || out@[i].0@ == "cache.path"@ || out@[i].0@ == "max_archive_recursion"@ || out@[i].0@ == "no_prefix_filenames"@ || out@[i].0@ == "custom_adapters"@ || out@[i].0@ == "zip_extensions"@ || out@[i].0@ == "ffmpeg_extensions"@ || out@[i].0@ == "postproc_binary_marker"@ || out@[i].0@ == "postproc_page_prefix"@);
    }
    {
        let ghost pre = out@;
        out.push((
            String::from_str("postproc_page_include_empty"),
            Doc::Str(String::from_str(
                "boolean, default unset: keep empty pages",
            )),
        ));
        proof {
            assert(forall|i: int| #![trigger pre[i]] 0 <= i < pre.len() ==> pre[i].0@
                != out@.last().0@);
            lemma_entries_push(pre, out@.last().0, out@.last().1);
            assert(pre.push(out@.last()) =~= out@);
        }
    }
    let r = Doc::Obj(out);
    proof {
        assert(r@ is Obj);
        assert(r@->Obj_0 =~= schema_description_jv()->Obj_0);
        assert(r@ == schema_description_jv());
    }
    r
}

} // verus!
