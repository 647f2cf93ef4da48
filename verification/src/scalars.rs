//! The custom scalar configuration types: compression level, archive
//! recursion depth, cache path and byte-size with unit suffix. Each supports
//! a default, text parsing, text formatting and equality.

use vstd::prelude::*;
use crate::errors::ConfigError;
use crate::text::{
    all_digits, int_string, int_text_val, parse_u64, i64_to_text, u64_to_text, uint_string,
    uint_text_val, valid_int_text, valid_uint_text, lemma_uint_string_val,
};

verus! {

/// ZSTD compression level applied to cached adapter output. The nominal
/// range 1..=22 is documentation only and is not enforced, matching the
/// permissive behaviour of the config surface.
#[derive(Debug, Clone, Copy, PartialEq, Eq, Structural)]
pub struct CacheCompressionLevel(pub i32);

impl Default for CacheCompressionLevel {
    /// The compiled-in default compression level.
    fn default() -> (r: Self)
        ensures
            r.0 == 12,
    {
        CacheCompressionLevel(12)
    }
}

/// Maximum depth of nested archives to recurse into.
#[derive(Debug, Clone, Copy, PartialEq, Eq, Structural)]
pub struct MaxArchiveRecursion(pub i32);

impl Default for MaxArchiveRecursion {
    /// The compiled-in default recursion depth.
    fn default() -> (r: Self)
        ensures
            r.0 == 5,
    {
        MaxArchiveRecursion(5)
    }
}

/// Location of the on-disk cache database. The empty string stands for the
/// platform's per-application cache directory, which only the unverified
/// boundary can discover.
#[derive(Debug, Clone)]
pub struct CachePath(pub String);

impl PartialEq for CachePath {
    fn eq(&self, other: &Self) -> (r: bool) {
        crate::text::str_eq_str(self.0.as_str(), other.0.as_str())
    }
}

impl vstd::std_specs::cmp::PartialEqSpecImpl for CachePath {
    open spec fn obeys_eq_spec() -> bool {
        true
    }

    open spec fn eq_spec(&self, other: &Self) -> bool {
        self.0@ == other.0@
    }
}

impl Default for CachePath {
    /// The compiled-in default cache path: unset, standing for the
    /// platform's cache directory.
    fn default() -> (r: Self)
        ensures
            r.0@.len() == 0,
    {
        CachePath(String::new())
    }
}

impl CachePath {
    /// Text form of the path.
    pub fn to_text(&self) -> (r: String)
        ensures
            r@ == self.0@,
    {
        self.0.clone()
    }
}

/// Parse a signed 32-bit decimal: optional `-` or `+`, then digits.
pub fn parse_i32(s: &str) -> (r: Option<i32>)
    ensures
        r is Some <==> valid_int_text(s@) && i32::MIN <= int_text_val(s@) <= i32::MAX,
        r is Some ==> r->0 as int == int_text_val(s@),
{
    let n = s.unicode_len();
    if n > 0 && s.get_char(0) == '-' {
        let rest = s.substring_char(1, n);
        proof {
            assert(rest@ =~= s@.skip(1));
        }
        if rest.unicode_len() == 0 {
            return None;
        }
        let c0 = rest.get_char(0);
        if !('0' <= c0 && c0 <= '9') {
            return None;
        }
        assert(valid_uint_text(rest@) <==> all_digits(rest@));
        assert(valid_int_text(s@) <==> all_digits(s@.skip(1)));
        match parse_u64(rest) {
            None => None,
            Some(mag) => {
                if mag > 2147483648u64 {
                    None
                } else if mag == 2147483648u64 {
                    Some(i32::MIN)
                } else {
                    Some(-(mag as i32))
                }
            }
        }
    } else {
        match parse_u64(s) {
            None => None,
            Some(v) => {
                if v > 2147483647u64 {
                    None
                } else {
                    Some(v as i32)
                }
            }
        }
    }
}

impl CacheCompressionLevel {
    /// Parse a compression level from its decimal text.
    pub fn parse_text(s: &str) -> (r: Result<Self, ConfigError>)
        ensures
            r is Ok <==> valid_int_text(s@) && i32::MIN <= int_text_val(s@) <= i32::MAX,
            r is Ok ==> r->Ok_0.0 as int == int_text_val(s@),
            r is Err ==> (r->Err_0 matches ConfigError::MalformedNumber(t) && t@ == s@),
    {
        match parse_i32(s) {
            Some(v) => Ok(CacheCompressionLevel(v)),
            None => Err(ConfigError::MalformedNumber(s.to_owned())),
        }
    }

    /// Decimal text of the level.
    pub fn to_text(&self) -> (r: String)
        ensures
            r@ == int_string(self.0 as int),
    {
        i64_to_text(self.0 as i64)
    }
}

impl MaxArchiveRecursion {
    /// Parse a recursion depth from its decimal text.
    pub fn parse_text(s: &str) -> (r: Result<Self, ConfigError>)
        ensures
            r is Ok <==> valid_int_text(s@) && i32::MIN <= int_text_val(s@) <= i32::MAX,
            r is Ok ==> r->Ok_0.0 as int == int_text_val(s@),
            r is Err ==> (r->Err_0 matches ConfigError::MalformedNumber(t) && t@ == s@),
    {
        match parse_i32(s) {
            Some(v) => Ok(MaxArchiveRecursion(v)),
            None => Err(ConfigError::MalformedNumber(s.to_owned())),
        }
    }

    /// Decimal text of the depth.
    pub fn to_text(&self) -> (r: String)
        ensures
            r@ == int_string(self.0 as int),
    {
        i64_to_text(self.0 as i64)
    }
}

/// Longest byte length of compressed adapter output that is still cached.
#[derive(Debug, Clone, Copy, PartialEq, Eq, Structural)]
pub struct CacheMaxBlobLen(pub usize);

impl Default for CacheMaxBlobLen {
    /// The compiled-in default maximum cacheable blob length.
    fn default() -> (r: Self)
        ensures
            r.0 == 2000000,
    {
        CacheMaxBlobLen(2000000)
    }
}

/// Whether `c` is one of the recognized byte-size unit suffixes.
pub open spec fn is_size_suffix(c: char) -> bool {
    c == 'k' || c == 'M' || c == 'G'
}

/// Fixed multiplier of a unit suffix.
pub open spec fn suffix_factor(c: char) -> int {
    if c == 'k' {
        1000
    } else if c == 'M' {
        1000000
    } else if c == 'G' {
        1000000000
    } else {
        1
    }
}

/// The value denoted by a byte-size text, before any machine-size bound:
/// if the last character is a unit suffix, the text minus that one final
/// character is parsed as an unsigned integer and scaled by the suffix's
/// factor; otherwise the whole text is parsed as an unsigned integer; the
/// empty text denotes nothing.
pub open spec fn byte_size_of(s: Seq<char>) -> Option<int> {
    if s.len() == 0 {
        None
    } else if is_size_suffix(s.last()) {
        let p = s.drop_last();
        if valid_uint_text(p) {
            Some(uint_text_val(p) * suffix_factor(s.last()))
        } else {
            None
        }
    } else {
        if valid_uint_text(s) {
            Some(uint_text_val(s))
        } else {
            None
        }
    }
}

impl CacheMaxBlobLen {
    /// Parse a byte-size text such as `500`, `10k`, `2M` or `1G`. Only the
    /// one final character may be a unit suffix. Values are capped at
    /// `i64::MAX` so a length always serializes as a document integer; a
    /// larger (9.2-exabyte) limit is rejected as out of range.
    pub fn from_str(s: &str) -> (r: Result<Self, ConfigError>)
        ensures
            r is Ok <==> (byte_size_of(s@) matches Some(v) && v <= usize::MAX && v <= i64::MAX),
            r is Ok ==> Some(r->Ok_0.0 as int) == byte_size_of(s@),
            s@.len() == 0 ==> r matches Err(ConfigError::EmptyByteSize),
            r is Err && s@.len() > 0 ==> (r->Err_0 matches ConfigError::MalformedNumber(t)
                && t@ == s@) || (r->Err_0 matches ConfigError::NumberOutOfRange(t) && t@ == s@),
    {
        let n = s.unicode_len();
        if n == 0 {
            return Err(ConfigError::EmptyByteSize);
        }
        let last = s.get_char(n - 1);
        let (prefix, factor): (String, u64) = if last == 'k' || last == 'M' || last == 'G' {
            let f: u64 = if last == 'k' {
                1000
            } else if last == 'M' {
                1000000
            } else {
                1000000000
            };
            proof {
                assert(s@.subrange(0, n - 1) =~= s@.drop_last());
            }
            (s.substring_char(0, n - 1).to_owned(), f)
        } else {
            (s.to_owned(), 1)
        };
        proof {
            assert(factor as int == if is_size_suffix(s@.last()) {
                suffix_factor(s@.last())
            } else {
                1
            });
        }
        match parse_u64(prefix.as_str()) {
            None => Err(ConfigError::MalformedNumber(s.to_owned())),
            Some(v) => {
                let scaled_ok = v <= u64::MAX / factor;
                proof {
                    if v <= u64::MAX / factor {
                        assert(v * factor <= u64::MAX) by (nonlinear_arith)
                            requires
                                v <= u64::MAX / factor,
                                factor >= 1,
                        ;
                    } else {
                        assert(v * factor > u64::MAX) by (nonlinear_arith)
                            requires
                                v > u64::MAX / factor,
                                factor >= 1,
                        ;
                    }
                }
                if !scaled_ok {
                    Err(ConfigError::NumberOutOfRange(s.to_owned()))
                } else {
                    let scaled = v * factor;
                    if scaled > usize::MAX as u64 || scaled > i64::MAX as u64 {
                        Err(ConfigError::NumberOutOfRange(s.to_owned()))
                    } else {
                        Ok(CacheMaxBlobLen(scaled as usize))
                    }
                }
            }
        }
    }

    /// Decimal text of the length, without a unit suffix.
    pub fn to_text(&self) -> (r: String)
        ensures
            r@ == uint_string(self.0 as nat),
    {
        u64_to_text(self.0 as u64)
    }
}

/// Parsing the formatted text of a byte-size value gives the value back:
/// the decimal text of any machine-representable length is a valid byte-size
/// text denoting exactly that length.
pub proof fn lemma_byte_size_round_trip(v: nat)
    requires
        v <= usize::MAX,
    ensures
        byte_size_of(uint_string(v)) == Some(v as int),
{
    lemma_uint_string_val(v);
    let s = uint_string(v);
    assert(!is_size_suffix(s.last()));
    assert(s.len() > 0 && s[0] != '+');
}

} // verus!
