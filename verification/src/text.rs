//! Character-level text helpers: decimal integer parsing and formatting,
//! string comparison and prefix tests, and comma-splitting for list-valued
//! flags. All of it is verified; contracts are stated over `Seq<char>` views.

use vstd::prelude::*;

verus! {

/// Whether `c` is a decimal digit.
pub open spec fn is_digit_char(c: char) -> bool {
    '0' <= c && c <= '9'
}

/// Numeric value of a digit character.
pub open spec fn dval(c: char) -> int {
    c as int - '0' as int
}

/// Whether every character of `s` is a decimal digit.
pub open spec fn all_digits(s: Seq<char>) -> bool {
    forall|i: int| 0 <= i < s.len() ==> is_digit_char(s[i])
}

/// Value of a digit string, most significant digit first.
pub open spec fn uint_val(s: Seq<char>) -> int
    decreases s.len(),
{
    if s.len() == 0 {
        0
    } else {
        uint_val(s.drop_last()) * 10 + dval(s.last())
    }
}

/// Whether `s` is a valid unsigned decimal text: an optional leading `+`
/// followed by at least one digit.
pub open spec fn valid_uint_text(s: Seq<char>) -> bool {
    if s.len() > 0 && s[0] == '+' {
        s.len() > 1 && all_digits(s.skip(1))
    } else {
        s.len() > 0 && all_digits(s)
    }
}

/// Value denoted by a valid unsigned decimal text.
pub open spec fn uint_text_val(s: Seq<char>) -> int {
    if s.len() > 0 && s[0] == '+' {
        uint_val(s.skip(1))
    } else {
        uint_val(s)
    }
}

/// Whether `s` is a valid signed decimal text: an optional `-` or `+`
/// followed by at least one digit.
pub open spec fn valid_int_text(s: Seq<char>) -> bool {
    if s.len() > 0 && (s[0] == '-' || s[0] == '+') {
        s.len() > 1 && all_digits(s.skip(1))
    } else {
        s.len() > 0 && all_digits(s)
    }
}

/// Value denoted by a valid signed decimal text.
pub open spec fn int_text_val(s: Seq<char>) -> int {
    if s.len() > 0 && s[0] == '-' {
        -uint_val(s.skip(1))
    } else {
        uint_text_val(s)
    }
}

/// The digit character for a value in `0..=9`.
pub open spec fn digit_char(d: int) -> char {
    if d == 0 { '0' }
    else if d == 1 { '1' }
    else if d == 2 { '2' }
    else if d == 3 { '3' }
    else if d == 4 { '4' }
    else if d == 5 { '5' }
    else if d == 6 { '6' }
    else if d == 7 { '7' }
    else if d == 8 { '8' }
    else { '9' }
}

/// Decimal digit string of `n`, most significant digit first.
pub open spec fn uint_string(n: nat) -> Seq<char>
    decreases n,
{
    if n < 10 {
        seq![digit_char(n as int)]
    } else {
        uint_string(n / 10).push(digit_char((n % 10) as int))
    }
}

/// Decimal text of an integer, with a `-` sign when negative.
pub open spec fn int_string(v: int) -> Seq<char> {
    if v < 0 {
        seq!['-'].add(uint_string((-v) as nat))
    } else {
        uint_string(v as nat)
    }
}

/// The digit character of a value in `0..=9` denotes that value.
pub proof fn lemma_dval_digit_char(d: int)
    requires
        0 <= d <= 9,
    ensures
        dval(digit_char(d)) == d,
        is_digit_char(digit_char(d)),
{
}

/// Formatting then parsing a number gives the number back.
pub proof fn lemma_uint_string_val(n: nat)
    ensures
        uint_string(n).len() >= 1,
        all_digits(uint_string(n)),
        uint_val(uint_string(n)) == n,
    decreases n,
{
    if n < 10 {
        let s = uint_string(n);
        assert(s =~= seq![digit_char(n as int)]);
        assert(s.last() == digit_char(n as int));
        assert(s.drop_last() =~= Seq::<char>::empty());
        assert(uint_val(s.drop_last()) == 0);
        lemma_dval_digit_char(n as int);
        assert(uint_val(s) == 0 * 10 + dval(digit_char(n as int)));
    } else {
        lemma_uint_string_val(n / 10);
        let s = uint_string(n);
        assert(s.drop_last() =~= uint_string(n / 10));
        assert(s.last() == digit_char((n % 10) as int));
        assert(uint_val(s) == (n / 10) * 10 + (n % 10));
        assert(n == (n / 10) * 10 + (n % 10)) by (nonlinear_arith);
    }
}

/// Parse a decimal `u64` out of `s`: an optional leading `+`, then digits.
/// Returns `None` exactly when the text is malformed or the value does not
/// fit in a `u64`.
pub fn parse_u64(s: &str) -> (r: Option<u64>)
    ensures
        r is Some <==> valid_uint_text(s@) && uint_text_val(s@) <= u64::MAX,
        r is Some ==> r->0 as int == uint_text_val(s@),
{
    let n = s.unicode_len();
    let start: usize = if n > 0 && s.get_char(0) == '+' { 1 } else { 0 };
    let ghost digits = s@.skip(start as int);
    if n == start {
        return None;
    }
    let mut acc: u64 = 0;
    let mut over: bool = false;
    let mut i: usize = start;
    while i < n
        invariant
            start <= i <= n,
            n == s@.len(),
            start == 0 || (s@.len() > 0 && s@[0] == '+' && start == 1),
            start == 0 ==> s@[0] != '+',
            start < n,
            digits == s@.skip(start as int),
            all_digits(s@.subrange(start as int, i as int)),
            over <==> uint_val(s@.subrange(start as int, i as int)) > u64::MAX,
            !over ==> acc as int == uint_val(s@.subrange(start as int, i as int)),
        decreases n - i,
    {
        let c = s.get_char(i);
        if !('0' <= c && c <= '9') {
            proof {
                assert(digits[i - start as int] == s@[i as int]);
                assert(!all_digits(digits));
                if start == 0 {
                    assert(digits =~= s@);
                }
            }
            return None;
        }
        let d: u64 = (c as u32 - 48) as u64;
        assert(d as int == dval(c));
        let ghost pre = s@.subrange(start as int, i as int);
        let ghost post = s@.subrange(start as int, i as int + 1);
        assert(post.drop_last() =~= pre);
        assert(post.last() == s@[i as int]);
        if over {
            assert(uint_val(post) == uint_val(pre) * 10 + dval(c));
            assert(uint_val(pre) * 10 >= uint_val(pre)) by (nonlinear_arith)
                requires uint_val(pre) >= 0;
            assert(uint_val(pre) >= 0) by { lemma_uint_val_nonneg(pre); }
        } else if acc > (u64::MAX - d) / 10 {
            over = true;
            assert(uint_val(post) > u64::MAX) by (nonlinear_arith)
                requires
                    uint_val(post) == uint_val(pre) * 10 + dval(c),
                    uint_val(pre) == acc as int,
                    0 <= dval(c) <= 9,
                    acc > (u64::MAX - d) / 10,
                    d as int == dval(c),
                    d <= 9;
        } else {
            assert(acc as int * 10 + d as int <= u64::MAX) by (nonlinear_arith)
                requires
                    acc <= (u64::MAX - d) / 10,
                    d <= 9;
            acc = acc * 10 + d;
        }
        i = i + 1;
    }
    proof {
        assert(s@.subrange(start as int, n as int) =~= digits);
        if start == 0 {
            assert(digits =~= s@);
        }
        assert(valid_uint_text(s@));
        assert(uint_text_val(s@) == uint_val(digits));
    }
    if over {
        None
    } else {
        Some(acc)
    }
}

/// The value of a digit string is never negative.
pub proof fn lemma_uint_val_nonneg(s: Seq<char>)
    ensures
        all_digits(s) ==> uint_val(s) >= 0,
    decreases s.len(),
{
    if s.len() > 0 {
        lemma_uint_val_nonneg(s.drop_last());
        if all_digits(s) {
            assert(all_digits(s.drop_last()));
            assert(uint_val(s.drop_last()) * 10 >= 0) by (nonlinear_arith)
                requires uint_val(s.drop_last()) >= 0;
        }
    }
}

fn digit_text(d: u64) -> (r: &'static str)
    requires
        d <= 9,
    ensures
        r@ =~= seq![digit_char(d as int)],
{
    proof {
        reveal_strlit("0");
        reveal_strlit("1");
        reveal_strlit("2");
        reveal_strlit("3");
        reveal_strlit("4");
        reveal_strlit("5");
        reveal_strlit("6");
        reveal_strlit("7");
        reveal_strlit("8");
        reveal_strlit("9");
    }
    if d == 0 { "0" }
    else if d == 1 { "1" }
    else if d == 2 { "2" }
    else if d == 3 { "3" }
    else if d == 4 { "4" }
    else if d == 5 { "5" }
    else if d == 6 { "6" }
    else if d == 7 { "7" }
    else if d == 8 { "8" }
    else { "9" }
}

/// Decimal text of `v`.
pub fn u64_to_text(v: u64) -> (r: String)
    ensures
        r@ == uint_string(v as nat),
    decreases v,
{
    let d = v % 10;
    let q = v / 10;
    if q == 0 {
        let r = digit_text(d).to_owned();
        proof {
            assert(uint_string(v as nat) =~= seq![digit_char(v as int)]);
        }
        r
    } else {
        let mut out = u64_to_text(q);
        out.append(digit_text(d));
        proof {
            assert(v as nat / 10 == q as nat && v as nat % 10 == d as nat);
            assert(out@ =~= uint_string(q as nat).push(digit_char(d as int)));
        }
        out
    }
}

/// Decimal text of `v`, with a `-` sign when negative.
pub fn i64_to_text(v: i64) -> (r: String)
    ensures
        r@ == int_string(v as int),
{
    if v < 0 {
        let mag: u64 = if v == i64::MIN {
            9223372036854775808u64
        } else {
            (-v) as u64
        };
        let mut out = String::from_str("-");
        proof {
            reveal_strlit("-");
            assert(out@ =~= seq!['-']);
        }
        let digits = u64_to_text(mag);
        out.append(digits.as_str());
        proof {
            assert(out@ =~= seq!['-'].add(uint_string(mag as nat)));
        }
        out
    } else {
        u64_to_text(v as u64)
    }
}

/// Character-by-character string equality, stated over the views.
pub fn str_eq_str(a: &str, b: &str) -> (r: bool)
    ensures
        r == (a@ == b@),
{
    let la = a.unicode_len();
    let lb = b.unicode_len();
    if la != lb {
        return false;
    }
    let mut i: usize = 0;
    while i < la
        invariant
            i <= la,
            la == a@.len(),
            la == b@.len(),
            forall|j: int| 0 <= j < i ==> a@[j] == b@[j],
        decreases la - i,
    {
        if a.get_char(i) != b.get_char(i) {
            return false;
        }
        i = i + 1;
    }
    proof {
        assert(a@ =~= b@);
    }
    true
}

/// Whether `s` begins with `p`, stated over the views.
pub fn str_starts_with(s: &str, p: &str) -> (r: bool)
    ensures
        r == (p@.len() <= s@.len() && s@.subrange(0, p@.len() as int) == p@),
{
    let ls = s.unicode_len();
    let lp = p.unicode_len();
    if lp > ls {
        return false;
    }
    let mut i: usize = 0;
    while i < lp
        invariant
            i <= lp,
            lp <= ls,
            ls == s@.len(),
            lp == p@.len(),
            forall|j: int| 0 <= j < i ==> s@[j] == p@[j],
        decreases lp - i,
    {
        if s.get_char(i) != p.get_char(i) {
            assert(s@.subrange(0, p@.len() as int)[i as int] != p@[i as int]);
            return false;
        }
        i = i + 1;
    }
    proof {
        assert(s@.subrange(0, p@.len() as int) =~= p@);
    }
    true
}

/// Index of the first comma of `s`, or `-1` when there is none.
pub open spec fn find_comma(s: Seq<char>) -> int
    decreases s.len(),
{
    if s.len() == 0 {
        -1
    } else if s[0] == ',' {
        0
    } else {
        let r = find_comma(s.skip(1));
        if r < 0 { -1 } else { r + 1 }
    }
}

proof fn lemma_find_comma(s: Seq<char>)
    ensures
        find_comma(s) == -1 ==> forall|i: int| 0 <= i < s.len() ==> s[i] != ',',
        find_comma(s) >= 0 ==> 0 <= find_comma(s) < s.len() && s[find_comma(s)] == ','
            && (forall|i: int| 0 <= i < find_comma(s) ==> s[i] != ','),
    decreases s.len(),
{
    if s.len() > 0 && s[0] != ',' {
        let t = s.skip(1);
        lemma_find_comma(t);
        let r = find_comma(t);
        if r < 0 {
            assert forall|i: int| 0 <= i < s.len() implies s[i] != ',' by {
                if i >= 1 {
                    assert(t[i - 1] == s[i]);
                }
            }
        } else {
            assert(find_comma(s) == r + 1);
            assert(s[r + 1] == t[r]);
            assert forall|i: int| 0 <= i < r + 1 implies s[i] != ',' by {
                if i >= 1 {
                    assert(t[i - 1] == s[i]);
                    assert(t[i - 1] != ',');
                }
            }
        }
    }
}

/// The comma-separated fields of `s`, in order; splitting the empty string
/// gives one empty field.
pub open spec fn split_commas_spec(s: Seq<char>) -> Seq<Seq<char>>
    decreases s.len() via split_commas_spec_dec
{
    let c = find_comma(s);
    if c < 0 {
        seq![s]
    } else {
        seq![s.subrange(0, c)].add(split_commas_spec(s.skip(c + 1)))
    }
}

#[via_fn]
proof fn split_commas_spec_dec(s: Seq<char>) {
    lemma_find_comma(s);
}

/// Split `s` at each comma.
pub fn split_commas(s: &str) -> (r: Vec<String>)
    ensures
        r.deep_view() == split_commas_spec(s@),
    decreases s@.len(),
{
    let n = s.unicode_len();
    let mut i: usize = 0;
    while i < n
        invariant
            i <= n,
            n == s@.len(),
            forall|j: int| 0 <= j < i ==> s@[j] != ',',
        decreases n - i,
    {
        if s.get_char(i) == ',' {
            proof {
                lemma_find_comma(s@);
                assert(find_comma(s@) == i);
            }
            let head = s.substring_char(0, i);
            let tail = s.substring_char(i + 1, n);
            let rest = split_commas(tail);
            let mut out: Vec<String> = Vec::new();
            out.push(head.to_owned());
            let mut k: usize = 0;
            let ghost restv = rest.deep_view();
            while k < rest.len()
                invariant
                    k <= rest.len(),
                    restv == rest.deep_view(),
                    rest@.len() == restv.len(),
                    out@.len() == k + 1,
                    out@[0]@ == s@.subrange(0, i as int),
                    forall|j: int| 0 <= j < k ==> out@[j + 1]@ == restv[j],
                decreases rest.len() - k,
            {
                let piece = rest[k].clone();
                proof {
                    assert(restv[k as int] == rest@[k as int]@);
                }
                out.push(piece);
                k = k + 1;
            }
            proof {
                let expect = seq![s@.subrange(0, i as int)].add(restv);
                assert forall|j: int| 0 <= j < out.deep_view().len() implies out.deep_view()[j]
                    == expect[j] by {
                    assert(out.deep_view()[j] == out@[j]@);
                    if j >= 1 {
                        assert(out@[j]@ == restv[j - 1]);
                    }
                }
                assert(out.deep_view() =~= expect);
                assert(s@.skip(i as int + 1) =~= s@.subrange(i as int + 1, n as int));
                assert(out.deep_view() == split_commas_spec(s@));
            }
            return out;
        }
        i = i + 1;
    }
    proof {
        lemma_find_comma(s@);
        assert(find_comma(s@) == -1);
    }
    let mut out: Vec<String> = Vec::new();
    out.push(s.to_owned());
    proof {
        assert(out.deep_view()[0] == out@[0]@);
        assert(out.deep_view() =~= seq![s@]);
    }
    out
}

} // verus!
