//! Character-level text utilities shared by the parsers.
//!
//! All contracts are stated over `Seq<char>` views, so callers reason
//! about string contents independently of any byte encoding.

use vstd::prelude::*;

verus! {

/// ASCII whitespace, as used by whitespace-separated kernel text formats.
pub open spec fn is_space(c: char) -> bool {
    c == ' ' || c == '\t' || c == '\n' || c == '\r' || c == '\x0c'
}

/// ASCII decimal digit.
pub open spec fn is_digit(c: char) -> bool {
    48 <= c as u32 <= 57
}

/// Numeric value of a decimal digit character.
pub open spec fn digit_val(c: char) -> nat {
    (c as u32 - 48) as nat
}

/// Every character of `s` is a decimal digit.
pub open spec fn all_digits(s: Seq<char>) -> bool {
    forall|i: int| 0 <= i < s.len() ==> is_digit(#[trigger] s[i])
}

/// The value of `s` read as a base-10 numeral.
pub open spec fn dec_val(s: Seq<char>) -> nat
    decreases s.len(),
{
    if s.len() == 0 {
        0
    } else {
        dec_val(s.drop_last()) * 10 + digit_val(s.last())
    }
}

/// Appending a digit multiplies the numeral's value by ten and adds
/// the digit.
pub proof fn lemma_dec_val_push(t: Seq<char>, c: char)
    ensures
        dec_val(t.push(c)) == dec_val(t) * 10 + digit_val(c),
{
    assert(t.push(c).drop_last() =~= t);
}

/// Reading more digits never shrinks the numeral's value.
pub proof fn lemma_dec_val_prefix(s: Seq<char>, i: int)
    requires
        0 <= i <= s.len(),
    ensures
        dec_val(s.subrange(0, i)) <= dec_val(s),
    decreases s.len() - i,
{
    if i < s.len() {
        assert(s.subrange(0, i + 1) =~= s.subrange(0, i).push(s[i]));
        lemma_dec_val_push(s.subrange(0, i), s[i]);
        lemma_dec_val_prefix(s, i + 1);
    } else {
        assert(s.subrange(0, i) =~= s);
    }
}

/// `s` with one leading plus sign removed, as the standard unsigned
/// parse allows.
pub open spec fn unsigned_body(s: Seq<char>) -> Seq<char> {
    if s.len() > 0 && s[0] == '+' {
        s.drop_first()
    } else {
        s
    }
}

/// The string `t` is a numeral — digits after an optional plus sign —
/// whose value fits in `u64`.
pub open spec fn numeral_token(t: Seq<char>) -> bool {
    unsigned_body(t).len() > 0 && all_digits(unsigned_body(t)) && dec_val(unsigned_body(t))
        <= u64::MAX
}

/// The value of such a numeral.
pub open spec fn numeral_val(t: Seq<char>) -> nat {
    dec_val(unsigned_body(t))
}

/// Parses a string of decimal digits as a `u64`.
fn parse_digits(s: &str, from: usize) -> (r: Option<u64>)
    requires
        from <= s@.len(),
    ensures
        r is Some <==> s@.len() - from > 0 && all_digits(s@.skip(from as int)) && dec_val(
            s@.skip(from as int),
        ) <= u64::MAX,
        r is Some ==> r->Some_0 == dec_val(s@.skip(from as int)),
{
    let n = s.unicode_len();
    let ghost body = s@.skip(from as int);
    if n == from {
        return None;
    }
    let mut acc: u64 = 0;
    let mut i: usize = from;
    proof {
        assert(body.subrange(0, 0) =~= Seq::<char>::empty());
    }
    while i < n
        invariant
            n == s@.len(),
            from <= i <= n,
            body == s@.skip(from as int),
            all_digits(body.subrange(0, i - from)),
            acc == dec_val(body.subrange(0, i - from)),
        decreases n - i,
    {
        let c = s.get_char(i);
        let code = c as u32;
        proof {
            assert(body[i - from] == s@[i as int]);
            assert(body.subrange(0, i - from + 1) =~= body.subrange(0, i - from).push(
                body[i - from],
            ));
            lemma_dec_val_push(body.subrange(0, i - from), body[i - from]);
        }
        if code < 48 || code > 57 {
            assert(!is_digit(body[i - from]));
            return None;
        }
        let d = (code - 48) as u64;
        if acc > (u64::MAX - d) / 10 {
            proof {
                assert(dec_val(body.subrange(0, i - from + 1)) > u64::MAX);
                lemma_dec_val_prefix(body, i - from + 1);
            }
            return None;
        }
        acc = acc * 10 + d;
        i = i + 1;
    }
    proof {
        assert(body.subrange(0, n - from) =~= body);
    }
    Some(acc)
}

/// Parses an optionally plus-signed string of decimal digits as a
/// `u64`, as the standard unsigned parse reads it.
///
/// Returns `None` exactly when no digits follow the optional sign, a
/// non-digit character occurs, or the value is above `u64::MAX`.
pub fn parse_u64(s: &str) -> (r: Option<u64>)
    ensures
        r is Some <==> numeral_token(s@),
        r is Some ==> r->Some_0 == numeral_val(s@),
{
    let n = s.unicode_len();
    if n > 0 && s.get_char(0) == '+' {
        proof {
            assert(unsigned_body(s@) =~= s@.skip(1));
        }
        parse_digits(s, 1)
    } else {
        proof {
            assert(unsigned_body(s@) =~= s@.skip(0));
        }
        parse_digits(s, 0)
    }
}

/// Decides [`is_space`] at runtime.
pub fn is_space_char(c: char) -> (b: bool)
    ensures
        b == is_space(c),
{
    c == ' ' || c == '\t' || c == '\n' || c == '\r' || c == '\x0c'
}

/// Character-wise string equality.
pub fn str_eq(a: &str, b: &str) -> (r: bool)
    ensures
        r == (a@ == b@),
{
    let na = a.unicode_len();
    let nb = b.unicode_len();
    if na != nb {
        return false;
    }
    let mut i: usize = 0;
    while i < na
        invariant
            na == a@.len(),
            na == b@.len(),
            0 <= i <= na,
            forall|j: int| 0 <= j < i ==> a@[j] == b@[j],
        decreases na - i,
    {
        if a.get_char(i) != b.get_char(i) {
            return false;
        }
        i = i + 1;
    }
    proof {
        assert(a@ =~= b@);
    }
    true
}

/// `prefix` is an initial segment of `s`.
pub open spec fn has_prefix(s: Seq<char>, prefix: Seq<char>) -> bool {
    prefix.len() <= s.len() && s.subrange(0, prefix.len() as int) == prefix
}

/// `suffix` is a final segment of `s`.
pub open spec fn has_suffix(s: Seq<char>, suffix: Seq<char>) -> bool {
    suffix.len() <= s.len() && s.subrange(s.len() - suffix.len(), s.len() as int) == suffix
}

/// `needle` occurs contiguously somewhere in `s`.
pub open spec fn contains_seq(s: Seq<char>, needle: Seq<char>) -> bool {
    exists|k: int|
        0 <= k && k + needle.len() <= s.len() && #[trigger] s.subrange(k, k + needle.len())
            == needle
}

pub fn starts_with(s: &str, prefix: &str) -> (r: bool)
    ensures
        r == has_prefix(s@, prefix@),
{
    let n = s.unicode_len();
    let np = prefix.unicode_len();
    if np > n {
        return false;
    }
    let mut i: usize = 0;
    while i < np
        invariant
            n == s@.len(),
            np == prefix@.len(),
            np <= n,
            0 <= i <= np,
            forall|j: int| 0 <= j < i ==> s@[j] == prefix@[j],
        decreases np - i,
    {
        if s.get_char(i) != prefix.get_char(i) {
            assert(s@.subrange(0, np as int)[i as int] != prefix@[i as int]);
            return false;
        }
        i = i + 1;
    }
    proof {
        assert(s@.subrange(0, np as int) =~= prefix@);
    }
    true
}

pub fn ends_with(s: &str, suffix: &str) -> (r: bool)
    ensures
        r == has_suffix(s@, suffix@),
{
    let n = s.unicode_len();
    let ns = suffix.unicode_len();
    if ns > n {
        return false;
    }
    let start = n - ns;
    let mut i: usize = 0;
    while i < ns
        invariant
            n == s@.len(),
            ns == suffix@.len(),
            ns <= n,
            start == n - ns,
            0 <= i <= ns,
            forall|j: int| 0 <= j < i ==> s@[start + j] == suffix@[j],
        decreases ns - i,
    {
        if s.get_char(start + i) != suffix.get_char(i) {
            assert(s@.subrange(start as int, n as int)[i as int] != suffix@[i as int]);
            return false;
        }
        i = i + 1;
    }
    proof {
        assert(s@.subrange(start as int, n as int) =~= suffix@);
    }
    true
}

/// Substring search, used for matching free-text device descriptors.
pub fn contains_str(s: &str, needle: &str) -> (r: bool)
    ensures
        r == contains_seq(s@, needle@),
{
    let n = s.unicode_len();
    let m = needle.unicode_len();
    if m > n {
        return false;
    }
    if m == 0 {
        proof {
            assert(s@.subrange(0, 0 + needle@.len() as int) =~= needle@);
        }
        return true;
    }
    let mut k: usize = 0;
    while k <= n - m
        invariant
            n == s@.len(),
            m == needle@.len(),
            1 <= m <= n,
            0 <= k <= n - m + 1,
            forall|p: int|
                0 <= p < k ==> #[trigger] s@.subrange(p, p + needle@.len()) != needle@,
        decreases n - k,
    {
        let mut i: usize = 0;
        let mut matched = true;
        while i < m
            invariant
                n == s@.len(),
                m == needle@.len(),
                m <= n,
                1 <= m,
                0 <= k <= n - m,
                0 <= i <= m,
                matched ==> forall|j: int| 0 <= j < i ==> s@[k + j] == needle@[j],
                !matched ==> s@.subrange(k as int, k + needle@.len()) != needle@,
            decreases m - i,
        {
            if s.get_char(k + i) != needle.get_char(i) {
                assert(s@.subrange(k as int, k + needle@.len())[i as int] != needle@[i as int]);
                matched = false;
            }
            i = i + 1;
        }
        if matched {
            proof {
                assert(s@.subrange(k as int, k + needle@.len()) =~= needle@);
            }
            return true;
        }
        k = k + 1;
    }
    false
}

/// `s` with trailing whitespace removed.
pub open spec fn trimmed_end(s: Seq<char>) -> Seq<char>
    decreases s.len(),
{
    if s.len() == 0 {
        s
    } else if is_space(s.last()) {
        trimmed_end(s.drop_last())
    } else {
        s
    }
}

/// `s` with leading whitespace removed.
pub open spec fn trimmed_start(s: Seq<char>) -> Seq<char>
    decreases s.len(),
{
    if s.len() == 0 {
        s
    } else if is_space(s[0]) {
        trimmed_start(s.drop_first())
    } else {
        s
    }
}

/// `s` with whitespace removed on both sides.
pub open spec fn trimmed(s: Seq<char>) -> Seq<char> {
    trimmed_start(trimmed_end(s))
}

pub fn trim_end_str<'a>(s: &'a str) -> (r: &'a str)
    ensures
        r@ == trimmed_end(s@),
{
    let n = s.unicode_len();
    proof {
        assert(s@.subrange(0, n as int) =~= s@);
    }
    let mut j: usize = n;
    while j > 0
        invariant_except_break
            n == s@.len(),
            0 <= j <= n,
            trimmed_end(s@) == trimmed_end(s@.subrange(0, j as int)),
        ensures
            0 <= j <= n,
            n == s@.len(),
            trimmed_end(s@) == s@.subrange(0, j as int),
        decreases j,
    {
        let c = s.get_char(j - 1);
        proof {
            assert(s@.subrange(0, j as int).last() == s@[j - 1]);
            assert(s@.subrange(0, j as int).drop_last() =~= s@.subrange(0, j - 1));
        }
        if !is_space_char(c) {
            break;
        }
        j = j - 1;
    }
    s.substring_char(0, j)
}

pub fn trim_start_str<'a>(s: &'a str) -> (r: &'a str)
    ensures
        r@ == trimmed_start(s@),
{
    let n = s.unicode_len();
    proof {
        assert(s@.subrange(0, n as int) =~= s@);
    }
    let mut j: usize = 0;
    while j < n
        invariant_except_break
            n == s@.len(),
            0 <= j <= n,
            trimmed_start(s@) == trimmed_start(s@.subrange(j as int, n as int)),
        ensures
            0 <= j <= n,
            n == s@.len(),
            trimmed_start(s@) == s@.subrange(j as int, n as int),
        decreases n - j,
    {
        let c = s.get_char(j);
        proof {
            assert(s@.subrange(j as int, n as int)[0] == s@[j as int]);
            assert(s@.subrange(j as int, n as int).drop_first() =~= s@.subrange(j + 1, n as int));
        }
        if !is_space_char(c) {
            break;
        }
        j = j + 1;
    }
    proof {
        if j == n {
            assert(s@.subrange(n as int, n as int).len() == 0);
        }
    }
    s.substring_char(j, n)
}

pub fn trim_str<'a>(s: &'a str) -> (r: &'a str)
    ensures
        r@ == trimmed(s@),
{
    trim_start_str(trim_end_str(s))
}

/// Whitespace-separated tokens of `s`, accumulated left to right:
/// `cur` is the token under construction and `acc` the tokens found so far.
pub open spec fn tok_rec(s: Seq<char>, cur: Seq<char>, acc: Seq<Seq<char>>) -> Seq<Seq<char>>
    decreases s.len(),
{
    if s.len() == 0 {
        if cur.len() == 0 {
            acc
        } else {
            acc.push(cur)
        }
    } else if is_space(s[0]) {
        if cur.len() == 0 {
            tok_rec(s.drop_first(), Seq::empty(), acc)
        } else {
            tok_rec(s.drop_first(), Seq::empty(), acc.push(cur))
        }
    } else {
        tok_rec(s.drop_first(), cur.push(s[0]), acc)
    }
}

/// The whitespace-separated tokens of `s`, in order.
pub open spec fn tokens_of(s: Seq<char>) -> Seq<Seq<char>> {
    tok_rec(s, Seq::empty(), Seq::empty())
}

/// Splits `s` on whitespace runs into its tokens.
pub fn tokens(s: &str) -> (v: Vec<String>)
    ensures
        v@.map_values(|t: String| t@) == tokens_of(s@),
{
    let n = s.unicode_len();
    let mut v: Vec<String> = Vec::new();
    proof {
        assert(s@.subrange(0, n as int) =~= s@);
        assert(s@.subrange(0, 0) =~= Seq::<char>::empty());
        assert(v@.map_values(|t: String| t@) =~= Seq::<Seq<char>>::empty());
    }
    let mut start: usize = 0;
    let mut i: usize = 0;
    while i < n
        invariant
            n == s@.len(),
            0 <= start <= i <= n,
            tok_rec(
                s@.subrange(i as int, n as int),
                s@.subrange(start as int, i as int),
                v@.map_values(|t: String| t@),
            ) == tokens_of(s@),
        decreases n - i,
    {
        let c = s.get_char(i);
        let ghost rest = s@.subrange(i as int, n as int);
        let ghost cur = s@.subrange(start as int, i as int);
        proof {
            assert(rest[0] == s@[i as int]);
            assert(rest.drop_first() =~= s@.subrange(i + 1, n as int));
            assert(s@.subrange(i + 1, i + 1) =~= Seq::<char>::empty());
            if start == i {
                assert(cur =~= Seq::<char>::empty());
            }
        }
        if is_space_char(c) {
            if start < i {
                let tok = s.substring_char(start, i).to_owned();
                let ghost old_map = v@.map_values(|t: String| t@);
                v.push(tok);
                proof {
                    assert(v@.map_values(|t: String| t@) =~= old_map.push(cur));
                }
            }
            start = i + 1;
        } else {
            proof {
                assert(cur.push(s@[i as int]) =~= s@.subrange(start as int, i + 1));
            }
        }
        i = i + 1;
    }
    if start < n {
        let tok = s.substring_char(start, n).to_owned();
        let ghost old_map = v@.map_values(|t: String| t@);
        let ghost cur = s@.subrange(start as int, n as int);
        v.push(tok);
        proof {
            assert(s@.subrange(n as int, n as int).len() == 0);
            assert(v@.map_values(|t: String| t@) =~= old_map.push(cur));
        }
    } else {
        proof {
            assert(s@.subrange(n as int, n as int).len() == 0);
            assert(s@.subrange(start as int, n as int).len() == 0);
        }
    }
    v
}

/// The lines of `s`, split on newline characters, accumulated left to
/// right. Unlike tokenization, empty lines are kept.
pub open spec fn line_rec(s: Seq<char>, cur: Seq<char>, acc: Seq<Seq<char>>) -> Seq<Seq<char>>
    decreases s.len(),
{
    if s.len() == 0 {
        acc.push(cur)
    } else if s[0] == '\n' {
        line_rec(s.drop_first(), Seq::empty(), acc.push(cur))
    } else {
        line_rec(s.drop_first(), cur.push(s[0]), acc)
    }
}

/// The lines of `s`.
pub open spec fn lines_of(s: Seq<char>) -> Seq<Seq<char>> {
    line_rec(s, Seq::empty(), Seq::empty())
}

/// Splits `s` into its lines.
pub fn split_lines(s: &str) -> (v: Vec<String>)
    ensures
        v@.map_values(|t: String| t@) == lines_of(s@),
{
    let n = s.unicode_len();
    let mut v: Vec<String> = Vec::new();
    proof {
        assert(s@.subrange(0, n as int) =~= s@);
        assert(s@.subrange(0, 0) =~= Seq::<char>::empty());
        assert(v@.map_values(|t: String| t@) =~= Seq::<Seq<char>>::empty());
    }
    let mut start: usize = 0;
    let mut i: usize = 0;
    while i < n
        invariant
            n == s@.len(),
            0 <= start <= i <= n,
            line_rec(
                s@.subrange(i as int, n as int),
                s@.subrange(start as int, i as int),
                v@.map_values(|t: String| t@),
            ) == lines_of(s@),
        decreases n - i,
    {
        let c = s.get_char(i);
        let ghost rest = s@.subrange(i as int, n as int);
        let ghost cur = s@.subrange(start as int, i as int);
        proof {
            assert(rest[0] == s@[i as int]);
            assert(rest.drop_first() =~= s@.subrange(i + 1, n as int));
            assert(s@.subrange(i + 1, i + 1) =~= Seq::<char>::empty());
        }
        if c == '\n' {
            let line = s.substring_char(start, i).to_owned();
            let ghost old_map = v@.map_values(|t: String| t@);
            v.push(line);
            proof {
                assert(v@.map_values(|t: String| t@) =~= old_map.push(cur));
            }
            start = i + 1;
        } else {
            proof {
                assert(cur.push(s@[i as int]) =~= s@.subrange(start as int, i + 1));
            }
        }
        i = i + 1;
    }
    let line = s.substring_char(start, n).to_owned();
    let ghost old_map = v@.map_values(|t: String| t@);
    let ghost cur = s@.subrange(start as int, n as int);
    v.push(line);
    proof {
        assert(s@.subrange(n as int, n as int).len() == 0);
        assert(v@.map_values(|t: String| t@) =~= old_map.push(cur));
    }
    v
}

/// Lexicographic order on character sequences, by code point.
pub open spec fn str_le(a: Seq<char>, b: Seq<char>) -> bool
    decreases a.len(),
{
    if a.len() == 0 {
        true
    } else if b.len() == 0 {
        false
    } else if (a[0] as u32) < (b[0] as u32) {
        true
    } else if (a[0] as u32) > (b[0] as u32) {
        false
    } else {
        str_le(a.drop_first(), b.drop_first())
    }
}

/// Any two strings are ordered one way or the other.
pub proof fn lemma_str_le_total(a: Seq<char>, b: Seq<char>)
    ensures
        str_le(a, b) || str_le(b, a),
    decreases a.len(),
{
    if a.len() > 0 && b.len() > 0 && a[0] as u32 == b[0] as u32 {
        lemma_str_le_total(a.drop_first(), b.drop_first());
    }
}

/// The order is transitive.
pub proof fn lemma_str_le_trans(a: Seq<char>, b: Seq<char>, c: Seq<char>)
    requires
        str_le(a, b),
        str_le(b, c),
    ensures
        str_le(a, c),
    decreases a.len(),
{
    if a.len() > 0 && b.len() > 0 && c.len() > 0 && a[0] as u32 == b[0] as u32 && b[0] as u32
        == c[0] as u32 {
        lemma_str_le_trans(a.drop_first(), b.drop_first(), c.drop_first());
    }
}

/// Compares two strings in the lexicographic order.
pub fn str_le_exec(a: &str, b: &str) -> (r: bool)
    ensures
        r == str_le(a@, b@),
{
    let na = a.unicode_len();
    let nb = b.unicode_len();
    let mut i: usize = 0;
    proof {
        assert(a@.skip(0) =~= a@);
        assert(b@.skip(0) =~= b@);
    }
    loop
        invariant
            na == a@.len(),
            nb == b@.len(),
            0 <= i <= na,
            0 <= i <= nb,
            str_le(a@, b@) == str_le(a@.skip(i as int), b@.skip(i as int)),
        ensures
            str_le(a@, b@) == str_le(a@.skip(i as int), b@.skip(i as int)),
            i <= na && i <= nb,
            i >= na || i >= nb || a@[i as int] as u32 != b@[i as int] as u32,
        decreases na - i,
    {
        if i >= na || i >= nb {
            break;
        }
        let ca = a.get_char(i) as u32;
        let cb = b.get_char(i) as u32;
        proof {
            assert(a@.skip(i as int)[0] == a@[i as int]);
            assert(b@.skip(i as int)[0] == b@[i as int]);
            assert(a@.skip(i as int).drop_first() =~= a@.skip(i as int + 1));
            assert(b@.skip(i as int).drop_first() =~= b@.skip(i as int + 1));
        }
        if ca != cb {
            break;
        }
        i = i + 1;
    }
    proof {
        assert(a@.skip(i as int).len() == (na - i) as int);
        assert(b@.skip(i as int).len() == (nb - i) as int);
        if i < na && i < nb {
            assert(a@.skip(i as int)[0] == a@[i as int]);
            assert(b@.skip(i as int)[0] == b@[i as int]);
        }
    }
    if i >= na {
        true
    } else if i >= nb {
        false
    } else {
        let ca = a.get_char(i) as u32;
        let cb = b.get_char(i) as u32;
        ca < cb
    }
}

/// The value of `s` read as an optionally signed base-10 numeral.
pub open spec fn signed_val(s: Seq<char>) -> int {
    if s.len() > 0 && s[0] == '-' {
        -(dec_val(s.drop_first()) as int)
    } else {
        dec_val(unsigned_body(s)) as int
    }
}

/// `s` is a well-formed numeral — digits after an optional sign —
/// whose value fits in `i64`.
pub open spec fn valid_i64_numeral(s: Seq<char>) -> bool {
    if s.len() > 0 && s[0] == '-' {
        s.len() > 1 && all_digits(s.drop_first()) && -(dec_val(s.drop_first()) as int)
            >= i64::MIN
    } else {
        unsigned_body(s).len() > 0 && all_digits(unsigned_body(s)) && dec_val(unsigned_body(s))
            <= i64::MAX
    }
}

/// Parses an optionally signed string of decimal digits as an `i64`,
/// as the standard signed parse reads it.
pub fn parse_i64(s: &str) -> (r: Option<i64>)
    ensures
        r is Some <==> valid_i64_numeral(s@),
        r is Some ==> r->Some_0 == signed_val(s@),
{
    let n = s.unicode_len();
    if n == 0 {
        return None;
    }
    if s.get_char(0) == '-' {
        proof {
            assert(s@.skip(1) =~= s@.drop_first());
        }
        match parse_digits(s, 1) {
            Some(mag) => {
                if mag > 9223372036854775808u64 {
                    None
                } else if mag == 9223372036854775808u64 {
                    Some(i64::MIN)
                } else {
                    Some(-(mag as i64))
                }
            },
            None => None,
        }
    } else {
        match parse_u64(s) {
            Some(v) => {
                if v > i64::MAX as u64 {
                    None
                } else {
                    Some(v as i64)
                }
            },
            None => None,
        }
    }
}

} // verus!
