//! Shortening of labels for narrow table columns.

use vstd::prelude::*;
use vstd::string::*;
use vstd::utf8::{encode_utf8, encode_utf8_valid_utf8, is_char_boundary, valid_utf8};

verus! {

/// Whether `pat` occurs in `s` at position `i`.
pub open spec fn occurs_at(s: Seq<char>, pat: Seq<char>, i: int) -> bool {
    0 <= i && i + pat.len() <= s.len() && s.subrange(i, i + pat.len()) == pat
}

/// `s` with every occurrence of the non-empty `pat` removed, scanning left to right.
pub open spec fn strip_all(s: Seq<char>, pat: Seq<char>) -> Seq<char>
    decreases s.len(),
{
    if s.len() == 0 {
        Seq::empty()
    } else if pat.len() > 0 && occurs_at(s, pat, 0) {
        strip_all(s.skip(pat.len() as int), pat)
    } else {
        seq![s[0]] + strip_all(s.skip(1), pat)
    }
}

/// Whether `pat` occurs in `s` at character position `i`.
fn matches_at(s: &str, n: usize, pat: &str, m: usize, i: usize) -> (r: bool)
    requires
        n == s@.len(),
        m == pat@.len(),
        i <= n,
    ensures
        r == occurs_at(s@, pat@, i as int),
{
    if m > n - i {
        return false;
    }
    let mut k: usize = 0;
    while k < m
        invariant
            0 <= k <= m,
            i + m <= n,
            n == s@.len(),
            m == pat@.len(),
            forall|j: int| 0 <= j < k ==> s@[i + j] == pat@[j],
        decreases m - k,
    {
        if s.get_char(i + k) != pat.get_char(k) {
            assert(s@.subrange(i as int, i + m)[k as int] != pat@[k as int]);
            return false;
        }
        k += 1;
    }
    assert(s@.subrange(i as int, i + m) =~= pat@);
    true
}

/// `s` with every occurrence of the non-empty `pat` removed.
pub fn remove_all(s: &str, pat: &str) -> (r: String)
    requires
        pat@.len() > 0,
    ensures
        r@ == strip_all(s@, pat@),
{
    let n = s.unicode_len();
    let m = pat.unicode_len();
    let mut out = String::new();
    let mut i: usize = 0;
    assert(s@.skip(0) =~= s@);
    assert(out@ + strip_all(s@, pat@) =~= strip_all(s@, pat@));
    while i < n
        invariant
            0 <= i <= n,
            n == s@.len(),
            m == pat@.len(),
            m > 0,
            strip_all(s@, pat@) == out@ + strip_all(s@.skip(i as int), pat@),
        decreases n - i,
    {
        let ghost rest = s@.skip(i as int);
        if matches_at(s, n, pat, m, i) {
            assert(rest.subrange(0, m as int) =~= s@.subrange(i as int, i + m));
            assert(rest.skip(m as int) =~= s@.skip(i + m));
            i = i + m;
        } else {
            assert(!occurs_at(rest, pat@, 0)) by {
                if i + m <= n {
                    assert(rest.subrange(0, m as int) =~= s@.subrange(i as int, i + m));
                }
            }
            assert(rest.skip(1) =~= s@.skip(i + 1));
            let ghost before = out@;
            let c = s.substring_char(i, i + 1);
            assert(c@ =~= seq![rest[0]]);
            out.append(c);
            assert(before + strip_all(rest, pat@) =~= out@ + strip_all(s@.skip(i + 1), pat@));
            i = i + 1;
        }
    }
    assert(s@.skip(n as int) =~= Seq::<char>::empty());
    out
}

/// A backend URL without its scheme.
pub fn shorten_url(url: &str) -> (r: String)
    ensures
        r@ == strip_all(strip_all(url@, "http://"@), "https://"@),
{
    proof {
        reveal_strlit("http://");
        reveal_strlit("https://");
    }
    let plain = remove_all(url, "http://");
    remove_all(plain.as_str(), "https://")
}

/// `s` without the interpreter invocation that starts it, if any.
pub open spec fn strip_interpreter(s: Seq<char>) -> Seq<char> {
    if occurs_at(s, "python -m "@, 0) {
        s.skip("python -m "@.len() as int)
    } else if occurs_at(s, "python3 -m "@, 0) {
        s.skip("python3 -m "@.len() as int)
    } else if occurs_at(s, "python "@, 0) {
        s.skip("python "@.len() as int)
    } else if occurs_at(s, "python3 "@, 0) {
        s.skip("python3 "@.len() as int)
    } else {
        s
    }
}

/// The last character boundary of the UTF-8 text `bytes` at or before byte `n`.
pub open spec fn boundary_at_or_before(bytes: Seq<u8>, n: int) -> int
    decreases n,
{
    if n <= 0 {
        0
    } else if is_char_boundary(bytes, n) {
        n
    } else {
        boundary_at_or_before(bytes, n - 1)
    }
}

/// The UTF-8 bytes of a command line as the clients column shows it: without
/// the interpreter invocation and, when that leaves more than 60 bytes, cut
/// to its first 58 bytes (back to the last character boundary) and "..".
pub open spec fn short_command(s: Seq<char>) -> Seq<u8> {
    let t = encode_utf8(strip_interpreter(s));
    if t.len() > 60 {
        t.subrange(0, boundary_at_or_before(t, 58)) + encode_utf8(".."@)
    } else {
        t
    }
}

proof fn lemma_encode_concat(a: Seq<char>, b: Seq<char>)
    ensures
        encode_utf8(a + b) == encode_utf8(a) + encode_utf8(b),
    decreases a.len(),
{
    if a.len() == 0 {
        assert(a + b =~= b);
        assert(encode_utf8(a) + encode_utf8(b) =~= encode_utf8(b));
    } else {
        assert((a + b).drop_first() =~= a.drop_first() + b);
        lemma_encode_concat(a.drop_first(), b);
        assert((a + b)[0] == a[0]);
        assert(encode_utf8(a + b) =~= encode_utf8(a) + encode_utf8(b));
    }
}

fn strip_prefix_of(s: &str, n: usize, pat: &str) -> (r: Option<String>)
    requires
        n == s@.len(),
    ensures
        occurs_at(s@, pat@, 0) ==> (r matches Some(t) && t@ == s@.skip(pat@.len() as int)),
        !occurs_at(s@, pat@, 0) ==> r is None,
{
    let m = pat.unicode_len();
    if matches_at(s, n, pat, m, 0) {
        Some(s.substring_char(m, n).to_owned())
    } else {
        None
    }
}

/// Shortens a client's command line for display; the result's UTF-8
/// bytes are `short_command(cmd@)`.
pub fn shorten_command(cmd: &str) -> (r: String)
    ensures
        encode_utf8(r@) == short_command(cmd@),
{
    let n = cmd.unicode_len();
    let trimmed = match strip_prefix_of(cmd, n, "python -m ") {
        Some(t) => t,
        None => match strip_prefix_of(cmd, n, "python3 -m ") {
            Some(t) => t,
            None => match strip_prefix_of(cmd, n, "python ") {
                Some(t) => t,
                None => match strip_prefix_of(cmd, n, "python3 ") {
                    Some(t) => t,
                    None => cmd.to_owned(),
                },
            },
        },
    };
    assert(trimmed@ == strip_interpreter(cmd@));
    let t = trimmed.as_str();
    let ghost bytes = encode_utf8(trimmed@);
    proof {
        encode_utf8_valid_utf8(trimmed@);
    }
    let byte_len = t.as_bytes().len();
    if byte_len > 60 {
        let mut b: usize = 58;
        while b > 0 && !t.is_char_boundary(b)
            invariant
                b <= 58,
                bytes == t.spec_bytes(),
                valid_utf8(bytes),
                boundary_at_or_before(bytes, 58) == boundary_at_or_before(bytes, b as int),
            decreases b,
        {
            b -= 1;
        }
        assert(boundary_at_or_before(bytes, b as int) == b as int);
        let (head, _) = t.split_at(b);
        assert(encode_utf8(head@) == bytes.subrange(0, b as int));
        let mut out = head.to_owned();
        proof {
            reveal_strlit("..");
        }
        out.append("..");
        proof {
            lemma_encode_concat(head@, ".."@);
            assert(out@ == head@ + ".."@);
            assert(bytes.len() > 60);
            assert(encode_utf8(strip_interpreter(cmd@)) == bytes);
        }
        out
    } else {
        assert(encode_utf8(trimmed@) == short_command(cmd@));
        trimmed
    }
}

/// The characters after the last '/' of `s`; all of `s` when it has none.
pub open spec fn after_last_slash(s: Seq<char>) -> Seq<char>
    decreases s.len(),
{
    if s.len() == 0 {
        s
    } else if s.last() == '/' {
        Seq::empty()
    } else {
        after_last_slash(s.drop_last()).push(s.last())
    }
}

proof fn lemma_after_last_slash(s: Seq<char>, j: int)
    requires
        0 <= j <= s.len(),
        forall|k: int| j <= k < s.len() ==> s[k] != '/',
        j == 0 || s[j - 1] == '/',
    ensures
        after_last_slash(s) == s.skip(j),
    decreases s.len(),
{
    if s.len() == j {
        if j > 0 {
            assert(s.skip(j) =~= Seq::<char>::empty());
        }
    } else {
        lemma_after_last_slash(s.drop_last(), j);
        assert(s.drop_last().skip(j).push(s.last()) =~= s.skip(j));
    }
}

/// A model name without its organisation prefix.
pub fn shorten_model(model: &str) -> (r: String)
    ensures
        r@ == after_last_slash(model@),
{
    let n = model.unicode_len();
    let mut j: usize = n;
    while j > 0 && model.get_char(j - 1) != '/'
        invariant
            0 <= j <= n,
            n == model@.len(),
            forall|k: int| j <= k < n ==> model@[k] != '/',
        decreases j,
    {
        j -= 1;
    }
    proof {
        lemma_after_last_slash(model@, j as int);
    }
    model.substring_char(j, n).to_owned()
}

/// Whether two strings hold the same characters.
pub fn same_text(a: &str, b: &str) -> (r: bool)
    ensures
        r == (a@ == b@),
{
    let n = a.unicode_len();
    if n != b.unicode_len() {
        return false;
    }
    let mut i: usize = 0;
    while i < n
        invariant
            0 <= i <= n,
            n == a@.len(),
            n == b@.len(),
            forall|k: int| 0 <= k < i ==> a@[k] == b@[k],
        decreases n - i,
    {
        if a.get_char(i) != b.get_char(i) {
            return false;
        }
        i += 1;
    }
    assert(a@ =~= b@);
    true
}

} // verus!
