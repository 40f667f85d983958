use vstd::prelude::*;
use crate::session::cookie_name;

verus! {

/// The characters that Rust's `char::is_whitespace` accepts.
pub open spec fn is_space(c: char) -> bool {
    ||| ('\t' <= c && c <= '\r')
    ||| c == ' '
    ||| c == '\u{85}'
    ||| c == '\u{a0}'
    ||| c == '\u{1680}'
    ||| ('\u{2000}' <= c && c <= '\u{200a}')
    ||| c == '\u{2028}'
    ||| c == '\u{2029}'
    ||| c == '\u{202f}'
    ||| c == '\u{205f}'
    ||| c == '\u{3000}'
}

fn space(c: char) -> (r: bool)
    ensures
        r == is_space(c),
{
    ('\t' <= c && c <= '\r') || c == ' ' || c == '\u{85}' || c == '\u{a0}' || c == '\u{1680}'
        || ('\u{2000}' <= c && c <= '\u{200a}') || c == '\u{2028}' || c == '\u{2029}'
        || c == '\u{202f}' || c == '\u{205f}' || c == '\u{3000}'
}

/// Length of the first `;`-separated piece of `s`.
pub open spec fn piece_len(s: Seq<char>) -> nat
    decreases s.len(),
{
    if s.len() == 0 || s[0] == ';' {
        0
    } else {
        1 + piece_len(s.drop_first())
    }
}

/// Number of leading whitespace characters of `s`.
pub open spec fn leading_spaces(s: Seq<char>) -> nat
    decreases s.len(),
{
    if s.len() == 0 || !is_space(s[0]) {
        0
    } else {
        1 + leading_spaces(s.drop_first())
    }
}

/// The session token in a `Cookie` header: the rest of the first
/// `;`-separated piece that, with leading whitespace dropped, starts with
/// `session_token=`.
pub open spec fn cookie_token(s: Seq<char>) -> Option<Seq<char>>
    decreases s.len(),
{
    let e = piece_len(s) as int;
    if e > s.len() {
        None
    } else {
        let piece = s.subrange(0, e);
        let t = piece.subrange(leading_spaces(piece) as int, e);
        if t.len() >= cookie_name().len() && t.subrange(0, cookie_name().len() as int) == cookie_name() {
            Some(t.subrange(cookie_name().len() as int, t.len() as int))
        } else if e >= s.len() {
            None
        } else {
            cookie_token(s.subrange(e + 1, s.len() as int))
        }
    }
}

proof fn lemma_piece_len(t: Seq<char>, k: int)
    requires
        0 <= k <= t.len(),
        forall|q: int| 0 <= q < k ==> t[q] != ';',
        k == t.len() || t[k] == ';',
    ensures
        piece_len(t) == k,
    decreases k,
{
    if k > 0 {
        lemma_piece_len(t.drop_first(), k - 1);
    }
}

proof fn lemma_leading_spaces(t: Seq<char>, k: int)
    requires
        0 <= k <= t.len(),
        forall|q: int| 0 <= q < k ==> is_space(#[trigger] t[q]),
        k == t.len() || !is_space(t[k]),
    ensures
        leading_spaces(t) == k,
    decreases k,
{
    if k > 0 {
        lemma_leading_spaces(t.drop_first(), k - 1);
    }
}

/// Finds the session token in the value of a `Cookie` header.
pub fn session_token_from_cookie(header: &str) -> (r: Option<String>)
    ensures
        match r {
            Some(t) => cookie_token(header@) == Some(t@),
            None => cookie_token(header@) is None,
        },
{
    let ghost s = header@;
    let name = "session_token=";
    proof {
        reveal_strlit("session_token=");
    }
    let m = name.unicode_len();
    let n = header.unicode_len();
    let mut p: usize = 0;
    assert(s.subrange(0, n as int) =~= s);
    while p <= n
        invariant
            n == s.len(),
            s == header@,
            m == cookie_name().len(),
            name@ == cookie_name(),
            p <= n,
            cookie_token(s) == cookie_token(s.subrange(p as int, n as int)),
        decreases n + 1 - p,
    {
        let ghost rest = s.subrange(p as int, n as int);
        let mut e: usize = p;
        while e < n && header.get_char(e) != ';'
            invariant
                p <= e <= n,
                n == s.len(),
                s == header@,
                forall|q: int| p <= q < e ==> s[q] != ';',
            decreases n - e,
        {
            e = e + 1;
        }
        proof {
            lemma_piece_len(rest, e - p);
        }
        let ghost piece = rest.subrange(0, e - p);
        let mut w: usize = p;
        while w < e && space(header.get_char(w))
            invariant
                p <= w <= e <= n,
                n == s.len(),
                s == header@,
                forall|q: int| p <= q < w ==> is_space(#[trigger] s[q]),
            decreases e - w,
        {
            w = w + 1;
        }
        proof {
            assert forall|q: int| 0 <= q < w - p implies is_space(#[trigger] piece[q]) by {
                assert(piece[q] == s[p + q]);
            }
            if w < e {
                assert(piece[w - p] == s[w as int]);
            }
            lemma_leading_spaces(piece, w - p);
        }
        let ghost t = piece.subrange(w - p, e - p);
        assert(t =~= s.subrange(w as int, e as int));
        if e - w >= m {
            let mut k: usize = 0;
            let mut same = true;
            while k < m
                invariant
                    k <= m,
                    w + m <= e <= n,
                    n == s.len(),
                s == header@,
                    m == cookie_name().len(),
                    name@ == cookie_name(),
                    same == forall|q: int| 0 <= q < k ==> s[w + q] == cookie_name()[q],
                decreases m - k,
            {
                if header.get_char(w + k) != name.get_char(k) {
                    same = false;
                }
                k = k + 1;
            }
            if same {
                assert(t.subrange(0, m as int) =~= cookie_name());
                let v = header.substring_char(w + m, e);
                assert(v@ =~= t.subrange(m as int, t.len() as int));
                return Some(String::from_str(v));
            } else {
                assert(t.subrange(0, m as int) != cookie_name()) by {
                    let q = choose|q: int| 0 <= q < m && !(s[w + q] == cookie_name()[q]);
                    assert(t.subrange(0, m as int)[q] == s[w + q]);
                }
            }
        }
        if e >= n {
            return None;
        }
        proof {
            assert(rest.subrange(e - p + 1, rest.len() as int) =~= s.subrange(e + 1, n as int));
        }
        p = e + 1;
    }
    None
}

/// `s` without its trailing whitespace.
pub open spec fn trim_end(s: Seq<char>) -> Seq<char>
    decreases s.len(),
{
    if s.len() > 0 && is_space(s.last()) {
        trim_end(s.drop_last())
    } else {
        s
    }
}

/// The session token that a sign-out names: as `session_token_from_cookie`
/// finds it, with trailing whitespace dropped.
pub fn logout_token_from_cookie(header: &str) -> (r: Option<String>)
    ensures
        match r {
            Some(t) => cookie_token(header@) matches Some(v) && t@ == trim_end(v),
            None => cookie_token(header@) is None,
        },
{
    match session_token_from_cookie(header) {
        None => None,
        Some(v) => {
            let n = v.as_str().unicode_len();
            let mut e: usize = n;
            assert(v@.subrange(0, n as int) =~= v@);
            while e > 0 && space(v.as_str().get_char(e - 1))
                invariant
                    e <= n,
                    n == v@.len(),
                    trim_end(v@) == trim_end(v@.subrange(0, e as int)),
                decreases e,
            {
                proof {
                    let t = v@.subrange(0, e as int);
                    assert(t.drop_last() =~= v@.subrange(0, e - 1));
                }
                e = e - 1;
            }
            proof {
                let t = v@.subrange(0, e as int);
                if e > 0 {
                    assert(t.last() == v@[e - 1]);
                }
            }
            let t = v.as_str().substring_char(0, e);
            Some(String::from_str(t))
        },
    }
}

} // verus!
