use vstd::prelude::*;
use vstd::string::StrSliceExecFns;
use crate::text::chars_of;

verus! {

/// The query-parameter key that carries the authorization code, with its `=`.
pub open spec fn code_marker() -> Seq<char> {
    seq!['c', 'o', 'd', 'e', '=']
}

/// A parameter key may start at index `i` of `s`: at the very start, or right after the
/// `?` that opens the query or the `&` that separates two parameters.
pub open spec fn key_starts_at(s: Seq<char>, i: int) -> bool {
    i == 0 || s[i - 1] == '?' || s[i - 1] == '&'
}

/// A `code` parameter starts at index `i` of `s`: its key `"code="` stands there, at
/// the start of a parameter.
pub open spec fn marker_at(s: Seq<char>, i: int) -> bool {
    &&& 0 <= i
    &&& i + 5 <= s.len()
    &&& s.subrange(i, i + 5) == code_marker()
    &&& key_starts_at(s, i)
}

/// Start index of the last `code` parameter in `s`.
pub open spec fn last_marker(s: Seq<char>) -> Option<int>
    decreases s.len(),
{
    if s.len() < 5 {
        None
    } else if s.subrange(s.len() - 5, s.len() as int) == code_marker() && key_starts_at(
        s,
        s.len() - 5,
    ) {
        Some(s.len() - 5)
    } else {
        last_marker(s.drop_last())
    }
}

/// A character that ends a parameter value: the `&` before the next parameter, the `#`
/// of a fragment, or the space or line break that ends the request target.
pub open spec fn ends_value(c: char) -> bool {
    c == '&' || c == '#' || c == ' ' || c == '\r' || c == '\n'
}

/// Number of characters of `s` before the first one that ends a value (all of them when
/// there is none).
pub open spec fn value_len(s: Seq<char>) -> int
    decreases s.len(),
{
    if s.len() == 0 {
        0
    } else if ends_value(s[0]) {
        0
    } else {
        1 + value_len(s.drop_first())
    }
}

/// The value of the last `code` query parameter of a request: what follows its `code=`,
/// up to the next `&`, `#`, space or line break, or the end.
pub open spec fn spec_extract_auth_code(s: Seq<char>) -> Option<Seq<char>> {
    match last_marker(s) {
        None => None,
        Some(i) => {
            let rest = s.skip(i + 5);
            Some(rest.take(value_len(rest)))
        },
    }
}

/// `v` holds no character that ends a value.
pub open spec fn is_plain_value(v: Seq<char>) -> bool {
    forall|k: int| 0 <= k < v.len() ==> !ends_value(#[trigger] v[k])
}

proof fn lemma_value_len_bounds(s: Seq<char>)
    ensures
        0 <= value_len(s) <= s.len(),
        value_len(s) < s.len() ==> ends_value(s[value_len(s)]),
        is_plain_value(s.take(value_len(s))),
    decreases s.len(),
{
    if s.len() > 0 && !ends_value(s[0]) {
        lemma_value_len_bounds(s.drop_first());
        let t = s.take(value_len(s));
        assert forall|k: int| 0 <= k < t.len() implies !ends_value(#[trigger] t[k]) by {
            if k > 0 {
                assert(t[k] == s.drop_first().take(value_len(s.drop_first()))[k - 1]);
            }
        }
    }
}

proof fn lemma_value_len_step(s: Seq<char>, j: int)
    requires
        0 <= j < s.len(),
        !ends_value(s[j]),
    ensures
        value_len(s.skip(j)) == 1 + value_len(s.skip(j + 1)),
{
    assert(s.skip(j).drop_first() =~= s.skip(j + 1));
}

fn ends_value_char(c: char) -> (r: bool)
    ensures
        r == ends_value(c),
{
    c == '&' || c == '#' || c == ' ' || c == '\r' || c == '\n'
}

/// Extracts the `code` query parameter from the request: the value of the last
/// parameter named `code`, which ends at the next `&`, `#`, space or line break, or at
/// the end of the request.
pub fn extract_auth_code(request: &str) -> (code: Option<String>)
    ensures
        match code {
            None => spec_extract_auth_code(request@) is None,
            Some(c) => spec_extract_auth_code(request@) == Some(c@),
        },
{
    let chars = chars_of(request);
    let n = chars.len();
    let ghost s = request@;
    let mut end = n;
    let mut found = false;
    assert(s.take(n as int) =~= s);
    while end >= 5
        invariant_except_break
            !found,
            last_marker(s) == last_marker(s.take(end as int)),
        invariant
            chars@ == s,
            n == s.len(),
            end <= n,
        ensures
            found ==> end >= 5 && marker_at(s, end - 5) && last_marker(s) == Some(end - 5),
            !found ==> last_marker(s) is None,
        decreases end,
    {
        let t = end - 5;
        let ghost w = s.take(end as int);
        let key_start = t == 0 || chars[t - 1] == '?' || chars[t - 1] == '&';
        assert(key_start == key_starts_at(w, t as int));
        if key_start && chars[t] == 'c' && chars[t + 1] == 'o' && chars[t + 2] == 'd' && chars[t
            + 3] == 'e' && chars[t + 4] == '=' {
            assert(w.subrange(t as int, end as int) =~= code_marker());
            assert(s.subrange(t as int, end as int) =~= code_marker());
            found = true;
            break;
        }
        assert(!(w.subrange(t as int, end as int) == code_marker() && key_starts_at(w, t as int)))
            by {
            if key_start {
                if s[t as int] != 'c' {
                    assert(w.subrange(t as int, end as int)[0] != code_marker()[0]);
                } else if s[t + 1] != 'o' {
                    assert(w.subrange(t as int, end as int)[1] != code_marker()[1]);
                } else if s[t + 2] != 'd' {
                    assert(w.subrange(t as int, end as int)[2] != code_marker()[2]);
                } else if s[t + 3] != 'e' {
                    assert(w.subrange(t as int, end as int)[3] != code_marker()[3]);
                } else {
                    assert(w.subrange(t as int, end as int)[4] != code_marker()[4]);
                }
            }
        }
        assert(w.drop_last() =~= s.take(end - 1));
        end = end - 1;
    }
    if !found {
        return None;
    }
    let start = end;
    let mut j = start;
    proof {
        lemma_value_len_bounds(s.skip(start as int));
    }
    while j < n && !ends_value_char(chars[j])
        invariant
            chars@ == s,
            n == s.len(),
            start <= j <= n,
            value_len(s.skip(start as int)) == (j - start) + value_len(s.skip(j as int)),
        decreases n - j,
    {
        proof {
            lemma_value_len_step(s, j as int);
        }
        j = j + 1;
    }
    proof {
        if j < n {
            assert(ends_value(s.skip(j as int)[0]));
        }
        let rest = s.skip(start as int);
        assert(rest.take(value_len(rest)) =~= s.subrange(start as int, j as int));
    }
    let value = request.substring_char(start, j);
    Some(value.to_owned())
}

/// No `code` parameter starts anywhere in `s`.
pub open spec fn has_no_marker(s: Seq<char>) -> bool {
    forall|i: int| !#[trigger] marker_at(s, i)
}

proof fn lemma_last_marker(s: Seq<char>)
    ensures
        match last_marker(s) {
            None => has_no_marker(s),
            Some(i) => marker_at(s, i) && forall|j: int| i < j ==> !#[trigger] marker_at(s, j),
        },
    decreases s.len(),
{
    if s.len() < 5 {
        assert forall|j: int| !#[trigger] marker_at(s, j) by {}
    } else if s.subrange(s.len() - 5, s.len() as int) == code_marker() && key_starts_at(
        s,
        s.len() - 5,
    ) {
        assert(marker_at(s, s.len() - 5));
    } else {
        let d = s.drop_last();
        lemma_last_marker(d);
        assert forall|j: int| marker_at(s, j) && j + 5 < s.len() implies #[trigger] marker_at(
            d,
            j,
        ) by {
            assert(d.subrange(j, j + 5) =~= s.subrange(j, j + 5));
            if j > 0 {
                assert(d[j - 1] == s[j - 1]);
            }
        }
        assert(!marker_at(s, s.len() - 5));
        assert forall|j: int| marker_at(s, j) implies #[trigger] marker_at(d, j) by {
            if j + 5 == s.len() {
                assert(!marker_at(s, s.len() - 5));
            }
        }
        if let Some(i) = last_marker(d) {
            assert(d.subrange(i, i + 5) =~= s.subrange(i, i + 5));
            if i > 0 {
                assert(d[i - 1] == s[i - 1]);
            }
            assert(marker_at(s, i));
            assert forall|j: int| i < j implies !#[trigger] marker_at(s, j) by {
                if marker_at(s, j) {
                    assert(marker_at(d, j));
                }
            }
        } else {
            assert forall|j: int| !#[trigger] marker_at(s, j) by {
                if marker_at(s, j) {
                    assert(marker_at(d, j));
                }
            }
        }
    }
}

proof fn lemma_last_marker_unique(s: Seq<char>, i: int)
    requires
        marker_at(s, i),
        forall|j: int| i < j ==> !#[trigger] marker_at(s, j),
    ensures
        last_marker(s) == Some(i),
{
    lemma_last_marker(s);
    match last_marker(s) {
        None => {
            assert(!marker_at(s, i));
        },
        Some(k) => {
            if k < i {
                assert(!marker_at(s, i));
            } else if k > i {
                assert(!marker_at(s, k));
            }
        },
    }
}

proof fn lemma_value_len_of_split(v: Seq<char>, suffix: Seq<char>)
    requires
        is_plain_value(v),
        suffix.len() == 0 || ends_value(suffix[0]),
    ensures
        value_len(v + suffix) == v.len(),
    decreases v.len(),
{
    if v.len() == 0 {
        assert(v + suffix =~= suffix);
    } else {
        assert(!ends_value(v[0]));
        assert((v + suffix).drop_first() =~= v.drop_first() + suffix);
        assert(is_plain_value(v.drop_first())) by {
            assert forall|k: int| 0 <= k < v.drop_first().len() implies !ends_value(
                #[trigger] v.drop_first()[k],
            ) by {
                assert(v.drop_first()[k] == v[k + 1]);
            }
        }
        lemma_value_len_of_split(v.drop_first(), suffix);
    }
}

/// What the extraction gives back, stated without recursion: `None` exactly when no
/// `code` parameter starts in the request; otherwise the characters after the last one's
/// `code=`, which hold no character that ends a value and stop at one such character or
/// at the end of the request.
pub proof fn lemma_extract_auth_code_characterized(s: Seq<char>)
    ensures
        spec_extract_auth_code(s) is None <==> has_no_marker(s),
        spec_extract_auth_code(s) matches Some(c) ==> exists|i: int|
            {
                &&& #[trigger] marker_at(s, i)
                &&& forall|j: int| i < j ==> !#[trigger] marker_at(s, j)
                &&& i + 5 + c.len() <= s.len()
                &&& c == s.subrange(i + 5, i + 5 + c.len())
                &&& is_plain_value(c)
                &&& (i + 5 + c.len() == s.len() || ends_value(s[i + 5 + c.len()]))
            },
{
    lemma_last_marker(s);
    if let Some(i) = last_marker(s) {
        let rest = s.skip(i + 5);
        lemma_value_len_bounds(rest);
        let c = rest.take(value_len(rest));
        assert(c =~= s.subrange(i + 5, i + 5 + c.len()));
        if i + 5 + c.len() < s.len() {
            assert(s[i + 5 + c.len()] == rest[value_len(rest)]);
        }
        assert(marker_at(s, i));
    } else {
        assert(!marker_at(s, 0));
    }
}

proof fn lemma_window_inside(s: Seq<char>, inner: Seq<char>, off: int, j: int)
    requires
        0 <= off <= j,
        j + 5 <= off + inner.len() <= s.len(),
        forall|k: int| 0 <= k < inner.len() ==> s[off + k] == #[trigger] inner[k],
        marker_at(s, j),
    ensures
        marker_at(inner, j - off),
{
    assert(inner.subrange(j - off, j - off + 5) =~= s.subrange(j, j + 5)) by {
        assert forall|k: int| 0 <= k < 5 implies #[trigger] inner.subrange(j - off, j - off + 5)[k]
            == s.subrange(j, j + 5)[k] by {
            assert(s[off + (j - off + k)] == inner[j - off + k]);
        }
    }
    if j > off {
        assert(s[off + (j - off - 1)] == inner[j - off - 1]);
    }
}

proof fn lemma_no_marker_in_layout(
    s: Seq<char>,
    v: Seq<char>,
    t: Seq<char>,
    a: int,
    d: char,
    has_suffix: bool,
)
    requires
        0 <= a,
        s.len() == if has_suffix { a + 5 + v.len() + 1 + t.len() } else { a + 5 + v.len() },
        forall|k: int| 0 <= k < 5 ==> s[a + k] == #[trigger] code_marker()[k],
        forall|k: int| 0 <= k < v.len() ==> s[(a + 5) + k] == #[trigger] v[k],
        has_suffix ==> s[a + 5 + v.len()] == d,
        has_suffix ==> forall|k: int| 0 <= k < t.len() ==> s[(a + 5 + v.len() + 1) + k] == #[trigger] t[k],
        has_no_marker(v),
        has_no_marker(t),
        ends_value(d),
    ensures
        forall|j: int| a < j ==> !#[trigger] marker_at(s, j),
{
    let b = a + 5 + v.len();
    assert forall|j: int| a < j implies !#[trigger] marker_at(s, j) by {
        if marker_at(s, j) {
            assert(s.subrange(j, j + 5)[0] == 'c');
            if j < a + 5 {
                assert(s[a + (j - a)] == code_marker()[j - a]);
            } else if j + 5 <= b {
                lemma_window_inside(s, v, a + 5, j);
            } else if j <= b {
                assert(s.subrange(j, j + 5)[b - j] == d);
            } else {
                lemma_window_inside(s, t, b + 1, j);
            }
        }
    }
}

proof fn lemma_no_marker_after(p: Seq<char>, v: Seq<char>, suffix: Seq<char>, t: Seq<char>, d: char)
    requires
        p.len() == 0 || p.last() == '?' || p.last() == '&',
        has_no_marker(v),
        has_no_marker(t),
        ends_value(d),
        suffix == Seq::<char>::empty() || suffix == seq![d] + t,
    ensures
        marker_at(p + code_marker() + v + suffix, p.len() as int),
        forall|j: int| p.len() < j ==> !#[trigger] marker_at(p + code_marker() + v + suffix, j),
{
    let m = code_marker();
    let s = p + m + v + suffix;
    let a = p.len() as int;
    let b = a + 5 + v.len();
    assert(s.subrange(a, a + 5) =~= m);
    if a > 0 {
        assert(s[a - 1] == p.last());
    }
    assert forall|k: int| 0 <= k < 5 implies s[a + k] == #[trigger] m[k] by {}
    assert forall|k: int| 0 <= k < v.len() implies s[(a + 5) + k] == #[trigger] v[k] by {}
    let has_suffix = suffix.len() > 0;
    if has_suffix {
        assert(suffix =~= seq![d] + t);
        assert(s[b] == suffix[0]);
        assert forall|k: int| 0 <= k < t.len() implies s[(b + 1) + k] == #[trigger] t[k] by {
            assert(s[b + 1 + k] == suffix[1 + k]);
        }
    } else {
        assert(suffix =~= Seq::<char>::empty());
    }
    lemma_no_marker_in_layout(s, v, t, a, d, has_suffix);
}

/// A request whose last `code` parameter has the value `v` gives back `v`, whether that
/// parameter ends the request or a character that ends a value (`&`, `#`, space, line
/// break) follows it.
pub proof fn lemma_extract_auth_code_returns_value(
    p: Seq<char>,
    v: Seq<char>,
    d: char,
    t: Seq<char>,
)
    requires
        p.len() == 0 || p.last() == '?' || p.last() == '&',
        is_plain_value(v),
        has_no_marker(v),
        ends_value(d),
        has_no_marker(t),
    ensures
        spec_extract_auth_code(p + code_marker() + v) == Some(v),
        spec_extract_auth_code(p + code_marker() + v + (seq![d] + t)) == Some(v),
{
    let e = Seq::<char>::empty();
    let dt = seq![d] + t;
    let a = p.len() as int;
    lemma_no_marker_after(p, v, e, t, d);
    lemma_no_marker_after(p, v, dt, t, d);
    let s1 = p + code_marker() + v + e;
    let s2 = p + code_marker() + v + dt;
    assert(s1 =~= p + code_marker() + v);
    lemma_last_marker_unique(s1, a);
    lemma_last_marker_unique(s2, a);
    assert(s1.skip(a + 5) =~= v + e);
    assert(s2.skip(a + 5) =~= v + dt);
    lemma_value_len_of_split(v, e);
    lemma_value_len_of_split(v, dt);
    assert((v + e).take(v.len() as int) =~= v);
    assert((v + dt).take(v.len() as int) =~= v);
}

} // verus!

verus! {

/// A character that may appear in a URL-safe value: an ASCII letter or digit, `-`, `_`,
/// `.` or `~` (the unreserved characters of RFC 3986), or `%` of a percent-escape.
pub open spec fn url_safe(c: char) -> bool {
    ||| ('a' <= c && c <= 'z')
    ||| ('A' <= c && c <= 'Z')
    ||| ('0' <= c && c <= '9')
    ||| c == '-' || c == '_' || c == '.' || c == '~' || c == '%'
}

/// A request whose last `code` parameter has a URL-safe value `v` gives back all of
/// `v`: whether the parameter ends the request or `&`, `#`, a space or a line break
/// follows it, and whatever follows that, as long as no further `code=` appears.
pub proof fn lemma_url_safe_code_comes_back_whole(
    p: Seq<char>,
    v: Seq<char>,
    d: char,
    t: Seq<char>,
)
    requires
        p.len() == 0 || p.last() == '?' || p.last() == '&',
        forall|k: int| 0 <= k < v.len() ==> url_safe(#[trigger] v[k]),
        d == '&' || d == '#' || d == ' ' || d == '\r' || d == '\n',
        forall|i: int|
            0 <= i && i + 5 <= t.len() ==> #[trigger] t.subrange(i, i + 5) != seq!['c', 'o', 'd', 'e', '='],
    ensures
        spec_extract_auth_code(p + seq!['c', 'o', 'd', 'e', '='] + v) == Some(v),
        spec_extract_auth_code(p + seq!['c', 'o', 'd', 'e', '='] + v + (seq![d] + t)) == Some(v),
{
    assert(is_plain_value(v)) by {
        assert forall|k: int| 0 <= k < v.len() implies !ends_value(#[trigger] v[k]) by {
            assert(url_safe(v[k]));
        }
    }
    assert(has_no_marker(v)) by {
        assert forall|i: int| !#[trigger] marker_at(v, i) by {
            if marker_at(v, i) {
                assert(v.subrange(i, i + 5)[4] == '=');
                assert(url_safe(v[i + 4]));
            }
        }
    }
    assert(has_no_marker(t)) by {
        assert forall|i: int| !#[trigger] marker_at(t, i) by {
            if marker_at(t, i) {
                assert(t.subrange(i, i + 5) == seq!['c', 'o', 'd', 'e', '=']);
            }
        }
    }
    assert(code_marker() == seq!['c', 'o', 'd', 'e', '=']);
    lemma_extract_auth_code_returns_value(p, v, d, t);
}

} // verus!
