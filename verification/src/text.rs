use vstd::prelude::*;
use vstd::string::StringExecFns;

verus! {

broadcast use vstd::string::group_string_axioms;

/// The characters of `s`, in order.
pub fn chars_of(s: &str) -> (v: Vec<char>)
    ensures
        v@ == s@,
{
    let mut v: Vec<char> = Vec::new();
    for c in it: s.chars()
        invariant
            v@ == it.history(),
    {
        v.push(c);
    }
    v
}

} // verus!

verus! {

/// Whether two strings hold the same characters.
pub fn same_text(a: &str, b: &str) -> (r: bool)
    ensures
        r == (a@ == b@),
{
    let x = chars_of(a);
    let y = chars_of(b);
    if x.len() != y.len() {
        return false;
    }
    let mut i: usize = 0;
    while i < x.len()
        invariant
            x@ == a@,
            y@ == b@,
            x.len() == y.len(),
            i <= x.len(),
            forall|k: int| 0 <= k < i ==> x@[k] == y@[k],
        decreases x.len() - i,
    {
        if x[i] != y[i] {
            return false;
        }
        i = i + 1;
    }
    assert(x@ =~= y@);
    true
}

} // verus!

verus! {

/// `pat` occurs in `s` as a contiguous run of characters.
pub open spec fn occurs_in(s: Seq<char>, pat: Seq<char>) -> bool {
    exists|i: int| 0 <= i && i + pat.len() <= s.len() && #[trigger] s.subrange(i, i + pat.len()) == pat
}

/// Whether `pat` occurs in `hay`.
pub fn contains_text(hay: &str, pat: &str) -> (r: bool)
    ensures
        r == occurs_in(hay@, pat@),
{
    let h = chars_of(hay);
    let p = chars_of(pat);
    let n = h.len();
    let m = p.len();
    if m > n {
        return false;
    }
    let mut i: usize = 0;
    while i <= n - m
        invariant
            h@ == hay@,
            p@ == pat@,
            n == h.len(),
            m == p.len(),
            m <= n,
            i <= n - m + 1,
            forall|k: int| 0 <= k < i ==> #[trigger] h@.subrange(k, k + m) != p@,
        decreases n - m + 1 - i,
    {
        let mut j: usize = 0;
        while j < m && h[i + j] == p[j]
            invariant
                h@ == hay@,
                p@ == pat@,
                n == h.len(),
                m == p.len(),
                i + m <= n,
                j <= m,
                forall|k: int| 0 <= k < j ==> h@[i + k] == p@[k],
            decreases m - j,
        {
            j = j + 1;
        }
        if j == m {
            assert(h@.subrange(i as int, i + m) =~= p@);
            return true;
        }
        assert(h@.subrange(i as int, i + m)[j as int] != p@[j as int]);
        i = i + 1;
    }
    proof {
        assert forall|k: int| 0 <= k && k + pat@.len() <= hay@.len() implies #[trigger] hay@.subrange(k, k + pat@.len()) != pat@ by {
            assert(k < i);
        }
    }
    false
}

/// `lines` joined into one text, with a newline between each two of them.
pub open spec fn join_lines(lines: Seq<Seq<char>>) -> Seq<char>
    decreases lines.len(),
{
    if lines.len() == 0 {
        Seq::empty()
    } else if lines.len() == 1 {
        lines[0]
    } else {
        join_lines(lines.drop_last()) + seq!['\n'] + lines.last()
    }
}

/// The text of an optional string.
pub open spec fn opt_text(o: Option<String>) -> Option<Seq<char>> {
    match o {
        Some(s) => Some(s@),
        None => None,
    }
}

/// The texts of a sequence of strings.
pub open spec fn string_texts(v: Seq<String>) -> Seq<Seq<char>> {
    v.map_values(|s: String| s@)
}

/// Joins `lines` with a newline between each two of them.
pub fn join_with_newlines(lines: &Vec<String>) -> (joined: String)
    ensures
        joined@ == join_lines(string_texts(lines@)),
{
    let mut joined = String::new();
    let mut i: usize = 0;
    proof {
        reveal_strlit("\n");
        assert(string_texts(lines@).take(0) =~= Seq::<Seq<char>>::empty());
    }
    while i < lines.len()
        invariant
            i <= lines@.len(),
            joined@ == join_lines(string_texts(lines@).take(i as int)),
            "\n"@ == seq!['\n'],
        decreases lines@.len() - i,
    {
        let ghost t = string_texts(lines@).take(i + 1);
        assert(t.drop_last() =~= string_texts(lines@).take(i as int));
        if i > 0 {
            joined.append("\n");
        } else {
            assert(joined@ =~= Seq::<char>::empty());
        }
        joined.append(lines[i].as_str());
        assert(joined@ =~= join_lines(t));
        i = i + 1;
    }
    assert(string_texts(lines@).take(lines@.len() as int) =~= string_texts(lines@));
    joined
}

/// What `str::to_lowercase` gives for a text: the Unicode lowercase mapping of it.
pub uninterp spec fn lowercase_text(s: Seq<char>) -> Seq<char>;

/// Calls `str::to_lowercase`, which maps `s` to its lowercase form as the Unicode
/// `Lowercase` property defines it. Its result, a function of `s` alone, is named
/// `lowercase_text`; the mapping itself is not written out.
#[verifier::external_body]
pub(crate) fn to_lowercase(s: &str) -> (r: String)
    ensures
        r@ == lowercase_text(s@),
{
    s.to_lowercase()
}

} // verus!

verus! {

/// Joining one more line appends a newline and that line to the joined text; a single
/// line is joined to itself; and the first line opens the joined text, followed by a
/// newline when more lines come. So every line of a request head, the first one
/// included, stands in the joined text whatever number of lines follow.
pub proof fn lemma_join_lines_appends(lines: Seq<Seq<char>>, line: Seq<char>)
    ensures
        join_lines(seq![line]) == line,
        lines.len() > 0 ==> join_lines(lines.push(line)) == join_lines(lines) + seq!['\n'] + line,
        lines.len() > 0 ==> join_lines(lines).len() >= lines[0].len(),
        lines.len() > 0 ==> join_lines(lines).take(lines[0].len() as int) == lines[0],
        lines.len() > 1 ==> join_lines(lines)[lines[0].len() as int] == '\n',
    decreases lines.len(),
{
    if lines.len() > 0 {
        assert(lines.push(line).drop_last() =~= lines);
    }
    if lines.len() == 1 {
        assert(lines[0].take(lines[0].len() as int) =~= lines[0]);
    }
    if lines.len() > 1 {
        let d = lines.drop_last();
        lemma_join_lines_appends(d, lines.last());
        assert(d[0] == lines[0]);
        let j = join_lines(lines);
        let jd = join_lines(d);
        assert(j == jd + seq!['\n'] + lines.last());
        assert(j.take(lines[0].len() as int) =~= jd.take(lines[0].len() as int));
        if d.len() > 1 {
            assert(j[lines[0].len() as int] == jd[lines[0].len() as int]);
        } else {
            assert(jd == d[0]);
            assert(j[lines[0].len() as int] == '\n');
        }
    }
}

} // verus!
