use vstd::prelude::*;
use crate::text::same_text;

verus! {

/// The texts of a sequence of string slices.
pub open spec fn texts(v: Seq<&str>) -> Seq<Seq<char>> {
    v.map_values(|s: &str| s@)
}

/// `base` followed by each scope of `extra` that is not already present, in the order of
/// their first occurrence.
pub open spec fn merge_scopes(base: Seq<Seq<char>>, extra: Seq<Seq<char>>) -> Seq<Seq<char>>
    decreases extra.len(),
{
    if extra.len() == 0 {
        base
    } else {
        let prev = merge_scopes(base, extra.drop_last());
        if prev.contains(extra.last()) {
            prev
        } else {
            prev.push(extra.last())
        }
    }
}

/// The scopes every interactive token request asks for, before those of the caller.
pub open spec fn default_scope_texts() -> Seq<Seq<char>> {
    seq!["openid"@, "offline_access"@, "profile"@]
}

/// The scopes a token request asks for: the default scopes (`openid`, `offline_access`,
/// `profile`), then each requested scope that is not yet in the list, in order.
pub fn combine_scopes<'a>(scopes: &[&'a str]) -> (combined: Vec<&'a str>)
    ensures
        texts(combined@) == merge_scopes(default_scope_texts(), texts(scopes@)),
{
    let mut combined: Vec<&'a str> = vec!["openid", "offline_access", "profile"];
    assert(texts(combined@) =~= default_scope_texts());
    let mut i: usize = 0;
    while i < scopes.len()
        invariant
            i <= scopes@.len(),
            texts(combined@) == merge_scopes(default_scope_texts(), texts(scopes@).take(i as int)),
        decreases scopes@.len() - i,
    {
        let scope = scopes[i];
        let ghost prev = texts(combined@);
        let mut present = false;
        let mut k: usize = 0;
        while k < combined.len()
            invariant
                k <= combined@.len(),
                prev == texts(combined@),
                present == exists|m: int| 0 <= m < k && #[trigger] prev[m] == scope@,
            decreases combined@.len() - k,
        {
            if same_text(combined[k], scope) {
                present = true;
            }
            assert(prev[k as int] == combined@[k as int]@);
            k = k + 1;
        }
        let ghost extra = texts(scopes@).take(i + 1);
        assert(extra.drop_last() =~= texts(scopes@).take(i as int));
        assert(extra.last() == scope@);
        if !present {
            combined.push(scope);
            assert(texts(combined@) =~= prev.push(scope@));
        } else {
            assert(prev.contains(scope@));
        }
        i = i + 1;
    }
    assert(texts(scopes@).take(scopes@.len() as int) =~= texts(scopes@));
    combined
}

} // verus!

verus! {

/// The merged list starts with `base`, and only ever grows.
pub proof fn lemma_merge_keeps_base(base: Seq<Seq<char>>, extra: Seq<Seq<char>>)
    ensures
        merge_scopes(base, extra).len() >= base.len(),
        merge_scopes(base, extra).take(base.len() as int) == base,
    decreases extra.len(),
{
    if extra.len() > 0 {
        lemma_merge_keeps_base(base, extra.drop_last());
        let prev = merge_scopes(base, extra.drop_last());
        assert(prev.push(extra.last()).take(base.len() as int) =~= prev.take(base.len() as int));
    } else {
        assert(base.take(base.len() as int) =~= base);
    }
}

/// A scope is in the merged list exactly when it is a default scope or a requested one.
pub proof fn lemma_merge_members(base: Seq<Seq<char>>, extra: Seq<Seq<char>>, x: Seq<char>)
    ensures
        merge_scopes(base, extra).contains(x) <==> (base.contains(x) || extra.contains(x)),
    decreases extra.len(),
{
    if extra.len() > 0 {
        let d = extra.drop_last();
        lemma_merge_members(base, d, x);
        let prev = merge_scopes(base, d);
        assert(extra =~= d.push(extra.last()));
        if d.contains(x) {
            let k = choose|k: int| 0 <= k < d.len() && d[k] == x;
            assert(extra[k] == x);
        }
        if extra.contains(x) && !d.contains(x) {
            let k = choose|k: int| 0 <= k < extra.len() && extra[k] == x;
            if k < d.len() {
                assert(d[k] == x);
            }
        }
        if !prev.contains(extra.last()) {
            let q = prev.push(extra.last());
            assert(q[prev.len() as int] == extra.last());
            if prev.contains(x) {
                let k = choose|k: int| 0 <= k < prev.len() && prev[k] == x;
                assert(q[k] == x);
            }
            if q.contains(x) {
                let k = choose|k: int| 0 <= k < q.len() && q[k] == x;
                if k < prev.len() {
                    assert(prev[k] == x);
                }
            }
        }
    }
}

/// No scope appears twice in the merged list when none appears twice among the defaults,
/// whatever the caller asked for, duplicates included.
pub proof fn lemma_merge_no_duplicates(base: Seq<Seq<char>>, extra: Seq<Seq<char>>)
    requires
        base.no_duplicates(),
    ensures
        merge_scopes(base, extra).no_duplicates(),
    decreases extra.len(),
{
    if extra.len() > 0 {
        lemma_merge_no_duplicates(base, extra.drop_last());
        let prev = merge_scopes(base, extra.drop_last());
        if !prev.contains(extra.last()) {
            let q = prev.push(extra.last());
            assert forall|i: int, j: int| 0 <= i < q.len() && 0 <= j < q.len() && i != j
                implies q[i] != q[j] by {
                if i == prev.len() {
                    assert(prev[j] == q[j]);
                } else if j == prev.len() {
                    assert(prev[i] == q[i]);
                }
            }
        }
    }
}

/// Asking for scopes that are all present already leaves the list as it was; in
/// particular, merging the same request twice gives what merging it once gave.
pub proof fn lemma_merge_idempotent(base: Seq<Seq<char>>, extra: Seq<Seq<char>>)
    ensures
        (forall|k: int| 0 <= k < extra.len() ==> base.contains(#[trigger] extra[k])) ==> merge_scopes(base, extra) == base,
        merge_scopes(merge_scopes(base, extra), extra) == merge_scopes(base, extra),
    decreases extra.len(),
{
    if extra.len() > 0 {
        let d = extra.drop_last();
        lemma_merge_idempotent(base, d);
        if forall|k: int| 0 <= k < extra.len() ==> base.contains(#[trigger] extra[k]) {
            assert forall|k: int| 0 <= k < d.len() implies base.contains(#[trigger] d[k]) by {
                assert(d[k] == extra[k]);
            }
            assert(base.contains(extra[extra.len() - 1]));
        }
    }
    let m = merge_scopes(base, extra);
    assert forall|k: int| 0 <= k < extra.len() implies m.contains(#[trigger] extra[k]) by {
        lemma_merge_members(base, extra, extra[k]);
    }
    lemma_merge_idempotent_all_present(m, extra);
}

proof fn lemma_merge_idempotent_all_present(base: Seq<Seq<char>>, extra: Seq<Seq<char>>)
    requires
        forall|k: int| 0 <= k < extra.len() ==> base.contains(#[trigger] extra[k]),
    ensures
        merge_scopes(base, extra) == base,
    decreases extra.len(),
{
    if extra.len() > 0 {
        let d = extra.drop_last();
        assert forall|k: int| 0 <= k < d.len() implies base.contains(#[trigger] d[k]) by {
            assert(d[k] == extra[k]);
        }
        lemma_merge_idempotent_all_present(base, d);
        assert(base.contains(extra[extra.len() - 1]));
    }
}

/// The default scopes are three different scopes.
pub proof fn lemma_default_scopes_distinct()
    ensures
        default_scope_texts().no_duplicates(),
        default_scope_texts().len() == 3,
{
    reveal_strlit("openid");
    reveal_strlit("offline_access");
    reveal_strlit("profile");
    let d = default_scope_texts();
    assert(d[0] != d[1]) by { assert(d[0].len() != d[1].len()); }
    assert(d[0] != d[2]) by { assert(d[0][0] != d[2][0]); }
    assert(d[1] != d[2]) by { assert(d[1].len() != d[2].len()); }
}

/// The combined request scopes start with the defaults, hold exactly the defaults and the
/// requested scopes, and hold none twice.
pub proof fn lemma_combined_scopes(requested: Seq<Seq<char>>)
    ensures
        merge_scopes(default_scope_texts(), requested).take(3) == default_scope_texts(),
        merge_scopes(default_scope_texts(), requested).no_duplicates(),
        forall|x: Seq<char>| #[trigger] merge_scopes(default_scope_texts(), requested).contains(x)
            <==> (default_scope_texts().contains(x) || requested.contains(x)),
{
    lemma_default_scopes_distinct();
    lemma_merge_keeps_base(default_scope_texts(), requested);
    lemma_merge_no_duplicates(default_scope_texts(), requested);
    assert forall|x: Seq<char>| #[trigger] merge_scopes(default_scope_texts(), requested).contains(x)
        <==> (default_scope_texts().contains(x) || requested.contains(x)) by {
        lemma_merge_members(default_scope_texts(), requested, x);
    }
}

} // verus!
