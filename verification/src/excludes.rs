use vstd::prelude::*;

verus! {

/// The set of pattern texts a pattern list holds, with set semantics:
/// multiplicity and order are forgotten.
pub open spec fn pattern_set(pats: Seq<String>) -> Set<Seq<char>> {
    pats.map_values(|p: String| p@).to_set()
}

/// Whether some pattern in the list reads as `x`.
pub open spec fn has_pattern(pats: Seq<String>, x: Seq<char>) -> bool {
    exists|i: int| 0 <= i < pats.len() && pats[i]@ == x
}

/// One step of duplicate-free accumulation: the text joins the list only
/// when it is not yet present.
pub open spec fn dedup_push(acc: Seq<Seq<char>>, x: Seq<char>) -> Seq<Seq<char>> {
    if acc.contains(x) {
        acc
    } else {
        acc.push(x)
    }
}

/// The texts of `pats` accumulated onto `acc` in order, each skipped when
/// already present.
pub open spec fn dedup_append(acc: Seq<Seq<char>>, pats: Seq<String>) -> Seq<Seq<char>>
    decreases pats.len(),
{
    if pats.len() == 0 {
        acc
    } else {
        dedup_append(dedup_push(acc, pats[0]@), pats.drop_first())
    }
}

/// The exact pattern list the exclude resolution produces: the entry's
/// patterns then the general patterns, first occurrence of each text kept.
pub open spec fn spec_resolve_excludes(entry: Seq<String>, general: Seq<String>) -> Seq<Seq<char>> {
    dedup_append(dedup_append(Seq::empty(), entry), general)
}

/// Accumulating one more pattern at the end is one more dedup step.
proof fn lemma_dedup_append_snoc(acc: Seq<Seq<char>>, pats: Seq<String>, x: String)
    ensures
        dedup_append(acc, pats.push(x)) == dedup_push(dedup_append(acc, pats), x@),
    decreases pats.len(),
{
    let sx = pats.push(x);
    if pats.len() == 0 {
        assert(sx.drop_first() =~= Seq::<String>::empty());
        assert(sx[0] == x);
        assert(dedup_append(acc, sx) == dedup_append(dedup_push(acc, x@), sx.drop_first()));
        assert(dedup_append(dedup_push(acc, x@), sx.drop_first()) == dedup_push(acc, x@));
    } else {
        assert(sx.drop_first() =~= pats.drop_first().push(x));
        assert(sx[0] == pats[0]);
        assert(dedup_append(acc, sx) == dedup_append(
            dedup_push(acc, pats[0]@),
            pats.drop_first().push(x),
        ));
        lemma_dedup_append_snoc(dedup_push(acc, pats[0]@), pats.drop_first(), x);
        assert(dedup_append(acc, pats) == dedup_append(
            dedup_push(acc, pats[0]@),
            pats.drop_first(),
        ));
    }
}

/// Membership among the pattern texts is exactly [`has_pattern`].
proof fn lemma_texts_contain(pats: Seq<String>, x: Seq<char>)
    ensures
        pats.map_values(|p: String| p@).contains(x) == has_pattern(pats, x),
{
    let ms = pats.map_values(|p: String| p@);
    if has_pattern(pats, x) {
        let i = choose|i: int| 0 <= i < pats.len() && pats[i]@ == x;
        assert(ms[i] == x);
    }
    if ms.contains(x) {
        let i = choose|i: int| 0 <= i < ms.len() && ms[i] == x;
        assert(pats[i]@ == x);
    }
}

/// Membership in [`pattern_set`] is exactly [`has_pattern`].
pub proof fn lemma_pattern_set_contains(pats: Seq<String>, x: Seq<char>)
    ensures
        pattern_set(pats).contains(x) == has_pattern(pats, x),
{
    let ms = pats.map_values(|p: String| p@);
    if has_pattern(pats, x) {
        let i = choose|i: int| 0 <= i < pats.len() && pats[i]@ == x;
        assert(ms[i] == x);
        assert(ms.contains(x));
    }
    if pattern_set(pats).contains(x) {
        let i = choose|i: int| 0 <= i < ms.len() && ms[i] == x;
        assert(pats[i]@ == x);
    }
}

/// Extending a list by one pattern extends [`has_pattern`] by that pattern.
proof fn lemma_has_pattern_push(pats: Seq<String>, e: String, x: Seq<char>)
    ensures
        has_pattern(pats.push(e), x) == (has_pattern(pats, x) || e@ == x),
{
    if has_pattern(pats.push(e), x) {
        let i = choose|i: int| 0 <= i < pats.push(e).len() && pats.push(e)[i]@ == x;
        if i < pats.len() {
            assert(pats[i]@ == x);
        }
    }
    if has_pattern(pats, x) {
        let i = choose|i: int| 0 <= i < pats.len() && pats[i]@ == x;
        assert(pats.push(e)[i]@ == x);
    }
    if e@ == x {
        assert(pats.push(e)[pats.len() as int]@ == x);
    }
}

/// A prefix one longer sees exactly one more pattern.
proof fn lemma_has_pattern_take_step(pats: Seq<String>, k: int, x: Seq<char>)
    requires
        0 <= k < pats.len(),
    ensures
        has_pattern(pats.take(k + 1), x) == (has_pattern(pats.take(k), x) || pats[k]@ == x),
{
    let a = pats.take(k + 1);
    let b = pats.take(k);
    if has_pattern(a, x) {
        let i = choose|i: int| 0 <= i < a.len() && a[i]@ == x;
        if i < k {
            assert(b[i]@ == x);
        }
    }
    if has_pattern(b, x) {
        let i = choose|i: int| 0 <= i < b.len() && b[i]@ == x;
        assert(a[i]@ == x);
    }
    if pats[k]@ == x {
        assert(a[k]@ == x);
    }
}

/// Whether the list already holds a pattern reading as `x`.
fn contains_pattern(pats: &Vec<String>, x: &String) -> (r: bool)
    ensures
        r == has_pattern(pats@, x@),
{
    let mut k: usize = 0;
    while k < pats.len()
        invariant
            k <= pats@.len(),
            forall|i: int| 0 <= i < k ==> pats@[i]@ != x@,
        decreases pats@.len() - k,
    {
        if pats[k].eq(x) {
            return true;
        }
        k += 1;
    }
    false
}

/// Appends to `out` every pattern of `pats` whose text is not yet present,
/// keeping `out` free of duplicates.
fn push_missing_patterns(out: &mut Vec<String>, pats: &Vec<String>)
    requires
        forall|i: int, j: int| 0 <= i < j < old(out)@.len() ==> old(out)@[i]@ != old(out)@[j]@,
    ensures
        forall|i: int, j: int|
            0 <= i < j < final(out)@.len() ==> final(out)@[i]@ != final(out)@[j]@,
        forall|x: Seq<char>|
            (#[trigger] has_pattern(final(out)@, x)) == (has_pattern(old(out)@, x)
                || has_pattern(pats@, x)),
        final(out)@.map_values(|p: String| p@) == dedup_append(
            old(out)@.map_values(|p: String| p@),
            pats@,
        ),
{
    let ghost orig = out@;
    let mut k: usize = 0;
    while k < pats.len()
        invariant
            k <= pats@.len(),
            forall|i: int, j: int| 0 <= i < j < out@.len() ==> out@[i]@ != out@[j]@,
            forall|x: Seq<char>|
                (#[trigger] has_pattern(out@, x)) == (has_pattern(orig, x) || has_pattern(
                    pats@.take(k as int),
                    x,
                )),
            out@.map_values(|p: String| p@) == dedup_append(
                orig.map_values(|p: String| p@),
                pats@.take(k as int),
            ),
        decreases pats@.len() - k,
    {
        let ghost before = out@;
        let p = &pats[k];
        let present = contains_pattern(out, p);
        if !present {
            let copied = String::from_str(p.as_str());
            out.push(copied);
        }
        proof {
            lemma_dedup_append_snoc(
                orig.map_values(|p: String| p@),
                pats@.take(k as int),
                pats@[k as int],
            );
            assert(pats@.take(k as int).push(pats@[k as int]) =~= pats@.take(k as int + 1));
            lemma_texts_contain(before, pats@[k as int]@);
            if !present {
                assert(out@.map_values(|p: String| p@) =~= before.map_values(
                    |p: String| p@,
                ).push(out@.last()@));
            }
            assert forall|x: Seq<char>|
                (#[trigger] has_pattern(out@, x)) == (has_pattern(orig, x) || has_pattern(
                    pats@.take(k as int + 1),
                    x,
                )) by {
                lemma_has_pattern_take_step(pats@, k as int, x);
                assert(has_pattern(before, x) == (has_pattern(orig, x) || has_pattern(
                    pats@.take(k as int),
                    x,
                )));
                if present {
                    assert(out@ == before);
                    assert(has_pattern(before, pats@[k as int]@));
                } else {
                    assert(out@ == before.push(out@.last()));
                    assert(out@.last()@ == pats@[k as int]@);
                    lemma_has_pattern_push(before, out@.last(), x);
                }
            }
        }
        k += 1;
    }
    proof {
        assert(pats@.take(pats@.len() as int) =~= pats@);
    }
}

/// Resolves the effective exclude set for one sync entry: the union of the
/// entry's own patterns and the general patterns, coalesced as a set. The
/// returned list holds each pattern text exactly once.
pub fn resolve_excludes(entry: &Vec<String>, general: &Vec<String>) -> (r: Vec<String>)
    ensures
        pattern_set(r@) == pattern_set(entry@).union(pattern_set(general@)),
        forall|i: int, j: int| 0 <= i < j < r@.len() ==> r@[i]@ != r@[j]@,
        r@.map_values(|p: String| p@) == spec_resolve_excludes(entry@, general@),
{
    let mut out: Vec<String> = Vec::new();
    proof {
        assert(out@.map_values(|p: String| p@) =~= Seq::<Seq<char>>::empty());
    }
    push_missing_patterns(&mut out, entry);
    push_missing_patterns(&mut out, general);
    proof {
        assert forall|x: Seq<char>|
            pattern_set(out@).contains(x) == pattern_set(entry@).union(
                pattern_set(general@),
            ).contains(x) by {
            lemma_pattern_set_contains(out@, x);
            lemma_pattern_set_contains(entry@, x);
            lemma_pattern_set_contains(general@, x);
        }
        assert(pattern_set(out@) =~= pattern_set(entry@).union(pattern_set(general@)));
    }
    out
}

/// Law: resolving the exclude union is order-independent and idempotent.
/// The same two pattern lists resolved in either order give equal sets, and
/// a list resolved against itself gives its own set.
pub proof fn lemma_exclude_union_order_independent(a: Seq<String>, b: Seq<String>)
    ensures
        pattern_set(a).union(pattern_set(b)) == pattern_set(b).union(pattern_set(a)),
        pattern_set(a).union(pattern_set(a)) == pattern_set(a),
{
    assert(pattern_set(a).union(pattern_set(b)) =~= pattern_set(b).union(pattern_set(a)));
    assert(pattern_set(a).union(pattern_set(a)) =~= pattern_set(a));
}

} // verus!
