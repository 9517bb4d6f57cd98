use vstd::prelude::*;

verus! {

/// The items of `s` whose flag in `m` equals `want`, in their original order.
pub open spec fn kept<T>(s: Seq<T>, m: Seq<bool>, want: bool) -> Seq<T>
    decreases s.len(),
{
    if s.len() == 0 {
        Seq::empty()
    } else {
        let rest = kept(s.drop_last(), m.take(s.len() - 1), want);
        if m[s.len() - 1] == want {
            rest.push(s.last())
        } else {
            rest
        }
    }
}

/// Whatever holds of every item flagged `want` holds of every item that
/// `kept` selects.
pub proof fn lemma_kept_all<T>(s: Seq<T>, m: Seq<bool>, want: bool, p: spec_fn(T) -> bool)
    requires
        s.len() <= m.len(),
        forall|j: int| 0 <= j < s.len() && m[j] == want ==> #[trigger] p(s[j]),
    ensures
        forall|k: int| 0 <= k < kept(s, m, want).len() ==> #[trigger] p(kept(s, m, want)[k]),
    decreases s.len(),
{
    if s.len() > 0 {
        let n = s.len() - 1;
        assert forall|j: int| 0 <= j < s.drop_last().len() && m.take(n)[j] == want implies #[trigger] p(
            s.drop_last()[j],
        ) by {
            assert(s.drop_last()[j] == s[j]);
            assert(p(s[j]));
        }
        lemma_kept_all(s.drop_last(), m.take(n), want, p);
        let rest = kept(s.drop_last(), m.take(n), want);
        assert forall|k: int| 0 <= k < kept(s, m, want).len() implies #[trigger] p(
            kept(s, m, want)[k],
        ) by {
            if k < rest.len() {
                assert(kept(s, m, want)[k] == rest[k]);
            } else {
                assert(kept(s, m, want)[k] == s[n]);
                assert(p(s[n]));
            }
        }
    }
}

/// Splitting a sequence by a flag loses nothing and duplicates nothing in count.
pub proof fn lemma_kept_split_len<T>(s: Seq<T>, m: Seq<bool>)
    requires
        s.len() <= m.len(),
    ensures
        kept(s, m, true).len() + kept(s, m, false).len() == s.len(),
    decreases s.len(),
{
    if s.len() > 0 {
        lemma_kept_split_len(s.drop_last(), m.take(s.len() - 1));
    }
}

/// How many items `kept` selects depends on the flags alone.
pub proof fn lemma_kept_len_by_flags<T, U>(s: Seq<T>, t: Seq<U>, m: Seq<bool>, want: bool)
    requires
        s.len() == t.len(),
        s.len() <= m.len(),
    ensures
        kept(s, m, want).len() == kept(t, m, want).len(),
    decreases s.len(),
{
    if s.len() > 0 {
        lemma_kept_len_by_flags(s.drop_last(), t.drop_last(), m.take(s.len() - 1), want);
    }
}

/// Selection keeps order: an item appended with the wanted flag comes
/// last among the selected, and one appended with the other flag is left
/// out.
pub proof fn lemma_kept_push<T>(s: Seq<T>, m: Seq<bool>, x: T, flag: bool, want: bool)
    requires
        s.len() == m.len(),
    ensures
        flag == want ==> kept(s.push(x), m.push(flag), want) == kept(s, m, want).push(x),
        flag != want ==> kept(s.push(x), m.push(flag), want) == kept(s, m, want),
{
    assert(s.push(x).drop_last() =~= s);
    assert(m.push(flag).take(s.len() as int) =~= m);
}

/// When every flag is the wanted one, everything is selected, in order;
/// when none is, nothing is.
pub proof fn lemma_kept_uniform<T>(s: Seq<T>, m: Seq<bool>, want: bool)
    requires
        s.len() <= m.len(),
        forall|i: int| 0 <= i < s.len() ==> #[trigger] m[i] == want,
    ensures
        kept(s, m, want) == s,
        kept(s, m, !want) == Seq::<T>::empty(),
    decreases s.len(),
{
    if s.len() > 0 {
        let n = s.len() - 1;
        assert forall|i: int| 0 <= i < s.drop_last().len() implies #[trigger] m.take(n)[i] == want by {
            assert(m.take(n)[i] == m[i]);
        }
        lemma_kept_uniform(s.drop_last(), m.take(n), want);
        assert(s.drop_last().push(s.last()) =~= s);
    } else {
        assert(s =~= Seq::<T>::empty());
    }
}

/// Selection splits a concatenation piecewise: what is selected from
/// `s + t` is what is selected from `s`, followed by what is selected from
/// `t`.
pub proof fn lemma_kept_append<T>(s: Seq<T>, ms: Seq<bool>, t: Seq<T>, mt: Seq<bool>, want: bool)
    requires
        s.len() == ms.len(),
        t.len() == mt.len(),
    ensures
        kept(s + t, ms + mt, want) == kept(s, ms, want) + kept(t, mt, want),
    decreases t.len(),
{
    if t.len() == 0 {
        assert(s + t =~= s);
        assert(ms + mt =~= ms);
        assert(kept(t, mt, want) =~= Seq::<T>::empty());
        assert(kept(s, ms, want) + kept(t, mt, want) =~= kept(s, ms, want));
    } else {
        let n = t.len() - 1;
        lemma_kept_append(s, ms, t.drop_last(), mt.take(n), want);
        assert((s + t).drop_last() =~= s + t.drop_last());
        assert((ms + mt).take(s.len() + n) =~= ms + mt.take(n));
        assert((s + t).last() == t.last());
        assert((ms + mt)[s.len() + n] == mt[n]);
        if mt[n] == want {
            assert(kept(s, ms, want) + kept(t.drop_last(), mt.take(n), want).push(t.last())
                =~= (kept(s, ms, want) + kept(t.drop_last(), mt.take(n), want)).push(t.last()));
        }
    }
}

/// Keeps, in order, the items whose flag in `keep` is true, and hands back,
/// in order, the items that were taken out.
pub fn retain_flagged<T>(items: &mut Vec<T>, keep: &Vec<bool>) -> (removed: Vec<T>)
    requires
        old(items)@.len() == keep@.len(),
    ensures
        final(items)@ == kept(old(items)@, keep@, true),
        removed@ == kept(old(items)@, keep@, false),
        final(items)@.len() + removed@.len() == old(items)@.len(),
{
    let ghost orig = items@;
    let n = items.len();
    let mut removed: Vec<T> = Vec::new();
    let mut i: usize = 0;
    while i < n
        invariant
            n == orig.len(),
            n == keep@.len(),
            0 <= i <= n,
            items@ == orig.skip(i as int) + kept(orig.take(i as int), keep@.take(i as int), true),
            removed@ == kept(orig.take(i as int), keep@.take(i as int), false),
        decreases n - i,
    {
        proof {
            assert(orig.take(i + 1).drop_last() =~= orig.take(i as int));
            assert(keep@.take(i + 1).take(i as int) =~= keep@.take(i as int));
            assert(orig.skip(i as int) =~= seq![orig[i as int]] + orig.skip(i + 1));
        }
        let x = items.remove(0);
        assert(items@ =~= orig.skip(i + 1) + kept(orig.take(i as int), keep@.take(i as int), true));
        if keep[i] {
            items.push(x);
        } else {
            removed.push(x);
        }
        i = i + 1;
    }
    proof {
        assert(orig.take(n as int) =~= orig);
        assert(keep@.take(n as int) =~= keep@);
        assert(orig.skip(n as int) =~= Seq::<T>::empty());
        assert(items@ =~= kept(orig, keep@, true));
        lemma_kept_split_len(orig, keep@);
    }
    removed
}

/// Index of the first raised flag, if any flag is raised.
pub fn first_contact(contacts: &Vec<bool>) -> (r: Option<usize>)
    ensures
        match r {
            Some(j) => j < contacts@.len() && contacts@[j as int] && forall|k: int|
                0 <= k < j ==> !contacts@[k],
            None => forall|k: int| 0 <= k < contacts@.len() ==> !contacts@[k],
        },
{
    let mut j: usize = 0;
    while j < contacts.len()
        invariant
            j <= contacts@.len(),
            forall|k: int| 0 <= k < j ==> !contacts@[k],
        decreases contacts@.len() - j,
    {
        if contacts[j] {
            return Some(j);
        }
        j = j + 1;
    }
    None
}

} // verus!
