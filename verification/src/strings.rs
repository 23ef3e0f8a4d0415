//! Character-level text operations used throughout the service: replacing
//! every occurrence of a pattern, splitting on a separator and joining back.

use vstd::prelude::*;

verus! {

/// `String::push` appends one character to the end of the string.
pub assume_specification[ std::string::String::push ](s: &mut std::string::String, ch: char)
    ensures
        final(s)@ == old(s)@.push(ch),
;

/// The text `s` with every occurrence of `pat` (taken left to right, without
/// overlap) replaced by `rep`.
pub open spec fn replaced(s: Seq<char>, pat: Seq<char>, rep: Seq<char>) -> Seq<char>
    decreases s.len(),
{
    if pat.len() == 0 || s.len() < pat.len() {
        s
    } else if s.take(pat.len() as int) == pat {
        rep + replaced(s.skip(pat.len() as int), pat, rep)
    } else {
        seq![s[0]] + replaced(s.drop_first(), pat, rep)
    }
}

/// Removing every occurrence of one character leaves none of it, and adds
/// no character that was not there.
pub proof fn lemma_remove_char(s: Seq<char>, c: char)
    ensures
        !replaced(s, seq![c], Seq::<char>::empty()).contains(c),
        forall|d: char| !s.contains(d) ==> !replaced(s, seq![c], Seq::<char>::empty()).contains(d),
    decreases s.len(),
{
    let r = replaced(s, seq![c], Seq::<char>::empty());
    if s.len() > 0 {
        let t = s.drop_first();
        lemma_remove_char(t, c);
        let rt = replaced(t, seq![c], Seq::<char>::empty());
        assert(s.take(1) =~= seq![s[0]]);
        assert(s.skip(1) =~= t);
        if s[0] == c {
            assert(r =~= rt);
            assert forall|d: char| #![auto] !s.contains(d) implies !r.contains(d) by {
                assert forall|k: int| 0 <= k < t.len() implies t[k] != d by {
                    assert(t[k] == s[k + 1]);
                }
                assert(!t.contains(d));
            }
        } else {
            assert(s.take(1)[0] != seq![c][0]);
            assert(s.take(1) != seq![c]);
            assert(r =~= seq![s[0]] + rt);
            assert forall|d: char| #![auto] !s.contains(d) implies !r.contains(d) by {
                assert(s[0] != d);
                assert forall|k: int| 0 <= k < t.len() implies t[k] != d by {
                    assert(t[k] == s[k + 1]);
                }
                assert(!t.contains(d));
                assert(!rt.contains(d));
                if r.contains(d) {
                    let k: int = choose|k: int| 0 <= k < r.len() && r[k] == d;
                    if k > 0 {
                        assert(rt[k - 1] == d);
                    } else {
                        assert(r[0] == s[0]);
                    }
                }
            }
            if r.contains(c) {
                let k: int = choose|k: int| 0 <= k < r.len() && r[k] == c;
                if k > 0 {
                    assert(rt[k - 1] == c);
                }
            }
        }
    }
}

/// The characters of a string slice, in order.
pub fn chars_of(s: &str) -> (v: Vec<char>)
    ensures
        v@ == s@,
{
    broadcast use vstd::string::axiom_spec_iter;
    let mut v: Vec<char> = Vec::new();
    for c in it: s.chars()
        invariant
            it.seq() == s@,
            v@ == s@.take(it.index() as int),
    {
        v.push(c);
        assert(v@ =~= s@.take(it.index() + 1));
    }
    assert(v@ =~= s@);
    v
}

/// Whether `pat` occurs in `s` starting at position `at`.
fn occurs_at(s: &Vec<char>, pat: &Vec<char>, at: usize) -> (b: bool)
    requires
        at <= s@.len(),
    ensures
        b == (at + pat@.len() <= s@.len() && s@.subrange(at as int, at + pat@.len()) == pat@),
{
    if pat.len() > s.len() - at {
        return false;
    }
    let mut k: usize = 0;
    while k < pat.len()
        invariant
            at + pat@.len() <= s.len(),
            k <= pat@.len(),
            forall|j: int| 0 <= j < k ==> s@[at + j] == pat@[j],
        decreases pat@.len() - k,
    {
        if s[at + k] != pat[k] {
            assert(s@.subrange(at as int, at + pat@.len())[k as int] != pat@[k as int]);
            return false;
        }
        k = k + 1;
    }
    assert(s@.subrange(at as int, at + pat@.len()) =~= pat@);
    true
}

/// Replaces every occurrence of `pat` in `s` by `rep`, as `str::replace` does.
pub fn replace_all(s: &str, pat: &str, rep: &str) -> (res: String)
    requires
        pat@.len() > 0,
    ensures
        res@ == replaced(s@, pat@, rep@),
{
    let sv = chars_of(s);
    let pv = chars_of(pat);
    let n: usize = sv.len();
    let m: usize = pv.len();
    let mut res = String::new();
    let mut i: usize = 0;
    assert(sv@.skip(0) =~= sv@);
    while i < n
        invariant
            sv@ == s@,
            pv@ == pat@,
            n == sv@.len(),
            m == pv@.len(),
            m > 0,
            i <= n,
            res@ + replaced(sv@.skip(i as int), pv@, rep@) == replaced(sv@, pv@, rep@),
        decreases n - i,
    {
        let ghost rest = sv@.skip(i as int);
        if occurs_at(&sv, &pv, i) {
            assert(rest.take(m as int) =~= sv@.subrange(i as int, i + m));
            assert(rest.skip(m as int) =~= sv@.skip(i + m));
            res.append(rep);
            i = i + m;
        } else {
            assert(rest.len() >= m ==> rest.take(m as int) =~= sv@.subrange(i as int, i + m));
            assert(rest.drop_first() =~= sv@.skip(i + 1));
            assert(rest[0] == sv@[i as int]);
            res.push(sv[i]);
            i = i + 1;
            proof {
                let t = sv@.skip(i as int);
                if rest.len() < m {
                    assert(replaced(rest, pv@, rep@) == rest);
                    assert(replaced(t, pv@, rep@) == t);
                    assert(rest =~= seq![rest[0]] + t);
                }
            }
        }
    }
    assert(sv@.skip(n as int) =~= Seq::<char>::empty());
    assert(res@ + Seq::<char>::empty() =~= res@);
    res
}

/// The pieces of `s` between occurrences of `sep`, as `str::split` yields them:
/// one more piece than there are separators, empty pieces included.
pub open spec fn split_on(s: Seq<char>, sep: char) -> Seq<Seq<char>>
    decreases s.len(),
{
    if s.len() == 0 {
        seq![Seq::<char>::empty()]
    } else {
        let parts = split_on(s.drop_last(), sep);
        if s.last() == sep {
            parts.push(Seq::<char>::empty())
        } else {
            parts.update(parts.len() - 1, parts.last().push(s.last()))
        }
    }
}

/// The pieces joined with `sep` between each two neighbours, as `[..].join(sep)`.
pub open spec fn joined(parts: Seq<Seq<char>>, sep: Seq<char>) -> Seq<char>
    decreases parts.len(),
{
    if parts.len() == 0 {
        Seq::<char>::empty()
    } else if parts.len() == 1 {
        parts[0]
    } else {
        joined(parts.drop_last(), sep) + sep + parts.last()
    }
}

/// The views of a vector of strings.
pub open spec fn string_views(v: Seq<String>) -> Seq<Seq<char>> {
    v.map_values(|p: String| p@)
}

/// Splitting always yields at least one piece.
pub proof fn lemma_split_nonempty(s: Seq<char>, sep: char)
    ensures
        split_on(s, sep).len() >= 1,
        split_on(s, sep).len() == 1 + s.filter(|c: char| c == sep).len(),
    decreases s.len(),
{
    reveal_with_fuel(Seq::filter, 1);
    if s.len() > 0 {
        lemma_split_nonempty(s.drop_last(), sep);
    } else {
        assert(s.filter(|c: char| c == sep) =~= Seq::<char>::empty());
    }
}

/// Two texts joined by the separator split into the pieces of the first
/// followed by the pieces of the second.
pub proof fn lemma_split_concat(a: Seq<char>, sep: char, b: Seq<char>)
    ensures
        split_on(a + seq![sep] + b, sep) == split_on(a, sep) + split_on(b, sep),
    decreases b.len(),
{
    let t = a + seq![sep] + b;
    if b.len() == 0 {
        assert(t.drop_last() =~= a);
        assert(split_on(a, sep).push(Seq::<char>::empty()) =~= split_on(a, sep) + split_on(b, sep));
    } else {
        let b1 = b.drop_last();
        assert(t.drop_last() =~= a + seq![sep] + b1);
        lemma_split_concat(a, sep, b1);
        lemma_split_nonempty(b1, sep);
        lemma_split_nonempty(a, sep);
        let pa = split_on(a, sep);
        let pb = split_on(b1, sep);
        if b.last() == sep {
            assert((pa + pb).push(Seq::<char>::empty()) =~= pa + pb.push(Seq::<char>::empty()));
        } else {
            let c = b.last();
            assert((pa + pb).update((pa + pb).len() - 1, (pa + pb).last().push(c)) =~= pa + pb.update(pb.len() - 1, pb.last().push(c)));
        }
    }
}

/// A text that holds the separator splits into at least two pieces.
pub proof fn lemma_split_two(s: Seq<char>, sep: char, i: int)
    requires
        0 <= i < s.len(),
        s[i] == sep,
    ensures
        split_on(s, sep).len() >= 2,
    decreases s.len(),
{
    lemma_split_nonempty(s.drop_last(), sep);
    if i < s.len() - 1 {
        lemma_split_two(s.drop_last(), sep, i);
    }
}

/// Joining the pieces of a split with the separator gives the text back.
pub proof fn lemma_join_split(s: Seq<char>, sep: char)
    ensures
        joined(split_on(s, sep), seq![sep]) == s,
    decreases s.len(),
{
    if s.len() > 0 {
        let t = s.drop_last();
        let parts = split_on(t, sep);
        lemma_split_nonempty(t, sep);
        lemma_join_split(t, sep);
        if s.last() == sep {
            let np = parts.push(Seq::<char>::empty());
            assert(np.drop_last() =~= parts);
            assert(s =~= t + seq![sep] + Seq::<char>::empty());
        } else {
            let np = parts.update(parts.len() - 1, parts.last().push(s.last()));
            if parts.len() == 1 {
                assert(s =~= parts[0].push(s.last()));
            } else {
                assert(np.drop_last() =~= parts.drop_last());
                assert(joined(parts, seq![sep]) == joined(parts.drop_last(), seq![sep]) + seq![sep] + parts.last());
                let a = joined(parts.drop_last(), seq![sep]);
                assert(t == a + seq![sep] + parts.last());
                assert(s =~= t.push(s.last()));
                assert(s =~= a + seq![sep] + parts.last().push(s.last()));
                assert(np.last() == parts.last().push(s.last()));
            }
        }
    }
}

/// No piece of a split holds the separator.
pub proof fn lemma_split_pieces_free(s: Seq<char>, sep: char)
    ensures
        forall|k: int| 0 <= k < split_on(s, sep).len() ==> !(#[trigger] split_on(s, sep)[k]).contains(sep),
    decreases s.len(),
{
    if s.len() > 0 {
        let t = s.drop_last();
        lemma_split_pieces_free(t, sep);
        lemma_split_nonempty(t, sep);
        let parts = split_on(t, sep);
        if s.last() != sep {
            let np = parts.update(parts.len() - 1, parts.last().push(s.last()));
            assert forall|k: int| 0 <= k < np.len() implies !(#[trigger] np[k]).contains(sep) by {
                if k == np.len() - 1 {
                    if np[k].contains(sep) {
                        let j: int = choose|j: int| 0 <= j < np[k].len() && np[k][j] == sep;
                        if j < parts.last().len() {
                            assert(parts.last()[j] == sep);
                        }
                    }
                }
            }
        } else {
            let np = parts.push(Seq::<char>::empty());
            assert forall|k: int| 0 <= k < np.len() implies !(#[trigger] np[k]).contains(sep) by {
                if k < parts.len() {
                    assert(np[k] == parts[k]);
                }
            }
        }
    }
}

/// Splits `s` at every `sep`, as `s.split(sep)` does.
pub fn split_text(s: &str, sep: char) -> (parts: Vec<String>)
    ensures
        string_views(parts@) == split_on(s@, sep),
{
    let sv = chars_of(s);
    let n: usize = sv.len();
    let mut parts: Vec<String> = Vec::new();
    let mut current = String::new();
    let mut i: usize = 0;
    assert(sv@.take(0) =~= Seq::<char>::empty());
    assert(string_views(parts@).push(current@) =~= split_on(sv@.take(0), sep));
    while i < n
        invariant
            sv@ == s@,
            n == sv@.len(),
            i <= n,
            string_views(parts@).push(current@) == split_on(sv@.take(i as int), sep),
        decreases n - i,
    {
        let c = sv[i];
        let ghost before = string_views(parts@).push(current@);
        let ghost pre = sv@.take(i as int);
        assert(sv@.take(i + 1).drop_last() =~= pre);
        assert(sv@.take(i + 1).last() == c);
        if c == sep {
            parts.push(current);
            current = String::new();
            assert(string_views(parts@).push(current@) =~= before.push(Seq::<char>::empty()));
        } else {
            current.push(c);
            assert(string_views(parts@).push(current@) =~= before.update(before.len() - 1, before.last().push(c)));
        }
        i = i + 1;
    }
    assert(sv@.take(n as int) =~= sv@);
    parts.push(current);
    parts
}

/// Joins the pieces with `sep` between each two neighbours.
pub fn join_with(parts: &Vec<String>, sep: &str) -> (res: String)
    ensures
        res@ == joined(string_views(parts@), sep@),
{
    let mut res = String::new();
    let n: usize = parts.len();
    let mut i: usize = 0;
    while i < n
        invariant
            n == parts@.len(),
            i <= n,
            res@ == joined(string_views(parts@).take(i as int), sep@),
        decreases n - i,
    {
        let ghost views = string_views(parts@);
        assert(views.take(i + 1).drop_last() =~= views.take(i as int));
        if i > 0 {
            res.append(sep);
        } else {
            assert(views.take(1) =~= seq![views[0]]);
        }
        res.append(parts[i].as_str());
        i = i + 1;
    }
    assert(string_views(parts@).take(n as int) =~= string_views(parts@));
    res
}

/// Whether two texts are equal, character for character.
pub fn text_eq(a: &str, b: &str) -> (res: bool)
    ensures
        res == (a@ == b@),
{
    let av = chars_of(a);
    let bv = chars_of(b);
    if av.len() != bv.len() {
        return false;
    }
    let mut k: usize = 0;
    while k < av.len()
        invariant
            av@ == a@,
            bv@ == b@,
            av@.len() == bv@.len(),
            k <= av@.len(),
            forall|j: int| 0 <= j < k ==> av@[j] == bv@[j],
        decreases av@.len() - k,
    {
        if av[k] != bv[k] {
            return false;
        }
        k = k + 1;
    }
    assert(av@ =~= bv@);
    true
}

/// A copy of a list of strings.
pub fn copy_strings(items: &Vec<String>) -> (res: Vec<String>)
    ensures
        string_views(res@) == string_views(items@),
{
    let mut v: Vec<String> = Vec::new();
    let mut k: usize = 0;
    while k < items.len()
        invariant
            k <= items@.len(),
            v@.len() == k,
            string_views(v@) == string_views(items@).take(k as int),
        decreases items@.len() - k,
    {
        let item = items[k].clone();
        v.push(item);
        assert(v@[k as int]@ == items@[k as int]@);
        k = k + 1;
        assert(string_views(v@) =~= string_views(items@).take(k as int));
    }
    assert(string_views(items@).take(k as int) =~= string_views(items@));
    v
}

} // verus!
