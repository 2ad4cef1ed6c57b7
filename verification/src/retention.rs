//! Which recorded files a tap deletes to keep its directory bounded.
//!
//! Chunk and transcript files are named `<app>_<YYYYMMDD>T<HHMMSS>.<ext>`, so
//! their names sort in recording order. After each chunk the oldest files of
//! the app are removed until `keep` of them remain.
use vstd::prelude::*;

use crate::text::{chars_of, concat_chars, starts_with_chars, starts_with_seq, string_of};

verus! {

broadcast use {vstd::seq_lib::group_to_multiset_ensures, vstd::multiset::group_multiset_axioms};

/// Files of each kind kept per app.
pub const RETENTION_KEEP: usize = 360;

// ---------------------------------------------------------------------------
// Lexicographic order on names
// ---------------------------------------------------------------------------
/// `a` sorts before or equal to `b`, comparing characters left to right (the
/// order of their UTF-8 bytes).
pub open spec fn lex_le(a: Seq<char>, b: Seq<char>) -> bool
    decreases a.len(),
{
    if a.len() == 0 {
        true
    } else if b.len() == 0 {
        false
    } else if a[0] != b[0] {
        a[0] < b[0]
    } else {
        lex_le(a.drop_first(), b.drop_first())
    }
}

pub proof fn lemma_lex_total(a: Seq<char>, b: Seq<char>)
    ensures
        lex_le(a, b) || lex_le(b, a),
    decreases a.len(),
{
    if a.len() > 0 && b.len() > 0 && a[0] == b[0] {
        lemma_lex_total(a.drop_first(), b.drop_first());
    }
}

pub proof fn lemma_lex_trans(a: Seq<char>, b: Seq<char>, c: Seq<char>)
    requires
        lex_le(a, b),
        lex_le(b, c),
    ensures
        lex_le(a, c),
    decreases a.len(),
{
    if a.len() > 0 && b.len() > 0 && c.len() > 0 && a[0] == b[0] && b[0] == c[0] {
        lemma_lex_trans(a.drop_first(), b.drop_first(), c.drop_first());
    }
}

/// Compares two names in `lex_le` order.
pub fn lex_le_chars(a: &Vec<char>, b: &Vec<char>) -> (r: bool)
    ensures
        r == lex_le(a@, b@),
{
    let mut i: usize = 0;
    assert(a@.skip(0) =~= a@);
    assert(b@.skip(0) =~= b@);
    while i < a.len() && i < b.len() && a[i] == b[i]
        invariant
            i <= a@.len(),
            i <= b@.len(),
            lex_le(a@, b@) == lex_le(a@.skip(i as int), b@.skip(i as int)),
        decreases a.len() - i,
    {
        assert(a@.skip(i as int).drop_first() =~= a@.skip(i as int + 1));
        assert(b@.skip(i as int).drop_first() =~= b@.skip(i as int + 1));
        i += 1;
    }
    if i == a.len() {
        true
    } else if i == b.len() {
        false
    } else {
        a[i] < b[i]
    }
}

/// Every name sorts before or equal to every later one.
pub open spec fn sorted_names(s: Seq<Seq<char>>) -> bool {
    forall|i: int, j: int| 0 <= i < j < s.len() ==> lex_le(#[trigger] s[i], #[trigger] s[j])
}

// ---------------------------------------------------------------------------
// File names
// ---------------------------------------------------------------------------
/// Index of the last `.` in `s`, or -1.
pub open spec fn last_dot(s: Seq<char>) -> int
    decreases s.len(),
{
    if s.len() == 0 {
        -1
    } else if s.last() == '.' {
        s.len() - 1
    } else {
        last_dot(s.drop_last())
    }
}

/// The extension of a file name as `Path::extension` gives it: the text after
/// the last `.`, with none when there is no `.`, when the only `.` opens the
/// name, or for `..`.
pub open spec fn extension_of(name: Seq<char>) -> Option<Seq<char>> {
    let i = last_dot(name);
    if i <= 0 || name =~= seq!['.', '.'] {
        None
    } else {
        Some(name.subrange(i + 1, name.len() as int))
    }
}

proof fn lemma_last_dot(s: Seq<char>)
    ensures
        -1 <= last_dot(s) < s.len(),
        last_dot(s) >= 0 ==> s[last_dot(s)] == '.',
        forall|j: int| last_dot(s) < j < s.len() ==> s[j] != '.',
    decreases s.len(),
{
    if s.len() > 0 && s.last() != '.' {
        lemma_last_dot(s.drop_last());
        assert forall|j: int| last_dot(s) < j < s.len() implies s[j] != '.' by {
            if j < s.len() - 1 {
                assert(s.drop_last()[j] == s[j]);
            }
        }
    }
}

fn find_last_dot(v: &Vec<char>) -> (r: i64)
    requires
        v@.len() < i64::MAX,
    ensures
        r == last_dot(v@),
{
    let mut i: usize = v.len();
    assert(v@.subrange(0, v@.len() as int) =~= v@);
    while i > 0
        invariant
            i <= v@.len(),
            v@.len() < i64::MAX,
            last_dot(v@) == last_dot(v@.subrange(0, i as int)),
        decreases i,
    {
        let ghost s = v@.subrange(0, i as int);
        assert(s.drop_last() =~= v@.subrange(0, i as int - 1));
        if v[i - 1] == '.' {
            assert(s.last() == '.');
            return (i - 1) as i64;
        }
        i -= 1;
    }
    -1
}

/// The file's extension equals `ext`.
pub fn has_extension(name: &Vec<char>, ext: &Vec<char>) -> (b: bool)
    requires
        name@.len() < i64::MAX,
    ensures
        b == (extension_of(name@) == Some(ext@)),
{
    let i = find_last_dot(name);
    proof {
        lemma_last_dot(name@);
    }
    if i <= 0 || (name.len() == 2 && name[0] == '.' && name[1] == '.') {
        assert((name@.len() == 2 && name@[0] == '.' && name@[1] == '.') == (name@ =~= seq![
            '.',
            '.',
        ]));
        return false;
    }
    assert(!(name@ =~= seq!['.', '.']));
    let start = (i + 1) as usize;
    if name.len() - start != ext.len() {
        return false;
    }
    let ghost sub = name@.subrange(start as int, name@.len() as int);
    assert(extension_of(name@) == Some(sub));
    let mut k: usize = 0;
    while k < ext.len()
        invariant
            start + ext@.len() == name@.len(),
            k <= ext@.len(),
            forall|j: int| 0 <= j < k ==> name@[start + j] == ext@[j],
            sub == name@.subrange(start as int, name@.len() as int),
            extension_of(name@) == Some(sub),
        decreases ext.len() - k,
    {
        assert(start + k < name.len());
        if name[start + k] != ext[k] {
            assert(sub[k as int] != ext@[k as int]);
            assert(sub != ext@);
            return false;
        }
        k += 1;
    }
    assert(name@.subrange(start as int, name@.len() as int) =~= ext@);
    true
}

/// A file of `app` with extension `ext`: `<app>_...<.ext>`.
pub open spec fn is_candidate(name: Seq<char>, ext: Seq<char>, app: Seq<char>) -> bool {
    extension_of(name) == Some(ext) && starts_with_seq(name, app + seq!['_'])
}

pub open spec fn names_view(names: Seq<String>) -> Seq<Seq<char>> {
    names.map_values(|n: String| n@)
}

/// The names among `names` that belong to the app's files of that kind.
pub open spec fn candidates(names: Seq<Seq<char>>, ext: Seq<char>, app: Seq<char>) -> Seq<
    Seq<char>,
> {
    names.filter(|n: Seq<char>| is_candidate(n, ext, app))
}

/// How many files go when `n` are there and `keep` stay.
pub open spec fn victims_count(n: int, keep: int) -> int {
    if n <= keep {
        0
    } else {
        n - keep
    }
}

/// Inserts `x` into the sorted `v` after every name that sorts before or
/// equal to it.
fn insert_sorted(v: &mut Vec<Vec<char>>, x: Vec<char>)
    requires
        sorted_names(chars_view(old(v)@)),
    ensures
        sorted_names(chars_view(final(v)@)),
        chars_view(final(v)@).to_multiset() == chars_view(old(v)@).to_multiset().insert(x@),
{
    let ghost old_v = chars_view(v@);
    let mut pos: usize = 0;
    while pos < v.len() && lex_le_chars(&v[pos], &x)
        invariant
            pos <= v@.len(),
            chars_view(v@) == old_v,
            sorted_names(old_v),
            forall|j: int| 0 <= j < pos ==> lex_le(#[trigger] old_v[j], x@),
        decreases v.len() - pos,
    {
        pos += 1;
    }
    proof {
        if pos < v@.len() {
            assert(!lex_le(old_v[pos as int], x@));
            lemma_lex_total(old_v[pos as int], x@);
            assert forall|j: int| pos <= j < old_v.len() implies lex_le(x@, #[trigger] old_v[j]) by {
                if j > pos {
                    lemma_lex_trans(x@, old_v[pos as int], old_v[j]);
                }
            }
        }
    }
    let ghost xv = x@;
    v.insert(pos, x);
    proof {
        let nv = chars_view(v@);
        assert(nv =~= old_v.insert(pos as int, xv));
        assert forall|i: int, j: int| 0 <= i < j < nv.len() implies lex_le(
            #[trigger] nv[i],
            #[trigger] nv[j],
        ) by {
            if j < pos {
            } else if j == pos {
            } else if i < pos {
                assert(nv[j] == old_v[j - 1]);
                assert(lex_le(old_v[i], old_v[j - 1]));
            } else if i == pos {
                assert(nv[j] == old_v[j - 1]);
            } else {
                assert(nv[i] == old_v[i - 1]);
                assert(nv[j] == old_v[j - 1]);
            }
        }
        vstd::seq_lib::to_multiset_insert(old_v, pos as int, xv);
    }
}

pub open spec fn chars_view(v: Seq<Vec<char>>) -> Seq<Seq<char>> {
    v.map_values(|c: Vec<char>| c@)
}

/// The names to delete so that at most `keep` of the app's files with that
/// extension remain: the oldest ones, that is the first in name order.
///
/// Exactly `victims_count` names go, in ascending order; each comes from the
/// candidates, and every candidate that stays sorts after every one that goes.
pub fn prune_victims(names: &Vec<String>, ext: &str, app: &str, keep: usize) -> (r: Vec<String>)
    requires
        forall|i: int| 0 <= i < names@.len() ==> (#[trigger] names@[i])@.len() < i64::MAX,
    ensures
        ({
            let c = candidates(names_view(names@), ext@, app@);
            let gone = names_view(r@);
            let stay = c.to_multiset().sub(gone.to_multiset());
            &&& gone.len() == victims_count(c.len() as int, keep as int)
            &&& sorted_names(gone)
            &&& gone.to_multiset().subset_of(c.to_multiset())
            &&& stay.len() == c.len() - gone.len()
            &&& forall|y: Seq<char>, x: Seq<char>|
                gone.contains(y) && stay.count(x) > 0 ==> lex_le(y, x)
        }),
{
    let ext_v = chars_of(ext);
    let mut prefix = chars_of(app);
    prefix.push('_');
    let ghost c = candidates(names_view(names@), ext@, app@);
    let ghost nv = names_view(names@);
    let mut sorted: Vec<Vec<char>> = Vec::new();
    let mut i: usize = 0;
    assert(nv.take(0).filter(|n: Seq<char>| is_candidate(n, ext@, app@)) =~= Seq::<
        Seq<char>,
    >::empty());
    while i < names.len()
        invariant
            i <= names@.len(),
            nv == names_view(names@),
            ext_v@ == ext@,
            prefix@ == app@ + seq!['_'],
            forall|k: int| 0 <= k < names@.len() ==> (#[trigger] names@[k])@.len() < i64::MAX,
            sorted_names(chars_view(sorted@)),
            chars_view(sorted@).to_multiset() == nv.take(i as int).filter(
                |n: Seq<char>| is_candidate(n, ext@, app@),
            ).to_multiset(),
        decreases names.len() - i,
    {
        let name = chars_of(names[i].as_str());
        assert(nv[i as int] == names@[i as int]@);
        assert(nv.take(i as int + 1).drop_last() =~= nv.take(i as int));
        proof {
            nv.take(i as int).lemma_filter_push(
                nv[i as int],
                |n: Seq<char>| is_candidate(n, ext@, app@),
            );
        }
        assert(nv.take(i as int).push(nv[i as int]) =~= nv.take(i as int + 1));
        if has_extension(&name, &ext_v) && starts_with_chars(&name, &prefix) {
            insert_sorted(&mut sorted, name);
        }
        i += 1;
    }
    assert(nv.take(names@.len() as int) =~= nv);
    let ghost s = chars_view(sorted@);
    assert(s.to_multiset() == c.to_multiset());
    assert(s.len() == c.len()) by {
        vstd::seq_lib::to_multiset_len(s);
        vstd::seq_lib::to_multiset_len(c);
    }
    let count: usize = if sorted.len() <= keep {
        0
    } else {
        sorted.len() - keep
    };
    let mut r: Vec<String> = Vec::new();
    let mut j: usize = 0;
    while j < count
        invariant
            j <= count <= sorted@.len(),
            s == chars_view(sorted@),
            names_view(r@) == s.take(j as int),
        decreases count - j,
    {
        let st = string_of(&sorted[j]);
        assert(s[j as int] == sorted@[j as int]@);
        let ghost old_r = names_view(r@);
        r.push(st);
        assert(names_view(r@) =~= old_r.push(st@));
        assert(names_view(r@) =~= s.take(j as int + 1));
        j += 1;
    }
    proof {
        let gone = names_view(r@);
        let rest = s.skip(count as int);
        assert(s =~= gone + rest);
        vstd::seq_lib::lemma_multiset_commutative(gone, rest);
        let stay = c.to_multiset().sub(gone.to_multiset());
        assert(stay =~= rest.to_multiset());
        vstd::seq_lib::to_multiset_len(rest);
        assert forall|y: Seq<char>, x: Seq<char>|
            gone.contains(y) && stay.count(x) > 0 implies lex_le(y, x) by {
            assert(rest.contains(x));
            let a = choose|a: int| 0 <= a < gone.len() && gone[a] == y;
            let b = choose|b: int| 0 <= b < rest.len() && rest[b] == x;
            assert(s[a] == y);
            assert(s[count + b] == x);
        }
        assert forall|a: int, b: int| 0 <= a < b < gone.len() implies lex_le(
            #[trigger] gone[a],
            #[trigger] gone[b],
        ) by {
            assert(gone[a] == s[a] && gone[b] == s[b]);
        }
        assert(gone.to_multiset().subset_of(c.to_multiset()));
    }
    r
}

} // verus!
