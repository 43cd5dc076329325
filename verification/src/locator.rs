//! The archive locator's computable half: which file names are archive
//! candidates, which are table files, and the deterministic lexicographic
//! order archives are scanned in. Directory listing itself stays with the
//! caller; this module decides and orders.

use vstd::prelude::*;
use vstd::multiset::Multiset;
use vstd::string::*;
use crate::strutil::lower_of;
use crate::strutil::lowercase;

verus! {

/// Index of the last '.' in a name, or -1 if it has none.
pub open spec fn last_dot_index(s: Seq<char>) -> int
    decreases s.len(),
{
    if s.len() == 0 {
        -1
    } else if s.last() == '.' {
        s.len() - 1
    } else {
        last_dot_index(s.drop_last())
    }
}

proof fn lemma_last_dot_index(s: Seq<char>)
    ensures
        last_dot_index(s) == -1 ==> forall|i: int| 0 <= i < s.len() ==> s[i] != '.',
        last_dot_index(s) != -1 ==> 0 <= last_dot_index(s) < s.len() && s[last_dot_index(s)] == '.'
            && forall|j: int| last_dot_index(s) < j < s.len() ==> s[j] != '.',
    decreases s.len(),
{
    if s.len() > 0 && s.last() != '.' {
        lemma_last_dot_index(s.drop_last());
        assert(forall|i: int| 0 <= i < s.len() - 1 ==> s[i] == s.drop_last()[i]);
    }
}

proof fn lemma_last_dot_index_at(s: Seq<char>, i: int)
    requires
        0 <= i < s.len(),
        s[i] == '.',
        forall|j: int| i < j < s.len() ==> s[j] != '.',
    ensures
        last_dot_index(s) == i,
    decreases s.len(),
{
    if i < s.len() - 1 {
        assert(s.last() != '.');
        assert(forall|j: int| 0 <= j < s.len() - 1 ==> s[j] == s.drop_last()[j]);
        lemma_last_dot_index_at(s.drop_last(), i);
    }
}

/// Whether a file name carries the archive suffix, compared without regard
/// to ASCII case, with a nonempty stem before the dot.
pub open spec fn spec_has_mpq_extension(s: Seq<char>) -> bool {
    let i = last_dot_index(s);
    i > 0 && s.len() == i + 4 && (s[i + 1] == 'm' || s[i + 1] == 'M') && (s[i + 2] == 'p' || s[i + 2]
        == 'P') && (s[i + 3] == 'q' || s[i + 3] == 'Q')
}

/// Whether a file name begins, once lowercased, with the audio-archive
/// ignore prefix.
pub open spec fn spec_is_speech_name(s: Seq<char>) -> bool {
    lower_of(s).len() >= 6 && lower_of(s).subrange(0, 6) == "speech"@
}

/// An archive candidate: archive suffix, and not an ignored audio archive.
pub open spec fn spec_mpq_candidate(s: Seq<char>) -> bool {
    spec_has_mpq_extension(s) && !spec_is_speech_name(s)
}

/// Whether a name inside an archive, once lowercased, ends in the
/// table-file suffix.
pub open spec fn spec_is_dbc_name(s: Seq<char>) -> bool {
    let l = lower_of(s);
    l.len() >= 4 && l.subrange(l.len() - 4, l.len() as int) == ".dbc"@
}

pub fn has_mpq_extension(name: &str) -> (r: bool)
    ensures
        r == spec_has_mpq_extension(name@),
{
    let n = name.unicode_len();
    let mut j: usize = n;
    while j > 0
        invariant
            0 <= j <= n,
            n == name@.len(),
            forall|i: int| j <= i < n ==> name@[i] != '.',
        decreases j,
    {
        if name.get_char(j - 1) == '.' {
            proof {
                lemma_last_dot_index_at(name@, j - 1);
            }
            if j - 1 > 0 && n >= 4 && j - 1 == n - 4 {
                let c1 = name.get_char(j);
                let c2 = name.get_char(j + 1);
                let c3 = name.get_char(j + 2);
                return (c1 == 'm' || c1 == 'M') && (c2 == 'p' || c2 == 'P') && (c3 == 'q' || c3
                    == 'Q');
            }
            return false;
        }
        j = j - 1;
    }
    proof {
        lemma_last_dot_index(name@);
        if last_dot_index(name@) != -1 {
            assert(name@[last_dot_index(name@)] == '.');
            assert(false);
        }
    }
    false
}

pub fn is_speech_name(name: &str) -> (r: bool)
    ensures
        r == spec_is_speech_name(name@),
{
    let low = lowercase(name);
    let ln = low.as_str().unicode_len();
    if ln < 6 {
        return false;
    }
    proof {
        reveal_strlit("speech");
    }
    let s = low.as_str();
    let r = s.get_char(0) == 's' && s.get_char(1) == 'p' && s.get_char(2) == 'e' && s.get_char(3)
        == 'e' && s.get_char(4) == 'c' && s.get_char(5) == 'h';
    proof {
        if r {
            assert(lower_of(name@).subrange(0, 6) =~= "speech"@);
        } else {
            if lower_of(name@).subrange(0, 6) == "speech"@ {
                let l = lower_of(name@);
                assert(l[0] == l.subrange(0, 6)[0] && l.subrange(0, 6)[0] == 's');
                assert(l[1] == l.subrange(0, 6)[1] && l.subrange(0, 6)[1] == 'p');
                assert(l[2] == l.subrange(0, 6)[2] && l.subrange(0, 6)[2] == 'e');
                assert(l[3] == l.subrange(0, 6)[3] && l.subrange(0, 6)[3] == 'e');
                assert(l[4] == l.subrange(0, 6)[4] && l.subrange(0, 6)[4] == 'c');
                assert(l[5] == l.subrange(0, 6)[5] && l.subrange(0, 6)[5] == 'h');
                assert(false);
            }
        }
    }
    r
}

pub fn is_dbc_name(name: &str) -> (r: bool)
    ensures
        r == spec_is_dbc_name(name@),
{
    let low = lowercase(name);
    let ln = low.as_str().unicode_len();
    if ln < 4 {
        return false;
    }
    proof {
        reveal_strlit(".dbc");
    }
    let s = low.as_str();
    let r = s.get_char(ln - 4) == '.' && s.get_char(ln - 3) == 'd' && s.get_char(ln - 2) == 'b'
        && s.get_char(ln - 1) == 'c';
    proof {
        let l = lower_of(name@);
        if r {
            assert(l.subrange(l.len() - 4, l.len() as int) =~= ".dbc"@);
        } else {
            if l.subrange(l.len() - 4, l.len() as int) == ".dbc"@ {
                let sub = l.subrange(l.len() - 4, l.len() as int);
                assert(l[l.len() - 4] == sub[0] && sub[0] == '.');
                assert(l[l.len() - 3] == sub[1] && sub[1] == 'd');
                assert(l[l.len() - 2] == sub[2] && sub[2] == 'b');
                assert(l[l.len() - 1] == sub[3] && sub[3] == 'c');
                assert(false);
            }
        }
    }
    r
}

/// Lexicographic order on character sequences, by code point.
pub open spec fn lex_le(a: Seq<char>, b: Seq<char>) -> bool
    decreases a.len(),
{
    if a.len() == 0 {
        true
    } else if b.len() == 0 {
        false
    } else if a[0] != b[0] {
        (a[0] as int) < (b[0] as int)
    } else {
        lex_le(a.drop_first(), b.drop_first())
    }
}

pub proof fn lemma_lex_le_total(a: Seq<char>, b: Seq<char>)
    ensures
        lex_le(a, b) || lex_le(b, a),
    decreases a.len(),
{
    if a.len() > 0 && b.len() > 0 && a[0] == b[0] {
        lemma_lex_le_total(a.drop_first(), b.drop_first());
    }
}

pub proof fn lemma_lex_le_trans(a: Seq<char>, b: Seq<char>, c: Seq<char>)
    requires
        lex_le(a, b),
        lex_le(b, c),
    ensures
        lex_le(a, c),
    decreases a.len(),
{
    if a.len() > 0 && b.len() > 0 && c.len() > 0 && a[0] == b[0] && b[0] == c[0] {
        lemma_lex_le_trans(a.drop_first(), b.drop_first(), c.drop_first());
    }
}

/// Compare two names in lexicographic order.
pub fn str_lex_le(a: &str, b: &str) -> (r: bool)
    ensures
        r == lex_le(a@, b@),
{
    let na = a.unicode_len();
    let nb = b.unicode_len();
    let mut i: usize = 0;
    proof {
        assert(a@.skip(0) =~= a@);
        assert(b@.skip(0) =~= b@);
    }
    loop
        invariant
            0 <= i <= na,
            i <= nb,
            na == a@.len(),
            nb == b@.len(),
            lex_le(a@, b@) == lex_le(a@.skip(i as int), b@.skip(i as int)),
        decreases na - i,
    {
        if i == na {
            assert(a@.skip(i as int).len() == 0);
            return true;
        }
        if i == nb {
            assert(b@.skip(i as int).len() == 0);
            assert(a@.skip(i as int).len() > 0);
            return false;
        }
        let ca = a.get_char(i);
        let cb = b.get_char(i);
        assert(a@.skip(i as int)[0] == a@[i as int]);
        assert(b@.skip(i as int)[0] == b@[i as int]);
        if ca != cb {
            return (ca as u32) < (cb as u32);
        }
        proof {
            assert(a@.skip(i as int).drop_first() =~= a@.skip(i + 1));
            assert(b@.skip(i as int).drop_first() =~= b@.skip(i + 1));
        }
        i = i + 1;
    }
}

proof fn lemma_to_multiset_drop_first<A>(s: Seq<A>)
    requires
        s.len() > 0,
    ensures
        s.drop_first().to_multiset() == s.to_multiset().remove(s[0]),
        s.to_multiset().count(s[0]) >= 1,
{
    broadcast use vstd::seq_lib::group_to_multiset_ensures;

    assert(s.remove(0) =~= s.drop_first());
    assert(s.contains(s[0]));
}

/// Names sorted lexicographically.
pub open spec fn names_sorted(s: Seq<String>) -> bool {
    forall|i: int, j: int| 0 <= i < j < s.len() ==> lex_le(s[i]@, s[j]@)
}

/// Sort names lexicographically: the order that fixes archive priority
/// within one directory tier.
#[verifier::rlimit(60)]
pub fn sort_names(names: Vec<String>) -> (r: Vec<String>)
    ensures
        r@.to_multiset() == names@.to_multiset(),
        names_sorted(r@),
{
    broadcast use vstd::seq_lib::group_to_multiset_ensures;
    broadcast use vstd::multiset::group_multiset_axioms;

    let ghost orig = names@;
    let mut rest = names;
    let mut out: Vec<String> = Vec::new();
    while rest.len() > 0
        invariant
            out@.to_multiset().add(rest@.to_multiset()) =~= orig.to_multiset(),
            names_sorted(out@),
        decreases rest.len(),
    {
        let ghost before = rest@;
        let x = rest.remove(0);
        proof {
            assert(before.remove(0) =~= before.drop_first());
            lemma_to_multiset_drop_first(before);
        }
        let n = out.len();
        let mut p: usize = 0;
        while p < n && str_lex_le(&out[p], &x)
            invariant
                0 <= p <= n,
                n == out@.len(),
                forall|j: int| 0 <= j < p ==> lex_le((#[trigger] out@[j])@, x@),
            decreases n - p,
        {
            p = p + 1;
        }
        let ghost old_out = out@;
        proof {
            if p < n {
                lemma_lex_le_total(old_out[p as int]@, x@);
            }
        }
        out.insert(p, x);
        proof {
            assert(out@ =~= old_out.insert(p as int, x));
            vstd::seq_lib::to_multiset_insert(old_out, p as int, x);
            assert(out@.to_multiset().add(rest@.to_multiset()) =~= orig.to_multiset());
            old_out.insert_ensures(p as int, x);
            assert forall|i: int, j: int| 0 <= i < j < out@.len() implies lex_le(
                (#[trigger] out@[i])@,
                (#[trigger] out@[j])@,
            ) by {
                if j < p {
                    assert(out@[i] == old_out[i] && out@[j] == old_out[j]);
                } else if i < p && j == p {
                    assert(out@[i] == old_out[i] && out@[j] == x);
                } else if i < p && j > p {
                    assert(out@[i] == old_out[i] && out@[j] == old_out[j - 1]);
                } else if i == p {
                    assert(out@[i] == x && out@[j] == old_out[j - 1]);
                    if j - 1 > p {
                        lemma_lex_le_trans(x@, old_out[p as int]@, old_out[j - 1]@);
                    }
                } else {
                    assert(out@[i] == old_out[i - 1] && out@[j] == old_out[j - 1]);
                }
            }
        }
    }
    proof {
        assert(rest@.to_multiset() =~= Multiset::<String>::empty());
        assert(out@.to_multiset() =~= orig.to_multiset());
    }
    out
}

/// The locator's selection for one directory: keep archive candidates, in
/// listing order, then sort them lexicographically.
pub fn filter_mpq_names(names: Vec<String>) -> (r: Vec<String>)
    ensures
        r@.to_multiset() == names@.filter(|n: String| spec_mpq_candidate(n@)).to_multiset(),
        names_sorted(r@),
{
    broadcast use vstd::seq_lib::group_filter_ensures;

    let ghost orig = names@;
    let mut kept: Vec<String> = Vec::new();
    let mut rest = names;
    while rest.len() > 0
        invariant
            kept@ + rest@.filter(|n: String| spec_mpq_candidate(n@)) =~= orig.filter(
                |n: String| spec_mpq_candidate(n@),
            ),
        decreases rest.len(),
    {
        let ghost before = rest@;
        let x = rest.remove(0);
        proof {
            assert(before.remove(0) =~= before.drop_first());
        }
        let keep = {
            let e = has_mpq_extension(x.as_str());
            if e {
                let sp = is_speech_name(x.as_str());
                !sp
            } else {
                false
            }
        };
        proof {
            crate::store::lemma_seq_filter_first(before, |n: String| spec_mpq_candidate(n@));
        }
        if keep {
            kept.push(x);
        }
    }
    proof {
        assert(rest@.filter(|n: String| spec_mpq_candidate(n@)) =~= Seq::<String>::empty());
        assert(kept@ =~= orig.filter(|n: String| spec_mpq_candidate(n@)));
    }
    sort_names(kept)
}

} // verus!
