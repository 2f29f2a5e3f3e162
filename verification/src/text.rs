//! Small verified text utilities shared by the screen buffer and the
//! command handling: character-sequence comparison, prefix tests, and
//! decimal rendering of counters.

use vstd::prelude::*;

verus! {

/// Builds a `String` out of a vector of characters.
///
/// Relies on `String: FromIterator<char>` (`collect`): the resulting
/// string consists of exactly the characters of the iterator, in order.
#[verifier::external_body]
pub fn chars_to_string(v: &Vec<char>) -> (s: String)
    ensures
        s@ == v@,
{
    v.iter().collect()
}

/// True when the two strings hold the same characters.
pub fn str_eq_chars(a: &str, b: &str) -> (r: bool)
    ensures
        r == (a@ == b@),
{
    let an = a.unicode_len();
    let bn = b.unicode_len();
    if an != bn {
        proof {
            assert(a@ != b@) by {
                assert(a@.len() != b@.len());
            }
        }
        return false;
    }
    let mut i: usize = 0;
    while i < an
        invariant
            i <= an,
            an == a@.len(),
            an == b@.len(),
            forall|j: int| 0 <= j < i ==> a@[j] == b@[j],
        decreases an - i,
    {
        if a.get_char(i) != b.get_char(i) {
            return false;
        }
        i += 1;
    }
    proof {
        assert(a@ =~= b@);
    }
    true
}

/// True when `p` is a prefix of `s`.
pub open spec fn is_prefix_of(p: Seq<char>, s: Seq<char>) -> bool {
    p.len() <= s.len() && s.subrange(0, p.len() as int) == p
}

/// True when the string `s` starts with the characters of `p`.
pub fn str_has_prefix(s: &str, p: &str) -> (r: bool)
    ensures
        r == is_prefix_of(p@, s@),
{
    let sn = s.unicode_len();
    let pn = p.unicode_len();
    if pn > sn {
        return false;
    }
    let mut i: usize = 0;
    while i < pn
        invariant
            i <= pn,
            pn == p@.len(),
            sn == s@.len(),
            pn <= sn,
            forall|j: int| 0 <= j < i ==> s@[j] == p@[j],
        decreases pn - i,
    {
        if s.get_char(i) != p.get_char(i) {
            proof {
                assert(s@.subrange(0, p@.len() as int)[i as int] == s@[i as int]);
            }
            return false;
        }
        i += 1;
    }
    proof {
        assert(s@.subrange(0, p@.len() as int) =~= p@);
    }
    true
}

/// True when the character vector holds the same characters as the
/// string.
pub fn vec_chars_eq_str(v: &Vec<char>, s: &str) -> (r: bool)
    ensures
        r == (v@ == s@),
{
    let n = s.unicode_len();
    if v.len() != n {
        return false;
    }
    let mut i: usize = 0;
    while i < n
        invariant
            i <= n,
            n == s@.len(),
            n == v@.len(),
            forall|j: int| 0 <= j < i ==> v@[j] == s@[j],
        decreases n - i,
    {
        if v[i] != s.get_char(i) {
            return false;
        }
        i += 1;
    }
    proof {
        assert(v@ =~= s@);
    }
    true
}

/// The fields of `s` separated by `sep`: always at least one field, an
/// empty field between adjacent separators and at either end.
pub open spec fn split_spec(s: Seq<char>, sep: char) -> Seq<Seq<char>>
    decreases s.len(),
{
    if s.len() == 0 {
        seq![Seq::<char>::empty()]
    } else if s[0] == sep {
        seq![Seq::<char>::empty()] + split_spec(s.drop_first(), sep)
    } else {
        let r = split_spec(s.drop_first(), sep);
        seq![seq![s[0]] + r[0]] + r.drop_first()
    }
}

/// A split always yields at least one field.
pub proof fn lemma_split_len(s: Seq<char>, sep: char)
    ensures
        split_spec(s, sep).len() >= 1,
    decreases s.len(),
{
    if s.len() > 0 {
        lemma_split_len(s.drop_first(), sep);
    }
}

/// Splits the string at each occurrence of `sep`.
pub fn split_str(s: &str, sep: char) -> (r: Vec<Vec<char>>)
    ensures
        r.deep_view() == split_spec(s@, sep),
        r@.len() >= 1,
    decreases s@.len(),
{
    let n = s.unicode_len();
    if n == 0 {
        let mut r: Vec<Vec<char>> = Vec::new();
        r.push(Vec::new());
        proof {
            assert(r.deep_view() =~~= split_spec(s@, sep));
        }
        r
    } else {
        let c0 = s.get_char(0);
        let rest = s.substring_char(1, n);
        proof {
            assert(rest@ =~= s@.drop_first());
        }
        let mut r = split_str(rest, sep);
        proof {
            lemma_split_len(rest@, sep);
        }
        if c0 == sep {
            r.insert(0, Vec::new());
            proof {
                assert(r.deep_view() =~~= split_spec(s@, sep));
            }
        } else {
            let old_head = r.remove(0);
            let mut head: Vec<char> = Vec::new();
            head.push(c0);
            let mut j: usize = 0;
            while j < old_head.len()
                invariant
                    j <= old_head@.len(),
                    head@ == seq![c0] + old_head@.take(j as int),
                decreases old_head@.len() - j,
            {
                let c = old_head[j];
                head.push(c);
                j += 1;
                proof {
                    assert(head@ =~= seq![c0] + old_head@.take(j as int));
                }
            }
            proof {
                assert(head@ =~= seq![c0] + old_head@);
            }
            r.insert(0, head);
            proof {
                assert(r.deep_view() =~~= split_spec(s@, sep));
            }
        }
        r
    }
}

} // verus!
