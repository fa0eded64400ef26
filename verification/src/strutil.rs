//! Character-level string operations: equality, prefix test, the final
//! space-delimited segment of a header value, splitting a scope string on
//! spaces, and comma-joining.

use vstd::prelude::*;
use vstd::string::StrSliceExecFns;
use vstd::string::StringExecFns;

verus! {

/// `p` is a prefix of `s`.
pub open spec fn is_prefix_of(p: Seq<char>, s: Seq<char>) -> bool {
    p.len() <= s.len() && s.subrange(0, p.len() as int) == p
}

/// Character-for-character string equality.
pub fn str_eq(a: &str, b: &str) -> (r: bool)
    ensures
        r == (a@ == b@),
{
    let alen = a.unicode_len();
    let blen = b.unicode_len();
    if alen != blen {
        return false;
    }
    let mut i: usize = 0;
    while i < alen
        invariant
            alen == a@.len(),
            blen == b@.len(),
            alen == blen,
            i <= alen,
            forall|j: int| 0 <= j < i ==> a@[j] == b@[j],
        decreases alen - i,
    {
        if a.get_char(i) != b.get_char(i) {
            return false;
        }
        i = i + 1;
    }
    proof {
        assert(a@ =~= b@);
    }
    true
}

/// Whether `s` starts with the prefix `p`.
pub fn starts_with_str(s: &str, p: &str) -> (r: bool)
    ensures
        r == is_prefix_of(p@, s@),
{
    let slen = s.unicode_len();
    let plen = p.unicode_len();
    if plen > slen {
        return false;
    }
    let mut i: usize = 0;
    while i < plen
        invariant
            slen == s@.len(),
            plen == p@.len(),
            plen <= slen,
            i <= plen,
            forall|j: int| 0 <= j < i ==> s@[j] == p@[j],
        decreases plen - i,
    {
        if s.get_char(i) != p.get_char(i) {
            return false;
        }
        i = i + 1;
    }
    proof {
        assert(s@.subrange(0, p@.len() as int) =~= p@);
    }
    true
}

/// The suffix of `s` after its last space; all of `s` when it has none.
pub open spec fn after_last_space(s: Seq<char>) -> Seq<char>
    decreases s.len(),
{
    if s.len() == 0 {
        s
    } else if s.last() == ' ' {
        Seq::empty()
    } else {
        after_last_space(s.drop_last()).push(s.last())
    }
}

proof fn lemma_after_last_space_at(s: Seq<char>, k: int)
    requires
        0 <= k <= s.len(),
        forall|j: int| k <= j < s.len() ==> s[j] != ' ',
        k > 0 ==> s[k - 1] == ' ',
    ensures
        after_last_space(s) == s.subrange(k, s.len() as int),
    decreases s.len(),
{
    if s.len() == 0 {
        assert(after_last_space(s) =~= s.subrange(0, 0));
    } else if k == s.len() {
        assert(s.last() == ' ');
        assert(after_last_space(s) =~= s.subrange(k, s.len() as int));
    } else {
        assert(s.last() != ' ');
        lemma_after_last_space_at(s.drop_last(), k);
        assert(s.drop_last().subrange(k, s.len() - 1) =~= s.subrange(k, s.len() - 1));
        assert(after_last_space(s) =~= s.subrange(k, s.len() as int));
    }
}

/// The final whitespace-delimited segment of a header value: the part after
/// the last space, or the whole value when it has no separator.
pub fn bearer_token(s: &str) -> (r: &str)
    ensures
        r@ == after_last_space(s@),
{
    let len = s.unicode_len();
    let mut i: usize = len;
    while i > 0
        invariant
            i <= len == s@.len(),
            forall|j: int| i <= j < len ==> s@[j] != ' ',
        decreases i,
    {
        if s.get_char(i - 1) == ' ' {
            let tok = s.substring_char(i, len);
            proof {
                lemma_after_last_space_at(s@, i as int);
            }
            return tok;
        }
        i = i - 1;
    }
    let tok = s.substring_char(0, len);
    proof {
        lemma_after_last_space_at(s@, 0);
    }
    tok
}

/// The segments of `s` between its spaces, in order; an empty `s` yields one
/// empty segment, and each space separates two segments.
pub open spec fn split_sp(s: Seq<char>) -> Seq<Seq<char>>
    decreases s.len(),
{
    if s.len() == 0 {
        seq![Seq::<char>::empty()]
    } else if s[0] == ' ' {
        seq![Seq::<char>::empty()] + split_sp(s.drop_first())
    } else {
        let rest = split_sp(s.drop_first());
        seq![seq![s[0]] + rest[0]] + rest.drop_first()
    }
}

proof fn lemma_split_sp_len(s: Seq<char>)
    ensures
        split_sp(s).len() >= 1,
    decreases s.len(),
{
    if s.len() > 0 {
        lemma_split_sp_len(s.drop_first());
    }
}

proof fn lemma_split_sp_no_space(s: Seq<char>)
    requires
        forall|j: int| 0 <= j < s.len() ==> s[j] != ' ',
    ensures
        split_sp(s) == seq![s],
    decreases s.len(),
{
    if s.len() == 0 {
        assert(s =~= Seq::<char>::empty());
        assert(split_sp(s) =~~= seq![s]);
    } else {
        lemma_split_sp_no_space(s.drop_first());
        let rest = split_sp(s.drop_first());
        assert(rest[0] == s.drop_first());
        assert(rest.drop_first() =~= Seq::<Seq<char>>::empty());
        assert(seq![s[0]] + rest[0] =~= s);
        assert(split_sp(s) =~= seq![s]);
    }
}

proof fn lemma_split_sp_first_space(s: Seq<char>, i: int)
    requires
        0 <= i < s.len(),
        s[i] == ' ',
        forall|j: int| 0 <= j < i ==> s[j] != ' ',
    ensures
        split_sp(s) == seq![s.subrange(0, i)] + split_sp(s.subrange(i + 1, s.len() as int)),
    decreases i,
{
    if i == 0 {
        assert(s.drop_first() =~= s.subrange(1, s.len() as int));
        assert(s.subrange(0, 0) =~= Seq::<char>::empty());
        assert(split_sp(s) =~= seq![s.subrange(0, 0)] + split_sp(s.subrange(1, s.len() as int)));
    } else {
        lemma_split_sp_first_space(s.drop_first(), i - 1);
        lemma_split_sp_len(s.drop_first().subrange(i, s.len() - 1));
        assert(s.drop_first().subrange(0, i - 1) =~= s.subrange(1, i));
        assert(s.drop_first().subrange(i, s.len() - 1) =~= s.subrange(i + 1, s.len() as int));
        let rest = split_sp(s.drop_first());
        assert(rest == seq![s.subrange(1, i)] + split_sp(s.subrange(i + 1, s.len() as int)));
        assert(rest[0] == s.subrange(1, i));
        assert(seq![s[0]] + s.subrange(1, i) =~= s.subrange(0, i));
        assert(rest.drop_first() =~= split_sp(s.subrange(i + 1, s.len() as int)));
        assert(split_sp(s) =~= seq![s.subrange(0, i)] + split_sp(s.subrange(i + 1, s.len() as int)));
    }
}

/// Splits on single spaces, as the scope claim is split: adjacent spaces
/// yield empty segments and an empty input yields one empty segment.
pub fn split_spaces(s: &str) -> (r: Vec<String>)
    ensures
        r.deep_view() == split_sp(s@),
{
    let len = s.unicode_len();
    let mut out: Vec<String> = Vec::new();
    let mut start: usize = 0;
    let mut i: usize = 0;
    proof {
        assert(s@.subrange(0, len as int) =~= s@);
        assert(out.deep_view() + split_sp(s@) =~= split_sp(s@));
    }
    while i < len
        invariant
            start <= i <= len == s@.len(),
            forall|j: int| start <= j < i ==> s@[j] != ' ',
            split_sp(s@) == out.deep_view() + split_sp(s@.subrange(start as int, len as int)),
        decreases len - i,
    {
        if s.get_char(i) == ' ' {
            let seg = s.substring_char(start, i);
            out.push(String::from_str(seg));
            proof {
                let suffix = s@.subrange(start as int, len as int);
                lemma_split_sp_first_space(suffix, i - start);
                assert(suffix.subrange(0, i - start) =~= s@.subrange(start as int, i as int));
                assert(suffix.subrange(i - start + 1, suffix.len() as int) =~= s@.subrange(
                    i as int + 1,
                    len as int,
                ));
                assert(out.deep_view() + split_sp(s@.subrange(i as int + 1, len as int)) =~= split_sp(
                    s@,
                ));
            }
            start = i + 1;
        }
        i = i + 1;
    }
    let seg = s.substring_char(start, len);
    out.push(String::from_str(seg));
    proof {
        lemma_split_sp_no_space(s@.subrange(start as int, len as int));
        assert(out.deep_view() =~= split_sp(s@));
    }
    out
}

/// The elements of `v` joined with a single comma between neighbours.
pub open spec fn joined_comma(v: Seq<Seq<char>>) -> Seq<char>
    decreases v.len(),
{
    if v.len() == 0 {
        Seq::empty()
    } else if v.len() == 1 {
        v[0]
    } else {
        joined_comma(v.drop_last()) + seq![','] + v.last()
    }
}

/// Comma-joins the granted scopes for the groups response header.
pub fn join_comma(v: &Vec<String>) -> (r: String)
    ensures
        r@ == joined_comma(v.deep_view()),
{
    let mut r = String::new();
    let n = v.len();
    let mut i: usize = 0;
    while i < n
        invariant
            i <= n == v.deep_view().len(),
            r@ == joined_comma(v.deep_view().subrange(0, i as int)),
        decreases n - i,
    {
        if i > 0 {
            r.append(",");
        }
        r.append(v[i].as_str());
        proof {
            reveal_strlit(",");
            let sub1 = v.deep_view().subrange(0, i as int + 1);
            assert(sub1.drop_last() =~= v.deep_view().subrange(0, i as int));
            assert(sub1.last() == v.deep_view()[i as int]);
            assert(","@ =~= seq![',']);
            assert(r@ =~= joined_comma(sub1));
        }
        i = i + 1;
    }
    proof {
        assert(v.deep_view().subrange(0, n as int) =~= v.deep_view());
    }
    r
}

} // verus!
