//! Verified text utilities: splitting a line into fields on a separator
//! character, character-wise string equality, and fixed-length prefix
//! stripping.

use vstd::prelude::*;

verus! {

/// The fields of `s` delimited by `sep`, in order. Every separator occurrence
/// delimits a field, so consecutive separators yield empty fields and the
/// result always holds at least one field.
pub open spec fn spec_split(s: Seq<char>, sep: char) -> Seq<Seq<char>>
    decreases s.len(),
{
    if s.len() == 0 {
        seq![Seq::<char>::empty()]
    } else if s[0] == sep {
        seq![Seq::<char>::empty()] + spec_split(s.drop_first(), sep)
    } else {
        let rest = spec_split(s.drop_first(), sep);
        seq![seq![s[0]] + rest[0]] + rest.drop_first()
    }
}

pub proof fn lemma_split_nonempty(s: Seq<char>, sep: char)
    ensures
        spec_split(s, sep).len() >= 1,
    decreases s.len(),
{
    if s.len() != 0 && s[0] != sep {
        lemma_split_nonempty(s.drop_first(), sep);
    }
}

/// A separator-free string splits into the single field that is the string
/// itself.
pub proof fn lemma_split_no_sep(s: Seq<char>, sep: char)
    requires
        forall|j: int| 0 <= j < s.len() ==> s[j] != sep,
    ensures
        spec_split(s, sep) =~~= seq![s],
    decreases s.len(),
{
    if s.len() == 0 {
        assert(spec_split(s, sep) =~~= seq![s]);
    } else {
        lemma_split_no_sep(s.drop_first(), sep);
        lemma_split_nonempty(s.drop_first(), sep);
        assert(spec_split(s.drop_first(), sep)[0] == s.drop_first());
        assert(seq![s[0]] + s.drop_first() =~= s);
    }
}

/// Splitting at the first separator occurrence: the field before it, then the
/// split of what follows it.
pub proof fn lemma_split_first_sep(s: Seq<char>, sep: char, i: int)
    requires
        0 <= i < s.len(),
        s[i] == sep,
        forall|j: int| 0 <= j < i ==> s[j] != sep,
    ensures
        spec_split(s, sep) =~~= seq![s.take(i)] + spec_split(s.skip(i + 1), sep),
    decreases i,
{
    lemma_split_nonempty(s.drop_first(), sep);
    if i == 0 {
        assert(s.take(0) =~= Seq::<char>::empty());
        assert(s.skip(1) =~= s.drop_first());
    } else {
        let d = s.drop_first();
        assert(d[i - 1] == sep);
        assert(forall|j: int| 0 <= j < i - 1 ==> d[j] != sep);
        lemma_split_first_sep(d, sep, i - 1);
        assert(d.skip(i) =~= s.skip(i + 1));
        assert(d.take(i - 1) =~= s.take(i).drop_first());
        lemma_split_nonempty(s.skip(i + 1), sep);
        assert(seq![s[0]] + s.take(i).drop_first() =~= s.take(i));
    }
}

/// Split `s` into the fields delimited by `sep`.
pub fn split_char(s: &str, sep: char) -> (r: Vec<String>)
    ensures
        r.deep_view() =~~= spec_split(s@, sep),
        r.len() >= 1,
{
    let n = s.unicode_len();
    let mut r: Vec<String> = Vec::new();
    let mut start: usize = 0;
    let mut i: usize = 0;
    proof {
        assert(s@.skip(0) =~= s@);
        assert(r.deep_view() =~~= Seq::<Seq<char>>::empty());
    }
    while i < n
        invariant
            0 <= start <= i <= n,
            n == s@.len(),
            forall|j: int| start <= j < i ==> s@[j] != sep,
            spec_split(s@, sep) =~~= r.deep_view() + spec_split(s@.skip(start as int), sep),
        decreases n - i,
    {
        if s.get_char(i) == sep {
            let part = s.substring_char(start, i).to_owned();
            proof {
                let tail = s@.skip(start as int);
                assert(tail[i - start] == sep);
                assert(forall|j: int| 0 <= j < i - start ==> tail[j] != sep);
                lemma_split_first_sep(tail, sep, i - start);
                assert(tail.take(i - start) =~= s@.subrange(start as int, i as int));
                assert(tail.skip(i - start + 1) =~= s@.skip(i + 1 as int));
            }
            r.push(part);
            start = i + 1;
        }
        i += 1;
    }
    let last = s.substring_char(start, n).to_owned();
    proof {
        let tail = s@.skip(start as int);
        lemma_split_no_sep(tail, sep);
        assert(tail =~= s@.subrange(start as int, n as int));
    }
    r.push(last);
    proof {
        lemma_split_nonempty(s@, sep);
    }
    r
}

/// Character-wise string equality.
pub fn str_eq(a: &str, b: &str) -> (r: bool)
    ensures
        r == (a@ == b@),
{
    let an = a.unicode_len();
    let bn = b.unicode_len();
    if an != bn {
        return false;
    }
    let mut i: usize = 0;
    while i < an
        invariant
            0 <= i <= an,
            an == a@.len(),
            an == b@.len(),
            forall|j: int| 0 <= j < i ==> a@[j] == b@[j],
        decreases an - i,
    {
        if a.get_char(i) != b.get_char(i) {
            return false;
        }
        i += 1;
    }
    proof {
        assert(a@ =~= b@);
    }
    true
}

/// What remains of `s` once its first `n` characters are removed; empty when
/// `s` is shorter than `n`.
pub open spec fn spec_strip(s: Seq<char>, n: int) -> Seq<char> {
    if s.len() >= n {
        s.skip(n)
    } else {
        Seq::<char>::empty()
    }
}

/// Remove the first `n` characters of `s`.
pub fn strip_prefix_chars(s: &str, n: usize) -> (r: String)
    ensures
        r@ == spec_strip(s@, n as int),
{
    let len = s.unicode_len();
    if len >= n {
        s.substring_char(n, len).to_owned()
    } else {
        String::new()
    }
}

} // verus!
