use vstd::prelude::*;
use vstd::string::*;

verus! {

/// Index of the first `/` in `s`, or `s.len()` when there is none.
pub open spec fn first_slash(s: Seq<char>) -> int
    decreases s.len(),
{
    if s.len() == 0 {
        0
    } else if s[0] == '/' {
        0
    } else {
        1 + first_slash(s.drop_first())
    }
}

pub proof fn lemma_first_slash(s: Seq<char>)
    ensures
        0 <= first_slash(s) <= s.len(),
        first_slash(s) < s.len() ==> s[first_slash(s)] == '/',
        forall|j: int| 0 <= j < first_slash(s) ==> s[j] != '/',
    decreases s.len(),
{
    if s.len() > 0 && s[0] != '/' {
        lemma_first_slash(s.drop_first());
        assert forall|j: int| 0 <= j < first_slash(s) implies s[j] != '/' by {
            if j > 0 {
                assert(s.drop_first()[j - 1] == s[j]);
            }
        }
    }
}

/// The fields of `s`, in order, when `s` is cut at every `/`; the
/// separators themselves are kept in no field.  A string without `/` is
/// one field; each `/` begins a new one, so `n` separators give `n + 1`
/// fields, empty ones included.
pub open spec fn split_slash(s: Seq<char>) -> Seq<Seq<char>>
    decreases s.len(),
{
    let i = first_slash(s);
    if i < 0 || i >= s.len() {
        seq![s]
    } else {
        seq![s.take(i)] + split_slash(s.skip(i + 1))
    }
}

/// Splitting cuts exactly at the first separator.
pub proof fn lemma_split_at_first(s: Seq<char>, i: int)
    requires
        0 <= i < s.len(),
        s[i] == '/',
        forall|j: int| 0 <= j < i ==> s[j] != '/',
    ensures
        first_slash(s) == i,
        split_slash(s) == seq![s.take(i)] + split_slash(s.skip(i + 1)),
    decreases s.len(),
{
    lemma_first_slash(s);
    if first_slash(s) < i {
        assert(s[first_slash(s)] == '/');
        assert(false);
    }
    if first_slash(s) > i {
        assert(s[i] != '/');
        assert(false);
    }
}

/// A string without any separator is a single field.
pub proof fn lemma_split_whole(s: Seq<char>)
    requires
        forall|j: int| 0 <= j < s.len() ==> s[j] != '/',
    ensures
        split_slash(s) == seq![s],
{
    lemma_first_slash(s);
    if first_slash(s) < s.len() {
        assert(s[first_slash(s)] == '/');
        assert(false);
    }
}

/// Cuts `s` at every `/`, returning the fields in order.
pub fn split_input<'a>(s: &'a str) -> (parts: Vec<&'a str>)
    ensures
        parts@.len() == split_slash(s@).len(),
        forall|k: int| 0 <= k < parts@.len() ==> parts@[k]@ == split_slash(s@)[k],
    decreases s@.len(),
{
    let len = s.unicode_len();
    let mut i: usize = 0;
    while i < len && s.get_char(i) != '/'
        invariant
            0 <= i <= len,
            len == s@.len(),
            forall|j: int| 0 <= j < i ==> s@[j] != '/',
        decreases len - i,
    {
        i = i + 1;
    }
    if i == len {
        proof {
            lemma_split_whole(s@);
        }
        let mut parts: Vec<&'a str> = Vec::new();
        parts.push(s);
        parts
    } else {
        proof {
            lemma_split_at_first(s@, i as int);
        }
        let head = s.substring_char(0, i);
        let tail = s.substring_char(i + 1, len);
        proof {
            assert(head@ =~= s@.take(i as int));
            assert(tail@ =~= s@.skip(i as int + 1));
        }
        let rest = split_input(tail);
        let mut parts: Vec<&'a str> = Vec::new();
        parts.push(head);
        let mut k: usize = 0;
        while k < rest.len()
            invariant
                0 <= k <= rest@.len(),
                parts@.len() == 1 + k,
                parts@[0] == head,
                forall|j: int| 0 <= j < k ==> parts@[j + 1] == rest@[j],
            decreases rest@.len() - k,
        {
            parts.push(rest[k]);
            k = k + 1;
        }
        proof {
            assert(split_slash(s@) == seq![s@.take(i as int)] + split_slash(s@.skip(i as int + 1)));
            assert(parts@.len() == split_slash(s@).len());
            assert forall|k2: int| 0 <= k2 < parts@.len() implies parts@[k2]@ == split_slash(s@)[k2] by {
                if k2 == 0 {
                    assert(parts@[0]@ == s@.take(i as int));
                    assert(split_slash(s@)[0] == s@.take(i as int));
                } else {
                    assert(parts@[k2] == rest@[k2 - 1]);
                    assert(rest@[k2 - 1]@ == split_slash(tail@)[k2 - 1]);
                    assert(split_slash(s@)[k2] == split_slash(s@.skip(i as int + 1))[k2 - 1]);
                }
            }
        }
        parts
    }
}

} // verus!
