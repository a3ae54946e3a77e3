use vstd::prelude::*;
use vstd::string::StrSliceExecFns;
use vstd::string::StringExecFns;

verus! {

/// Outcome of comparing two strings in the lexicographic character order.
#[derive(Debug, Clone, Copy, PartialEq, Eq, Structural)]
pub enum Cmp {
    Less,
    Equal,
    Greater,
}

/// Strict lexicographic order on character sequences, by Unicode scalar value.
pub open spec fn lex_lt(a: Seq<char>, b: Seq<char>) -> bool
    decreases a.len(),
{
    if b.len() == 0 {
        false
    } else if a.len() == 0 {
        true
    } else if a[0] < b[0] {
        true
    } else if b[0] < a[0] {
        false
    } else {
        lex_lt(a.drop_first(), b.drop_first())
    }
}

/// The lexicographic order never relates a sequence to itself.
pub proof fn lemma_lex_irreflexive(a: Seq<char>)
    ensures
        !lex_lt(a, a),
    decreases a.len(),
{
    if a.len() > 0 {
        lemma_lex_irreflexive(a.drop_first());
    }
}

/// The lexicographic order is transitive.
pub proof fn lemma_lex_transitive(a: Seq<char>, b: Seq<char>, c: Seq<char>)
    requires
        lex_lt(a, b),
        lex_lt(b, c),
    ensures
        lex_lt(a, c),
    decreases a.len(),
{
    if a.len() == 0 {
        assert(c.len() > 0);
    } else {
        assert(b.len() > 0);
        assert(c.len() > 0);
        assert(a[0] <= b[0]);
        assert(b[0] <= c[0]);
        if a[0] == c[0] {
            lemma_lex_transitive(a.drop_first(), b.drop_first(), c.drop_first());
        }
    }
}

/// At most one of `a < b`, `a == b`, `b < a` holds.
pub proof fn lemma_lex_asymmetric(a: Seq<char>, b: Seq<char>)
    requires
        lex_lt(a, b),
    ensures
        !lex_lt(b, a),
        a != b,
{
    lemma_lex_irreflexive(a);
    if lex_lt(b, a) {
        lemma_lex_transitive(a, b, a);
    }
}

/// Dropping an equal prefix of both sequences does not change how they compare.
proof fn lemma_lex_skip_common_prefix(a: Seq<char>, b: Seq<char>, i: int)
    requires
        0 <= i <= a.len(),
        i <= b.len(),
        forall|j: int| 0 <= j < i ==> a[j] == b[j],
    ensures
        lex_lt(a, b) == lex_lt(a.skip(i), b.skip(i)),
    decreases i,
{
    if i > 0 {
        assert(a.len() > 0 && b.len() > 0);
        assert(a[0] == b[0]);
        lemma_lex_skip_common_prefix(a.drop_first(), b.drop_first(), i - 1);
        assert(a.drop_first().skip(i - 1) =~= a.skip(i));
        assert(b.drop_first().skip(i - 1) =~= b.skip(i));
    } else {
        assert(a.skip(0) =~= a);
        assert(b.skip(0) =~= b);
    }
}

/// Compare two strings in the lexicographic character order.
pub fn str_compare(a: &str, b: &str) -> (r: Cmp)
    ensures
        r == Cmp::Less <==> lex_lt(a@, b@),
        r == Cmp::Equal <==> a@ == b@,
        r == Cmp::Greater <==> lex_lt(b@, a@),
{
    let a_len = a.unicode_len();
    let b_len = b.unicode_len();
    let end = if a_len < b_len {
        a_len
    } else {
        b_len
    };
    let mut i: usize = 0;
    while i < end
        invariant
            0 <= i <= end,
            end == if a@.len() < b@.len() {
                a@.len()
            } else {
                b@.len()
            },
            a_len == a@.len(),
            b_len == b@.len(),
            forall|j: int| 0 <= j < i ==> a@[j] == b@[j],
        decreases end - i,
    {
        let ca = a.get_char(i);
        let cb = b.get_char(i);
        proof {
            assert(a@.skip(i as int)[0] == a@[i as int]);
            assert(b@.skip(i as int)[0] == b@[i as int]);
            lemma_lex_skip_common_prefix(a@, b@, i as int);
            lemma_lex_skip_common_prefix(b@, a@, i as int);
        }
        if ca < cb {
            proof {
                assert(lex_lt(a@, b@));
                lemma_lex_asymmetric(a@, b@);
            }
            return Cmp::Less;
        }
        if cb < ca {
            proof {
                assert(lex_lt(b@, a@));
                lemma_lex_asymmetric(b@, a@);
            }
            return Cmp::Greater;
        }
        assert(ca == cb);
        i = i + 1;
    }
    proof {
        lemma_lex_skip_common_prefix(a@, b@, end as int);
        lemma_lex_skip_common_prefix(b@, a@, end as int);
    }
    if a_len < b_len {
        proof {
            lemma_lex_asymmetric(a@, b@);
        }
        Cmp::Less
    } else if b_len < a_len {
        proof {
            lemma_lex_asymmetric(b@, a@);
        }
        Cmp::Greater
    } else {
        assert(a@ =~= b@);
        proof {
            lemma_lex_irreflexive(a@);
        }
        Cmp::Equal
    }
}

/// `s` ends with the characters of `suf`.
pub open spec fn has_suffix(s: Seq<char>, suf: Seq<char>) -> bool {
    s.len() >= suf.len() && s.skip(s.len() - suf.len()) == suf
}

/// Whether `s` ends with `suffix`.
pub fn ends_with_suffix(s: &str, suffix: &str) -> (r: bool)
    ensures
        r == has_suffix(s@, suffix@),
{
    let s_len = s.unicode_len();
    let suf_len = suffix.unicode_len();
    if s_len < suf_len {
        return false;
    }
    let tail = s.substring_char(s_len - suf_len, s_len);
    assert(tail@ =~= s@.skip(s@.len() - suffix@.len()));
    match str_compare(tail, suffix) {
        Cmp::Equal => true,
        _ => false,
    }
}

/// `s` with its final `suffix` characters removed, as an owned string.
pub fn strip_suffix_str(s: &str, suffix: &str) -> (r: String)
    requires
        has_suffix(s@, suffix@),
    ensures
        r@ == s@.take(s@.len() - suffix@.len()),
{
    let s_len = s.unicode_len();
    let suf_len = suffix.unicode_len();
    let head = s.substring_char(0, s_len - suf_len);
    assert(head@ =~= s@.take(s@.len() - suffix@.len()));
    String::from_str(head)
}

/// The concatenation of two strings, as an owned string.
pub fn concat_str(a: &str, b: &str) -> (r: String)
    ensures
        r@ == a@ + b@,
{
    String::from_str(a).concat(b)
}

} // verus!
