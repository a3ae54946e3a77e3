use vstd::prelude::*;
use crate::cache::{
    custom_hit, first_tree_hit, lemma_first_hit_exhausted, lemma_first_hit_found, tree_hit,
    CacheConfig,
};
use crate::fs_model::FsView;
use crate::listing::{has_name, sorted_unique};
use crate::text::{lemma_lex_asymmetric, lemma_lex_transitive, lex_lt};

verus! {

/// A command with no page anywhere — no custom override and no tree match —
/// resolves to "not found", never an error: the whole search yields nothing,
/// so `find_page`'s contract makes it return `None`.
pub proof fn lemma_unmatched_command_not_found(cfg: CacheConfig, command: Seq<char>, fs: FsView)
    requires
        !custom_hit(cfg, command, fs),
        forall|pi: int, li: int|
            0 <= pi < cfg.platforms@.len() && 0 <= li < cfg.languages@.len() ==> !tree_hit(
                cfg,
                command,
                fs,
                pi,
                li,
            ),
    ensures
        first_tree_hit(cfg, command, fs) is None,
{
    lemma_first_hit_exhausted(cfg, command, fs, 0, 0);
}

/// Among the languages of one platform `p`, some probe at or after `b0`
/// hits; there is then a least such language index.
proof fn lemma_least_language_hit(cfg: CacheConfig, command: Seq<char>, fs: FsView, p: int, b0: int)
    requires
        0 <= p < cfg.platforms@.len(),
        0 <= b0 < cfg.languages@.len(),
        tree_hit(cfg, command, fs, p, b0),
    ensures
        exists|bm: int|
            {
                &&& 0 <= bm <= b0
                &&& #[trigger] tree_hit(cfg, command, fs, p, bm)
                &&& forall|b: int| 0 <= b < bm ==> !tree_hit(cfg, command, fs, p, b)
            },
    decreases b0,
{
    if forall|b: int| 0 <= b < b0 ==> !tree_hit(cfg, command, fs, p, b) {
    } else {
        let b1 = choose|b1: int| 0 <= b1 < b0 && tree_hit(cfg, command, fs, p, b1);
        lemma_least_language_hit(cfg, command, fs, p, b1);
    }
}

/// Platform order strictly dominates language order.  When every language of
/// every platform before `p` misses and some language of platform `p` hits,
/// the search resolves within platform `p` — even if that hit's language is
/// less preferred than one available under a later platform.
pub proof fn lemma_platform_order_dominates(
    cfg: CacheConfig,
    command: Seq<char>,
    fs: FsView,
    p: int,
)
    requires
        0 <= p < cfg.platforms@.len(),
        forall|a: int, b: int|
            0 <= a < p && 0 <= b < cfg.languages@.len() ==> !tree_hit(cfg, command, fs, a, b),
        exists|b: int| 0 <= b < cfg.languages@.len() && #[trigger] tree_hit(cfg, command, fs, p, b),
    ensures
        ({
            &&& first_tree_hit(cfg, command, fs) matches Some(idx)
            &&& idx.0 == p
        }),
{
    let b0 = choose|b: int|
        0 <= b < cfg.languages@.len() && #[trigger] tree_hit(cfg, command, fs, p, b);
    lemma_least_language_hit(cfg, command, fs, p, b0);
    let bm = choose|bm: int|
        {
            &&& 0 <= bm <= b0
            &&& #[trigger] tree_hit(cfg, command, fs, p, bm)
            &&& forall|b: int| 0 <= b < bm ==> !tree_hit(cfg, command, fs, p, b)
        };
    lemma_first_hit_found(cfg, command, fs, 0, 0, p, bm);
}

/// The names a sorted, duplicate-free vector holds determine it exactly: two
/// such vectors with the same names agree position by position.  Enumerating
/// the available pages twice over one filesystem observation therefore gives
/// identical output.
pub proof fn lemma_sorted_unique_names_canonical(a: Seq<String>, b: Seq<String>)
    requires
        sorted_unique(a),
        sorted_unique(b),
        forall|x: Seq<char>| has_name(a, x) <==> has_name(b, x),
    ensures
        a.len() == b.len(),
        forall|i: int| 0 <= i < a.len() ==> a[i]@ == b[i]@,
    decreases a.len(),
{
    if a.len() == 0 {
        if b.len() > 0 {
            assert(has_name(b, b[0]@));
            assert(has_name(a, b[0]@));
        }
    } else if b.len() == 0 {
        assert(has_name(a, a[0]@));
        assert(has_name(b, a[0]@));
    } else {
        assert(has_name(a, a[0]@));
        assert(has_name(b, b[0]@));
        let j = choose|j: int| 0 <= j < b.len() && b[j]@ == a[0]@;
        let i = choose|i: int| 0 <= i < a.len() && a[i]@ == b[0]@;
        if j > 0 {
            assert(lex_lt(b[0]@, b[j]@));
            if i > 0 {
                assert(lex_lt(a[0]@, a[i]@));
                lemma_lex_transitive(b[0]@, b[j]@, a[i]@);
                lemma_lex_asymmetric(b[0]@, a[i]@);
            } else {
                lemma_lex_asymmetric(b[0]@, b[j]@);
            }
        }
        assert(a[0]@ == b[0]@);
        let at = a.drop_first();
        let bt = b.drop_first();
        assert forall|x: Seq<char>| has_name(at, x) implies (has_name(a, x) && x != a[0]@) by {
            let k = choose|k: int| 0 <= k < at.len() && at[k]@ == x;
            assert(a[k + 1]@ == x);
            assert(lex_lt(a[0]@, a[k + 1]@));
            lemma_lex_asymmetric(a[0]@, a[k + 1]@);
        }
        assert forall|x: Seq<char>| has_name(bt, x) implies (has_name(b, x) && x != b[0]@) by {
            let k = choose|k: int| 0 <= k < bt.len() && bt[k]@ == x;
            assert(b[k + 1]@ == x);
            assert(lex_lt(b[0]@, b[k + 1]@));
            lemma_lex_asymmetric(b[0]@, b[k + 1]@);
        }
        assert forall|x: Seq<char>| (has_name(a, x) && x != a[0]@) implies has_name(at, x) by {
            let k = choose|k: int| 0 <= k < a.len() && a[k]@ == x;
            assert(k > 0);
            assert(at[k - 1]@ == x);
        }
        assert forall|x: Seq<char>| (has_name(b, x) && x != b[0]@) implies has_name(bt, x) by {
            let k = choose|k: int| 0 <= k < b.len() && b[k]@ == x;
            assert(k > 0);
            assert(bt[k - 1]@ == x);
        }
        assert forall|p: int, q: int| 0 <= p < q < at.len() implies lex_lt(at[p]@, at[q]@) by {
            assert(at[p] == a[p + 1] && at[q] == a[q + 1]);
        }
        assert forall|p: int, q: int| 0 <= p < q < bt.len() implies lex_lt(bt[p]@, bt[q]@) by {
            assert(bt[p] == b[p + 1] && bt[q] == b[q + 1]);
        }
        lemma_sorted_unique_names_canonical(at, bt);
        assert forall|i2: int| 0 <= i2 < a.len() implies a[i2]@ == b[i2]@ by {
            if i2 > 0 {
                assert(at[i2 - 1]@ == bt[i2 - 1]@);
            }
        }
    }
}

} // verus!
