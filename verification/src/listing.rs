use vstd::prelude::*;
use crate::error::Error;
use crate::fs_model::{DirEntryInfo, DirListing};
use crate::text::{
    ends_with_suffix, has_suffix, lemma_lex_asymmetric, lemma_lex_transitive, lex_lt, str_compare,
    strip_suffix_str, Cmp,
};

verus! {

/// Some string of `v` reads as the character sequence `x`.
pub open spec fn has_name(v: Seq<String>, x: Seq<char>) -> bool {
    exists|i: int| 0 <= i < v.len() && v[i]@ == x
}

/// `v` is strictly ascending in the lexicographic order: sorted, with no
/// duplicates.
pub open spec fn sorted_unique(v: Seq<String>) -> bool {
    forall|i: int, j: int| 0 <= i < j < v.len() ==> lex_lt(v[i]@, v[j]@)
}

/// Entry `e` contributes the page name `x` when enumerated under `suffix`:
/// it is a regular file whose readable name ends in `suffix`, and `x` is the
/// name with the suffix removed.
pub open spec fn entry_page_name(e: DirEntryInfo, suffix: Seq<char>, x: Seq<char>) -> bool {
    &&& e.is_file
    &&& e.name matches Some(n)
    &&& has_suffix(n@, suffix)
    &&& x == n@.take(n@.len() - suffix.len())
}

/// Some entry of `l` contributes the page name `x` under `suffix`.
pub open spec fn listing_has_page(l: DirListing, suffix: Seq<char>, x: Seq<char>) -> bool {
    exists|i: int| 0 <= i < l.entries@.len() && entry_page_name(l.entries@[i], suffix, x)
}

/// Some regular file of `l` has a name that is not representable as text.
pub open spec fn listing_bad(l: DirListing) -> bool {
    exists|i: int|
        0 <= i < l.entries@.len() && l.entries@[i].is_file && l.entries@[i].name is None
}

/// Some listing among the first `n` of `ls` holds a file with an unreadable
/// name.
pub open spec fn any_listing_bad_upto(ls: Seq<DirListing>, n: int) -> bool {
    exists|j: int| 0 <= j < n && listing_bad(ls[j])
}

/// Some listing of `ls` holds a file with an unreadable name.
pub open spec fn any_listing_bad(ls: Seq<DirListing>) -> bool {
    any_listing_bad_upto(ls, ls.len() as int)
}

/// Some listing among the first `n` of `ls` contributes the page name `x`
/// under `suffix`.
pub open spec fn listings_have_upto(ls: Seq<DirListing>, n: int, suffix: Seq<char>, x: Seq<char>) -> bool {
    exists|j: int| 0 <= j < n && listing_has_page(ls[j], suffix, x)
}

/// Some listing of `ls` contributes the page name `x` under `suffix`.
pub open spec fn listings_have(ls: Seq<DirListing>, suffix: Seq<char>, x: Seq<char>) -> bool {
    listings_have_upto(ls, ls.len() as int, suffix, x)
}

/// Appending one string to a vector adds exactly its name to the names held.
proof fn lemma_has_name_snoc(v: Seq<String>, w: Seq<String>, sv: Seq<char>, x: Seq<char>)
    requires
        w.len() == v.len() + 1,
        forall|i: int| 0 <= i < v.len() ==> w[i] == v[i],
        w[v.len() as int]@ == sv,
    ensures
        has_name(w, x) <==> (has_name(v, x) || x == sv),
{
    if has_name(v, x) {
        let i = choose|i: int| 0 <= i < v.len() && v[i]@ == x;
        assert(w[i]@ == x);
    }
    if x == sv {
        assert(w[v.len() as int]@ == x);
    }
    if has_name(w, x) {
        let i = choose|i: int| 0 <= i < w.len() && w[i]@ == x;
        if i < v.len() {
            assert(v[i]@ == x);
        }
    }
}

/// Collect into `pages` every page name of `listing`: the name of each
/// regular file ending in `suffix`, with the suffix removed.  A regular file
/// whose name is not representable as text fails the whole enumeration,
/// identifying the directory.
pub fn append_pages(pages: &mut Vec<String>, listing: &DirListing, suffix: &str) -> (r: Result<
    (),
    Error,
>)
    ensures
        match r {
            Ok(_) => {
                &&& !listing_bad(*listing)
                &&& forall|x: Seq<char>|
                    has_name(final(pages)@, x) <==> (has_name(old(pages)@, x) || listing_has_page(
                        *listing,
                        suffix@,
                        x,
                    ))
            },
            Err(e) => {
                &&& listing_bad(*listing)
                &&& e matches Error::InvalidFilename { directory }
                &&& directory@ == listing.directory@
            },
        },
{
    let mut k: usize = 0;
    while k < listing.entries.len()
        invariant
            k <= listing.entries@.len(),
            forall|i: int|
                0 <= i < k ==> !(listing.entries@[i].is_file && listing.entries@[i].name is None),
            forall|x: Seq<char>|
                has_name(pages@, x) <==> (has_name(old(pages)@, x) || (exists|i: int|
                    0 <= i < k && entry_page_name(listing.entries@[i], suffix@, x))),
        decreases listing.entries@.len() - k,
    {
        let entry = &listing.entries[k];
        let ghost pages_before = pages@;
        if entry.is_file {
            match &entry.name {
                None => {
                    return Err(
                        Error::InvalidFilename { directory: listing.directory.clone_path() },
                    );
                },
                Some(name) => {
                    if ends_with_suffix(name.as_str(), suffix) {
                        let stripped = strip_suffix_str(name.as_str(), suffix);
                        let ghost sv = stripped@;
                        pages.push(stripped);
                        proof {
                            assert(entry_page_name(listing.entries@[k as int], suffix@, sv));
                            assert forall|x: Seq<char>|
                                has_name(pages@, x) <==> (has_name(old(pages)@, x) || (exists|i: int|
                                    0 <= i < k + 1 && entry_page_name(
                                        listing.entries@[i],
                                        suffix@,
                                        x,
                                    ))) by {
                                lemma_has_name_snoc(pages_before, pages@, sv, x);
                            }
                        }
                    } else {
                        proof {
                            assert(forall|x: Seq<char>|
                                !entry_page_name(listing.entries@[k as int], suffix@, x));
                        }
                    }
                },
            }
        } else {
            proof {
                assert(forall|x: Seq<char>|
                    !entry_page_name(listing.entries@[k as int], suffix@, x));
            }
        }
        k = k + 1;
    }
    Ok(())
}

/// The position in sorted `out` where `s` stands or belongs: either the index
/// of an equal element, or the index of the first greater one.
fn find_slot(out: &Vec<String>, s: &str) -> (r: (usize, bool))
    requires
        sorted_unique(out@),
    ensures
        r.0 <= out@.len(),
        r.1 ==> r.0 < out@.len() && out@[r.0 as int]@ == s@,
        !r.1 ==> forall|j: int| 0 <= j < r.0 ==> lex_lt(out@[j]@, s@),
        !r.1 ==> (r.0 == out@.len() || lex_lt(s@, out@[r.0 as int]@)),
{
    let mut i: usize = 0;
    while i < out.len()
        invariant
            i <= out@.len(),
            forall|j: int| 0 <= j < i ==> lex_lt(out@[j]@, s@),
        decreases out@.len() - i,
    {
        match str_compare(out[i].as_str(), s) {
            Cmp::Less => {
                i = i + 1;
            },
            Cmp::Equal => {
                return (i, true);
            },
            Cmp::Greater => {
                return (i, false);
            },
        }
    }
    (i, false)
}

/// Insert `s` into the sorted, duplicate-free `out`, keeping it sorted and
/// duplicate-free; an already-present name is dropped.
fn insert_name(out: &mut Vec<String>, s: String)
    requires
        sorted_unique(old(out)@),
    ensures
        sorted_unique(final(out)@),
        forall|x: Seq<char>|
            has_name(final(out)@, x) <==> (has_name(old(out)@, x) || x == s@),
{
    let (i, equal) = find_slot(out, s.as_str());
    if equal {
        proof {
            assert(has_name(out@, s@));
        }
        return;
    }
    proof {
        assert forall|j: int| 0 <= j < out@.len() implies out@[j]@ != s@ by {
            if j < i {
                lemma_lex_asymmetric(out@[j]@, s@);
            } else if j == i {
                lemma_lex_asymmetric(s@, out@[j]@);
            } else {
                lemma_lex_transitive(s@, out@[i as int]@, out@[j]@);
                lemma_lex_asymmetric(s@, out@[j]@);
            }
        }
    }
    let ghost before = out@;
    let ghost sv = s@;
    out.insert(i, s);
    proof {
        before.insert_ensures(i as int, s);
        assert(out@ == before.insert(i as int, s));
        assert forall|a: int, b: int| 0 <= a < b < out@.len() implies lex_lt(
            out@[a]@,
            out@[b]@,
        ) by {
            let n = before.len() as int;
            if a < i && b < i {
                assert(out@[a] == before[a] && out@[b] == before[b]);
            } else if a < i && b == i {
                assert(out@[a] == before[a] && out@[b]@ == sv);
            } else if a < i && b > i {
                assert(out@[a] == before[a] && out@[b] == before[b - 1]);
            } else if a == i && b > i {
                assert(out@[a]@ == sv && out@[b] == before[b - 1]);
                if i < b - 1 {
                    lemma_lex_transitive(sv, before[i as int]@, before[b - 1]@);
                }
            } else {
                assert(a > i && b > i);
                assert(out@[a] == before[a - 1] && out@[b] == before[b - 1]);
            }
        }
        assert forall|x: Seq<char>|
            has_name(out@, x) <==> (has_name(before, x) || x == sv) by {
            if has_name(before, x) {
                let j = choose|j: int| 0 <= j < before.len() && before[j]@ == x;
                if j < i {
                    assert(out@[j]@ == x);
                } else {
                    assert(out@[j + 1]@ == x);
                }
            }
            if x == sv {
                assert(out@[i as int]@ == x);
            }
            if has_name(out@, x) {
                let j = choose|j: int| 0 <= j < out@.len() && out@[j]@ == x;
                if j < i {
                    assert(before[j]@ == x);
                } else if j > i {
                    assert(before[j - 1]@ == x);
                }
            }
        }
    }
}

/// The names of `pages` in sorted order, without duplicates.
pub fn sort_unique_names(pages: Vec<String>) -> (r: Vec<String>)
    ensures
        sorted_unique(r@),
        forall|x: Seq<char>| has_name(r@, x) <==> has_name(pages@, x),
{
    let mut out: Vec<String> = Vec::new();
    let mut k: usize = 0;
    while k < pages.len()
        invariant
            k <= pages@.len(),
            sorted_unique(out@),
            forall|x: Seq<char>|
                has_name(out@, x) <==> (exists|i: int| 0 <= i < k && pages@[i]@ == x),
        decreases pages@.len() - k,
    {
        let ghost out_before = out@;
        insert_name(&mut out, pages[k].clone());
        proof {
            assert forall|x: Seq<char>|
                has_name(out@, x) <==> (exists|i: int| 0 <= i < k + 1 && pages@[i]@ == x) by {
                if has_name(out@, x) {
                    assert(has_name(out_before, x) || x == pages@[k as int]@);
                }
                if exists|i: int| 0 <= i < k + 1 && pages@[i]@ == x {
                    let i = choose|i: int| 0 <= i < k + 1 && pages@[i]@ == x;
                    if i < k {
                        assert(has_name(out_before, x));
                    }
                }
            }
        }
        k = k + 1;
    }
    proof {
        assert forall|x: Seq<char>| has_name(out@, x) <==> has_name(pages@, x) by {}
    }
    out
}

} // verus!
