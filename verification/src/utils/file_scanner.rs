//! Putting the files that a scan has found in order.

use crate::model::{media_files_view, MediaFile, MediaFileView};
use crate::text::{lowercased, to_chars, to_lowercase};
use vstd::prelude::*;
use vstd::string::*;

verus! {

/// Whether `a` stands before `b` in a dictionary that orders characters
/// by their code points, or is `b`.
pub open spec fn lex_le(a: Seq<char>, b: Seq<char>) -> bool
    decreases a.len(),
{
    if a.len() == 0 {
        true
    } else if b.len() == 0 {
        false
    } else if a[0] != b[0] {
        a[0] < b[0]
    } else {
        lex_le(a.skip(1), b.skip(1))
    }
}

/// The text by which a file is ordered: its name in lower case.
pub open spec fn sort_key(file: MediaFileView) -> Seq<char> {
    lowercased(file.filename)
}

/// Whether `sorted` holds the files of `files` ordered by name, files of
/// the same name in the order in which `files` has them. `from` gives for
/// each place in `sorted` the place in `files` that its file comes from.
pub open spec fn is_sorted_from(
    files: Seq<MediaFileView>,
    sorted: Seq<MediaFileView>,
    from: Seq<int>,
) -> bool {
    &&& sorted.len() == files.len()
    &&& from.len() == files.len()
    &&& forall|k: int| 0 <= k < from.len() ==> 0 <= #[trigger] from[k] < files.len()
    &&& forall|k: int| 0 <= k < sorted.len() ==> #[trigger] sorted[k] == files[from[k]]
    &&& forall|a: int, b: int|
        0 <= a < b < sorted.len() ==> {
            let first = sort_key(#[trigger] sorted[a]);
            let second = sort_key(#[trigger] sorted[b]);
            lex_le(first, second) && (first == second ==> from[a] < from[b])
        }
}

proof fn lemma_lex_total(a: Seq<char>, b: Seq<char>)
    ensures
        lex_le(a, b) || lex_le(b, a),
        lex_le(a, b) && lex_le(b, a) ==> a == b,
        lex_le(a, a),
    decreases a.len(),
{
    if a.len() > 0 && b.len() > 0 && a[0] == b[0] {
        lemma_lex_total(a.skip(1), b.skip(1));
        if lex_le(a, b) && lex_le(b, a) {
            assert(a =~= seq![a[0]] + a.skip(1));
            assert(b =~= seq![b[0]] + b.skip(1));
        }
    } else if a.len() == 0 && b.len() == 0 {
        assert(a =~= b);
    }
    if a.len() > 0 {
        lemma_lex_total(a.skip(1), a.skip(1));
    }
}

proof fn lemma_lex_transitive(a: Seq<char>, b: Seq<char>, c: Seq<char>)
    requires
        lex_le(a, b),
        lex_le(b, c),
    ensures
        lex_le(a, c),
    decreases a.len(),
{
    if a.len() > 0 && b.len() > 0 && c.len() > 0 && a[0] == b[0] && b[0] == c[0] {
        lemma_lex_transitive(a.skip(1), b.skip(1), c.skip(1));
    }
}

/// Tests whether `a` stands before `b` or is `b`.
pub fn lex_le_chars(a: &Vec<char>, b: &Vec<char>) -> (le: bool)
    ensures
        le == lex_le(a@, b@),
{
    let mut i: usize = 0;
    assert(a@.skip(0) =~= a@);
    assert(b@.skip(0) =~= b@);
    while i < a.len() && i < b.len()
        invariant
            i <= a.len(),
            i <= b.len(),
            lex_le(a@, b@) == lex_le(a@.skip(i as int), b@.skip(i as int)),
        decreases a.len() - i,
    {
        if a[i] != b[i] {
            return a[i] < b[i];
        }
        assert(a@.skip(i as int).skip(1) =~= a@.skip(i + 1));
        assert(b@.skip(i as int).skip(1) =~= b@.skip(i + 1));
        i += 1;
    }
    i == a.len()
}

/// Orders files by their names in lower case. Files whose names are the
/// same in lower case keep the order in which they were given.
pub fn sort_by_name(files: Vec<MediaFile>) -> (sorted: Vec<MediaFile>)
    ensures
        exists|from: Seq<int>|
            is_sorted_from(media_files_view(files@), media_files_view(sorted@), from),
{
    let ghost given = media_files_view(files@);
    let mut sorted: Vec<MediaFile> = Vec::new();
    let mut keys: Vec<Vec<char>> = Vec::new();
    let ghost mut from: Seq<int> = Seq::empty();
    let mut i: usize = 0;
    while i < files.len()
        invariant
            i <= files.len(),
            given == media_files_view(files@),
            sorted.len() == i,
            keys.len() == i,
            from.len() == i,
            forall|k: int| 0 <= k < i ==> 0 <= #[trigger] from[k] < i,
            forall|k: int| 0 <= k < i ==> (#[trigger] sorted[k])@ == given[from[k]],
            forall|k: int| 0 <= k < i ==> (#[trigger] keys[k])@ == sort_key(sorted[k]@),
            forall|a: int, b: int|
                0 <= a < b < i ==> lex_le(#[trigger] keys[a]@, #[trigger] keys[b]@) && (keys[a]@
                    == keys[b]@ ==> from[a] < from[b]),
        decreases files.len() - i,
    {
        let file = files[i].clone();
        let key = to_chars(to_lowercase(file.filename.as_str()).as_str());
        let mut at: usize = 0;
        while at < keys.len() && lex_le_chars(&keys[at], &key)
            invariant
                at <= keys.len(),
                forall|k: int| 0 <= k < at ==> lex_le(#[trigger] keys[k]@, key@),
            decreases keys.len() - at,
        {
            at += 1;
        }
        proof {
            assert forall|k: int| at <= k < keys.len() implies lex_le(key@, #[trigger] keys[k]@)
                && key@ != keys[k]@ by {
                lemma_lex_total(keys[at as int]@, key@);
                lemma_lex_total(key@, keys[at as int]@);
                if k > at {
                    lemma_lex_transitive(key@, keys[at as int]@, keys[k]@);
                    if key@ == keys[k]@ {
                        lemma_lex_total(keys[at as int]@, keys[k]@);
                    }
                }
            }
        }
        let ghost old_sorted = sorted@;
        let ghost old_keys = keys@;
        let ghost old_from = from;
        sorted.insert(at, file);
        keys.insert(at, key);
        proof {
            from = old_from.insert(at as int, i as int);
            assert forall|k: int| 0 <= k < i + 1 implies 0 <= #[trigger] from[k] < i + 1 by {
                if k > at {
                    assert(from[k] == old_from[k - 1]);
                } else if k < at {
                    assert(from[k] == old_from[k]);
                }
            }
            assert forall|k: int| 0 <= k < i + 1 implies (#[trigger] sorted[k])@ == given[from[k]]
                && keys[k]@ == sort_key(sorted[k]@) by {
                if k > at {
                    assert(sorted[k] == old_sorted[k - 1]);
                    assert(keys[k] == old_keys[k - 1]);
                    assert(from[k] == old_from[k - 1]);
                } else if k < at {
                    assert(sorted[k] == old_sorted[k]);
                    assert(keys[k] == old_keys[k]);
                    assert(from[k] == old_from[k]);
                }
            }
            assert forall|a: int, b: int| 0 <= a < b < i + 1 implies lex_le(
                #[trigger] keys[a]@,
                #[trigger] keys[b]@,
            ) && (keys[a]@ == keys[b]@ ==> from[a] < from[b]) by {
                let pa = if a > at {
                    a - 1
                } else {
                    a
                };
                let pb = if b > at {
                    b - 1
                } else {
                    b
                };
                if a != at {
                    assert(keys[a] == old_keys[pa]);
                    assert(from[a] == old_from[pa]);
                }
                if b != at {
                    assert(keys[b] == old_keys[pb]);
                    assert(from[b] == old_from[pb]);
                }
                if a == at {
                    assert(lex_le(key@, old_keys[pb]@) && key@ != old_keys[pb]@);
                } else if b == at {
                    assert(lex_le(old_keys[pa]@, key@));
                } else if a < at && b > at {
                    assert(lex_le(old_keys[pa]@, key@));
                    assert(lex_le(key@, old_keys[pb]@));
                    lemma_lex_transitive(old_keys[pa]@, key@, old_keys[pb]@);
                    if old_keys[pa]@ == old_keys[pb]@ {
                        lemma_lex_total(key@, old_keys[pb]@);
                    }
                }
            }
        }
        i += 1;
    }
    proof {
        assert(is_sorted_from(given, media_files_view(sorted@), from)) by {
            assert forall|a: int, b: int| 0 <= a < b < sorted.len() implies {
                let first = sort_key(#[trigger] media_files_view(sorted@)[a]);
                let second = sort_key(#[trigger] media_files_view(sorted@)[b]);
                lex_le(first, second) && (first == second ==> from[a] < from[b])
            } by {
                assert(keys[a]@ == sort_key(sorted[a]@));
                assert(keys[b]@ == sort_key(sorted[b]@));
            }
        }
    }
    sorted
}

} // verus!
