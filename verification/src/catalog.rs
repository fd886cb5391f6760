//! Preparing the catalog: file names become item names, and of each name
//! only the first occurrence stays.

use vstd::prelude::*;
use crate::rank::{contains_name, has_name};
use crate::text::texts;

verus! {

/// The catalog could not be made from the listing.
#[derive(Clone, Copy, Debug, PartialEq, Eq, Structural)]
pub struct CatalogUnavailable;

#[verifier::external_type_specification]
#[verifier::external_body]
pub struct ExRegexError(regex::Error);

/// Whether `regex::Regex::new` accepts `pattern`: the pattern is valid and
/// its compiled form stays within the default size limit. The compiler
/// consults nothing but the pattern.
pub uninterp spec fn regex_compiles(pattern: Seq<char>) -> bool;

/// The text that `regex::Regex::replace_all` returns for `text` when the
/// regular expression compiled from `pattern` has each of its matches
/// replaced by `replacement`.
pub uninterp spec fn regex_replace_all(
    pattern: Seq<char>,
    text: Seq<char>,
    replacement: Seq<char>,
) -> Seq<char>;

/// Compiles `pattern` with `regex::Regex::new` and calls
/// `Regex::replace_all` on `text`. Trusted: the call succeeds exactly where
/// the compiler accepts the pattern, the result is then the replaced text,
/// and the compiler's error is handed on otherwise.
#[verifier::external_body]
pub(crate) fn replace_all(pattern: &str, text: &str, replacement: &str) -> (r: Result<
    String,
    regex::Error,
>)
    ensures
        r is Ok <==> regex_compiles(pattern@),
        r matches Ok(s) ==> s@ == regex_replace_all(pattern@, text@, replacement@),
{
    let re = regex::Regex::new(pattern)?;
    Ok(re.replace_all(text, replacement).into_owned())
}

/// The pattern of the file name endings that are no part of an item's name.
pub open spec fn ending_pattern() -> Seq<char> {
    "\\.(patch|gitignore)"@
}

/// The item name that the file name `file` stands for.
pub open spec fn item_name(file: Seq<char>) -> Seq<char> {
    regex_replace_all(ending_pattern(), file, ""@)
}

/// The first occurrence of every name in `names`, in the order of `names`:
/// a name that occurred before is dropped.
pub open spec fn deduped(names: Seq<Seq<char>>) -> Seq<Seq<char>>
    decreases names.len(),
{
    if names.len() == 0 {
        names
    } else if has_name(names.drop_last(), names.last()) {
        deduped(names.drop_last())
    } else {
        deduped(names.drop_last()).push(names.last())
    }
}

/// `part` can be had from `whole` by leaving elements out.
pub open spec fn is_subsequence(part: Seq<Seq<char>>, whole: Seq<Seq<char>>) -> bool
    decreases whole.len(),
{
    if part.len() == 0 {
        true
    } else if whole.len() == 0 {
        false
    } else {
        ||| (part.last() == whole.last() && is_subsequence(part.drop_last(), whole.drop_last()))
        ||| is_subsequence(part, whole.drop_last())
    }
}

/// What the outcome of the replacement means for one file name: the item
/// name, or that the catalog cannot be read.
pub fn name_from(replaced: Result<String, regex::Error>) -> (r: Result<String, CatalogUnavailable>)
    ensures
        match replaced {
            Ok(s) => r == Ok::<String, CatalogUnavailable>(s),
            Err(_) => r is Err,
        },
{
    match replaced {
        Ok(s) => Ok(s),
        Err(_) => Err(CatalogUnavailable),
    }
}

/// Strips the endings `.patch` and `.gitignore` from a file name. Succeeds
/// exactly where the regex compiler accepts the ending pattern, whatever
/// the file name is.
pub fn strip_endings(file: &str) -> (r: Result<String, CatalogUnavailable>)
    ensures
        r is Ok <==> regex_compiles(ending_pattern()),
        r matches Ok(s) ==> s@ == item_name(file@),
{
    name_from(replace_all("\\.(patch|gitignore)", file, ""))
}

/// A name is among `names` with one more at the end if it is among `names`
/// or is the one added.
proof fn lemma_has_name_push(names: Seq<Seq<char>>, last: Seq<char>, name: Seq<char>)
    ensures
        has_name(names.push(last), name) == (has_name(names, name) || name == last),
{
    let more = names.push(last);
    if has_name(names, name) {
        let j = choose|j: int| 0 <= j < names.len() && #[trigger] names[j] == name;
        assert(more[j] == name);
    }
    if name == last {
        assert(more[names.len() as int] == name);
    }
    if has_name(more, name) {
        let j = choose|j: int| 0 <= j < more.len() && #[trigger] more[j] == name;
        if j < names.len() {
            assert(names[j] == name);
        }
    }
}

/// Dropping repetitions loses no name and adds none.
pub proof fn lemma_deduped_keeps_names(names: Seq<Seq<char>>, name: Seq<char>)
    ensures
        has_name(deduped(names), name) == has_name(names, name),
    decreases names.len(),
{
    if names.len() > 0 {
        let front = names.drop_last();
        let last = names.last();
        lemma_deduped_keeps_names(front, name);
        lemma_deduped_keeps_names(front, last);
        assert(names =~= front.push(last));
        lemma_has_name_push(front, last, name);
        lemma_has_name_push(deduped(front), last, name);
    }
}

/// After dropping repetitions no name occurs twice.
pub proof fn lemma_deduped_is_distinct(names: Seq<Seq<char>>)
    ensures
        deduped(names).no_duplicates(),
    decreases names.len(),
{
    if names.len() > 0 {
        let front = names.drop_last();
        let last = names.last();
        lemma_deduped_is_distinct(front);
        lemma_deduped_keeps_names(front, last);
        if !has_name(front, last) {
            let kept = deduped(front);
            let all = kept.push(last);
            assert forall|i: int, j: int|
                0 <= i < all.len() && 0 <= j < all.len() && i != j implies all[i] != all[j] by {
                if i < kept.len() && j < kept.len() {
                    assert(kept[i] != kept[j]);
                } else if i < kept.len() {
                    assert(kept[i] != last);
                } else {
                    assert(kept[j] != last);
                }
            }
        }
    }
}

/// Dropping repetitions keeps the order: what is left is a subsequence.
pub proof fn lemma_deduped_is_subsequence(names: Seq<Seq<char>>)
    ensures
        is_subsequence(deduped(names), names),
    decreases names.len(),
{
    if names.len() > 0 {
        let front = names.drop_last();
        lemma_deduped_is_subsequence(front);
        if !has_name(front, names.last()) {
            assert(deduped(names).drop_last() =~= deduped(front));
        }
    }
}

/// Keeps the first occurrence of every name and drops the later ones.
pub fn dedup(names: &Vec<String>) -> (r: Vec<String>)
    ensures
        texts(r@) == deduped(texts(names@)),
        texts(r@).no_duplicates(),
        is_subsequence(texts(r@), texts(names@)),
        forall|k: int|
            0 <= k < names@.len() ==> has_name(texts(r@), #[trigger] texts(names@)[k]),
{
    let mut out: Vec<String> = Vec::new();
    let mut i: usize = 0;
    let ghost all = texts(names@);
    assert(all.take(0) =~= Seq::<Seq<char>>::empty());
    assert(texts(out@) =~= Seq::<Seq<char>>::empty());
    while i < names.len()
        invariant
            0 <= i <= names.len(),
            all == texts(names@),
            texts(out@) == deduped(all.take(i as int)),
        decreases names.len() - i,
    {
        let ghost before = texts(out@);
        proof {
            assert(all.take(i + 1).drop_last() =~= all.take(i as int));
            assert(all.take(i + 1).last() == names@[i as int]@);
            lemma_deduped_keeps_names(all.take(i as int), names@[i as int]@);
        }
        if !contains_name(&out, &names[i]) {
            out.push(names[i].clone());
            assert(texts(out@) =~= before.push(names@[i as int]@));
        }
        i += 1;
    }
    proof {
        assert(all.take(names@.len() as int) =~= all);
        lemma_deduped_is_distinct(all);
        lemma_deduped_is_subsequence(all);
        assert forall|k: int| 0 <= k < names@.len() implies has_name(
            texts(out@),
            #[trigger] all[k],
        ) by {
            lemma_deduped_keeps_names(all, all[k]);
        }
    }
    out
}

/// The item names that a listing of file names stands for.
pub open spec fn catalog_of(files: Seq<Seq<char>>) -> Seq<Seq<char>> {
    deduped(files.map_values(|f: Seq<char>| item_name(f)))
}

/// Turns a listing of file names into the catalog: each name loses its
/// endings, then of each item name the first occurrence stays, so that the
/// catalog holds no name twice. An empty listing gives an empty catalog; any
/// other succeeds exactly where the regex compiler accepts the ending
/// pattern.
pub fn normalize_names(files: &Vec<String>) -> (r: Result<Vec<String>, CatalogUnavailable>)
    ensures
        r is Ok <==> files@.len() == 0 || regex_compiles(ending_pattern()),
        match r {
            Ok(names) => {
                &&& texts(names@) == catalog_of(texts(files@))
                &&& texts(names@).no_duplicates()
                &&& forall|k: int|
                    0 <= k < files@.len() ==> has_name(
                        texts(names@),
                        item_name(#[trigger] texts(files@)[k]),
                    )
            },
            Err(_) => files@.len() > 0,
        },
{
    let mut stripped: Vec<String> = Vec::new();
    let mut i: usize = 0;
    while i < files.len()
        invariant
            0 <= i <= files.len(),
            stripped@.len() == i,
            i > 0 ==> regex_compiles(ending_pattern()),
            forall|k: int| 0 <= k < i ==> (#[trigger] stripped@[k])@ == item_name(files@[k]@),
        decreases files.len() - i,
    {
        match strip_endings(files[i].as_str()) {
            Ok(name) => {
                stripped.push(name);
            },
            Err(e) => {
                return Err(e);
            },
        }
        i += 1;
    }
    assert(texts(stripped@) =~= texts(files@).map_values(|f: Seq<char>| item_name(f)));
    let names = dedup(&stripped);
    assert forall|k: int| 0 <= k < files@.len() implies has_name(
        texts(names@),
        item_name(#[trigger] texts(files@)[k]),
    ) by {
        assert(texts(stripped@)[k] == item_name(texts(files@)[k]));
    }
    Ok(names)
}

} // verus!
