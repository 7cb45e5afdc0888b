//! Looking a document up by the path that a search result names.

use crate::contents::File;
use crate::vector::{document_path, point_text};
use qdrant_client::qdrant::ScoredPoint;
use vstd::prelude::*;
use vstd::string::StringExecFns;

verus! {

/// The text of the first document at `path`, if there is one.
pub open spec fn contents_at(files: Seq<File>, path: Seq<char>) -> Option<Seq<char>>
    decreases files.len(),
{
    if files.len() == 0 {
        None
    } else if files[0].path@ == path {
        Some(files[0].contents@)
    } else {
        contents_at(files.drop_first(), path)
    }
}

/// `contents_at` finds nothing exactly where no document is at the path, and
/// otherwise the text of the first that is.
pub proof fn lemma_contents_at(files: Seq<File>, path: Seq<char>)
    ensures
        contents_at(files, path) is None <==> forall|i: int|
            0 <= i < files.len() ==> (#[trigger] files[i]).path@ != path,
        contents_at(files, path) matches Some(text) ==> exists|i: int|
            0 <= i < files.len() && (#[trigger] files[i]).path@ == path && files[i].contents@
                == text && forall|j: int| 0 <= j < i ==> (#[trigger] files[j]).path@ != path,
    decreases files.len(),
{
    if files.len() > 0 {
        let rest = files.drop_first();
        lemma_contents_at(rest, path);
        assert(forall|i: int| 0 < i < files.len() ==> files[i] == rest[i - 1]);
        if files[0].path@ == path {
            assert(files[0].path@ == path && files[0].contents@ == contents_at(files, path)->0
                && forall|j: int| 0 <= j < 0 ==> (#[trigger] files[j]).path@ != path);
        } else {
            if contents_at(files, path) is None {
                assert forall|i: int| 0 <= i < files.len() implies (#[trigger] files[i]).path@
                    != path by {
                    if i > 0 {
                        assert(rest[i - 1].path@ != path);
                    }
                }
            } else {
                let text = contents_at(rest, path)->0;
                let at = choose|i: int|
                    0 <= i < rest.len() && (#[trigger] rest[i]).path@ == path && rest[i].contents@
                        == text && forall|j: int|
                        0 <= j < i ==> (#[trigger] rest[j]).path@ != path;
                assert(files[at + 1] == rest[at]);
                assert forall|j: int| 0 <= j < at + 1 implies (#[trigger] files[j]).path@
                    != path by {
                    if j > 0 {
                        assert(rest[j - 1].path@ != path);
                    }
                }
                assert(0 <= at + 1 < files.len() && files[at + 1].path@ == path && files[at
                    + 1].contents@ == text);
            }
        }
    }
}

/// The text of the document at the path `key`, compared letter for letter.
pub fn find(files: &Vec<File>, key: &str) -> (found: Option<String>)
    ensures
        found.deep_view() == contents_at(files@, key@),
{
    let wanted = String::from_str(key);
    let mut at: usize = 0;
    assert(files@.skip(0) == files@);
    while at < files.len()
        invariant
            at <= files.len(),
            wanted@ == key@,
            contents_at(files@, key@) == contents_at(files@.skip(at as int), key@),
        decreases files.len() - at,
    {
        let ghost rest = files@.skip(at as int);
        assert(rest[0] == files@[at as int]);
        assert(rest.drop_first() == files@.skip(at + 1));
        if files[at].path == wanted {
            return Some(files[at].contents.clone());
        }
        at += 1;
    }
    None
}

/// The text of the document that a search result belongs to: the one at the path that
/// the result's payload holds. There is none where the payload holds no path, or
/// no document is at it.
pub fn get_contents(files: &Vec<File>, result: &ScoredPoint) -> (found: Option<String>)
    ensures
        found.deep_view() == matched_contents(files@, *result),
{
    match point_text(result, "id") {
        Some(path) => find(files, path.as_str()),
        None => None,
    }
}

/// The text of the document that a search result belongs to.
pub open spec fn matched_contents(files: Seq<File>, result: ScoredPoint) -> Option<Seq<char>> {
    match document_path(result) {
        Some(path) => contents_at(files, path),
        None => None,
    }
}

} // verus!
