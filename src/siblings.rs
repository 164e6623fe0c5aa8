use vstd::prelude::*;

use crate::error::CommandError;
use crate::images::texts;
use crate::paths::{file_name_of, file_name_text, parent_of, parent_text};

verus! {

/// An entry of the parent directory, as enumeration found it.
#[derive(Debug, Clone)]
pub struct DirEntryInfo {
    /// The entry's full path.
    pub path: String,
    /// The entry's own name within the parent.
    pub name: String,
    pub is_dir: bool,
}

/// An entry of the parent that stands for the queried directory itself:
/// named like it, or with its very path.
pub open spec fn is_self_entry(self_name: Option<Seq<char>>, current: Seq<char>, e: DirEntryInfo) -> bool {
    self_name == Some(e.name@) || e.path@ == current
}

/// The paths of the directories among `es`, in order, leaving out the entry
/// that stands for the queried directory `current`, named `self_name`.
pub open spec fn sibling_paths(
    self_name: Option<Seq<char>>,
    current: Seq<char>,
    es: Seq<DirEntryInfo>,
) -> Seq<Seq<char>>
    decreases es.len(),
{
    if es.len() == 0 {
        Seq::empty()
    } else {
        let rest = sibling_paths(self_name, current, es.drop_last());
        let e = es.last();
        if e.is_dir && !is_self_entry(self_name, current, e) {
            rest.push(e.path@)
        } else {
            rest
        }
    }
}

/// Decides the directory whose entries are the siblings of `folder_path`,
/// given whether the path exists and its parent.
pub fn sibling_parent(folder_path: &String, exists: bool, parent: Option<String>) -> (r: Result<
    String,
    CommandError,
>)
    ensures
        !exists ==> (r matches Err(CommandError::PathNotFound(p)) && p@ == folder_path@),
        exists && parent is None ==> r matches Err(CommandError::NoParent),
        exists && parent is Some ==> (r matches Ok(q) && q@ == parent->0@),
{
    if !exists {
        return Err(CommandError::PathNotFound(folder_path.clone()));
    }
    match parent {
        None => Err(CommandError::NoParent),
        Some(q) => Ok(q),
    }
}

/// The directory to enumerate for the siblings of `folder_path`: fails with
/// `PathNotFound` when the path does not exist and with `NoParent` when it is
/// a root.
pub fn resolve_sibling_parent(folder_path: &String, exists: bool) -> (r: Result<
    String,
    CommandError,
>)
    ensures
        !exists ==> (r matches Err(CommandError::PathNotFound(p)) && p@ == folder_path@),
        exists && parent_of(folder_path@) is None ==> r matches Err(CommandError::NoParent),
        exists && folder_path@ == seq!['/'] ==> r matches Err(CommandError::NoParent),
        exists && parent_of(folder_path@) is Some ==> (r matches Ok(q) && q@ == parent_of(
            folder_path@,
        )->0),
{
    let parent = parent_text(folder_path.as_str());
    sibling_parent(folder_path, exists, parent)
}

/// Keeps the paths of the directories among `entries`, leaving out the one
/// named `self_name` and the one whose path is `current`.
pub fn siblings_among(
    self_name: &Option<String>,
    current: &String,
    entries: &Vec<DirEntryInfo>,
) -> (r: Vec<String>)
    ensures
        texts(r@) == sibling_paths(
            match self_name {
                Some(s) => Some(s@),
                None => None,
            },
            current@,
            entries@,
        ),
{
    let ghost own: Option<Seq<char>> = match self_name {
        Some(s) => Some(s@),
        None => None,
    };
    let mut r: Vec<String> = Vec::new();
    let mut i: usize = 0;
    while i < entries.len()
        invariant
            i <= entries@.len(),
            own == match self_name {
                Some(s) => Some(s@),
                None => None,
            },
            texts(r@) == sibling_paths(own, current@, entries@.subrange(0, i as int)),
        decreases entries@.len() - i,
    {
        let ghost before = r@;
        let e = &entries[i];
        let same_name = match self_name {
            Some(s) => *s == e.name,
            None => false,
        };
        let is_self = same_name || e.path == *current;
        if e.is_dir && !is_self {
            r.push(e.path.clone());
            assert(texts(r@) =~= texts(before).push(e.path@));
        }
        assert(entries@.subrange(0, i + 1).drop_last() =~= entries@.subrange(0, i as int));
        i = i + 1;
    }
    assert(entries@.subrange(0, entries@.len() as int) =~= entries@);
    r
}

/// The sibling directories of `folder_path` among the entries of its parent:
/// every directory but the one that is `folder_path` itself.
pub fn select_siblings(folder_path: &String, entries: &Vec<DirEntryInfo>) -> (r: Vec<String>)
    ensures
        texts(r@) == sibling_paths(file_name_of(folder_path@), folder_path@, entries@),
{
    let own = file_name_text(folder_path.as_str());
    siblings_among(&own, folder_path, entries)
}

/// Sibling selection keeps exactly the directories of the parent other than
/// the queried one: every returned path is that of a directory entry that
/// does not stand for the queried path, every such entry's path is returned,
/// and the queried path itself never is.
pub proof fn lemma_siblings_exclude_self(
    self_name: Option<Seq<char>>,
    current: Seq<char>,
    es: Seq<DirEntryInfo>,
)
    ensures
        !sibling_paths(self_name, current, es).contains(current),
        forall|p: Seq<char>| #[trigger] sibling_paths(self_name, current, es).contains(p) ==> exists|k: int|
            0 <= k < es.len() && (#[trigger] es[k]).is_dir && !is_self_entry(self_name, current, es[k])
                && es[k].path@ == p,
        forall|k: int|
            0 <= k < es.len() && (#[trigger] es[k]).is_dir && !is_self_entry(self_name, current, es[k])
                ==> sibling_paths(self_name, current, es).contains(es[k].path@),
    decreases es.len(),
{
    if es.len() > 0 {
        let init = es.drop_last();
        lemma_siblings_exclude_self(self_name, current, init);
        let rest = sibling_paths(self_name, current, init);
        let all = sibling_paths(self_name, current, es);
        assert forall|p: Seq<char>| #[trigger] all.contains(p) implies exists|k: int|
            0 <= k < es.len() && (#[trigger] es[k]).is_dir && !is_self_entry(self_name, current, es[k])
                && es[k].path@ == p by {
            if rest.contains(p) {
                let k = choose|k: int|
                    0 <= k < init.len() && (#[trigger] init[k]).is_dir && !is_self_entry(self_name, current, init[k]) && init[k].path@ == p;
                assert(es[k] == init[k]);
            } else {
                let i = choose|i: int| 0 <= i < all.len() && all[i] == p;
                assert(i == rest.len());
                assert(es[es.len() - 1] == es.last());
            }
        }
        assert forall|k: int|
            0 <= k < es.len() && (#[trigger] es[k]).is_dir && !is_self_entry(self_name, current, es[k])
                implies all.contains(es[k].path@) by {
            if k < es.len() - 1 {
                assert(init[k] == es[k]);
                let i = choose|i: int| 0 <= i < rest.len() && rest[i] == es[k].path@;
                assert(all[i] == rest[i]);
            } else {
                assert(all[all.len() - 1] == es[k].path@);
            }
        }
    }
}

} // verus!
