//! The list of recently chosen note folders, oldest first.
use vstd::prelude::*;

use std::collections::VecDeque;
use std::path::PathBuf;

use crate::path;
use crate::path::paths_equal;

verus! {

/// How many recent folders are kept from one start to the next.
pub const MAX_RECENT_FOLDERS: usize = 10;

/// Whether one of `folders` is the same path as `p`.
pub open spec fn has_folder(folders: Seq<String>, p: Seq<char>) -> bool {
    exists|i: int| 0 <= i < folders.len() && path::same_path(#[trigger] folders[i]@, p)
}

/// The newest [`MAX_RECENT_FOLDERS`] entries of `s` (all of them when there are fewer).
pub open spec fn newest<A>(s: Seq<A>) -> Seq<A> {
    if s.len() > MAX_RECENT_FOLDERS {
        s.subrange(s.len() - MAX_RECENT_FOLDERS, s.len() as int)
    } else {
        s
    }
}

/// Of a list of folders, the most recent ones are kept, and as many of them
/// as the limit allows: the last entries stay last, in their order.
pub proof fn lemma_newest_keeps_latest<A>(s: Seq<A>)
    ensures
        newest(s).len() == if s.len() > MAX_RECENT_FOLDERS {
            MAX_RECENT_FOLDERS as int
        } else {
            s.len() as int
        },
        forall|i: int|
            0 <= i < newest(s).len() ==> #[trigger] newest(s)[newest(s).len() - 1 - i] == s[s.len() - 1 - i],
{
}

/// The texts of a list of folders.
pub open spec fn folder_texts(s: Seq<String>) -> Seq<Seq<char>> {
    s.map_values(|x: String| x@)
}

/// The folder paths that the JSON text `text` of the recent-folders cache
/// holds as a list of paths, or `None` when it holds no such list.
pub uninterp spec fn folders_in_cache(text: Seq<char>) -> Option<Seq<Seq<char>>>;

/// The JSON text that `serde_json` writes for the list of paths `folders`, or
/// `None` when it cannot write it.
pub uninterp spec fn cache_text_of(folders: Seq<Seq<char>>) -> Option<Seq<char>>;

/// Calls `serde_json::from_str::<VecDeque<PathBuf>>` on `text` and gives each
/// path back as text (serde reads a `PathBuf` only from UTF-8 text, so nothing
/// is lost). Claimed: the result is `folders_in_cache` of the text.
#[verifier::external_body]
pub(crate) fn parse_folder_cache(text: &str) -> (r: Option<Vec<String>>)
    ensures
        r is Some == folders_in_cache(text@) is Some,
        r matches Some(v) ==> folder_texts(v@) == folders_in_cache(text@)->0,
{
    serde_json::from_str::<VecDeque<PathBuf>>(text).ok().map(
        |v| v.into_iter().map(|p| p.to_string_lossy().into_owned()).collect(),
    )
}

/// Calls `serde_json::to_string` on the folders taken as a `VecDeque<PathBuf>`.
/// Claimed: the result is `cache_text_of` of the folders' texts. Whether it can
/// fail on such paths is left to the name.
#[verifier::external_body]
pub(crate) fn write_folder_cache(folders: &VecDeque<String>) -> (r: Option<String>)
    ensures
        r is Some == cache_text_of(folder_texts(folders@)) is Some,
        r matches Some(t) ==> t@ == cache_text_of(folder_texts(folders@))->0,
{
    let paths: VecDeque<PathBuf> = folders.iter().map(PathBuf::from).collect();
    serde_json::to_string(&paths).ok()
}

/// The recent folders that the cache text `text` holds, the newest
/// [`MAX_RECENT_FOLDERS`] of them; none when the text holds no list of paths.
pub fn recent_folders_from_cache(text: &str) -> (f: VecDeque<String>)
    ensures
        folder_texts(f@) == newest(
            match folders_in_cache(text@) {
                Some(s) => s,
                None => seq![],
            },
        ),
{
    let mut folders: VecDeque<String> = VecDeque::new();
    match parse_folder_cache(text) {
        None => {
            assert(folder_texts(folders@) =~= seq![]);
        },
        Some(v) => {
            let mut i: usize = 0;
            while i < v.len()
                invariant
                    i <= v@.len(),
                    folders@ == v@.subrange(0, i as int),
                decreases v@.len() - i,
            {
                folders.push_back(v[i].clone());
                i = i + 1;
                assert(folders@ =~= v@.subrange(0, i as int));
            }
            assert(folders@ =~= v@);
        },
    }
    let ghost all = folders@;
    trim_recent_folders(&mut folders);
    assert(folder_texts(folders@) =~= newest(folder_texts(all)));
    folders
}

/// The cache text for the folders `folders`: what `serde_json` writes for
/// them, or the empty text when it cannot.
pub fn cache_text_for(folders: &VecDeque<String>) -> (t: String)
    ensures
        t@ == match cache_text_of(folder_texts(folders@)) {
            Some(x) => x,
            None => seq![],
        },
{
    match write_folder_cache(folders) {
        Some(t) => t,
        None => String::new(),
    }
}

/// Drops the oldest folders until at most [`MAX_RECENT_FOLDERS`] are left.
pub fn trim_recent_folders(folders: &mut VecDeque<String>)
    ensures
        final(folders)@ == newest(old(folders)@),
        final(folders)@.len() <= MAX_RECENT_FOLDERS,
{
    let ghost orig = folders@;
    while folders.len() > MAX_RECENT_FOLDERS
        invariant
            orig.len() >= folders@.len() >= MAX_RECENT_FOLDERS || folders@ == orig,
            folders@ == orig.subrange(orig.len() - folders@.len(), orig.len() as int),
        decreases folders@.len(),
    {
        folders.pop_front();
    }
    proof {
        if orig.len() <= MAX_RECENT_FOLDERS {
            assert(folders@ =~= orig);
        }
    }
}

/// Whether one of `folders` is the same path as `p`.
pub fn contains_folder(folders: &VecDeque<String>, p: &str) -> (r: bool)
    ensures
        r == has_folder(folders@, p@),
{
    let mut i: usize = 0;
    while i < folders.len()
        invariant
            i <= folders@.len(),
            forall|k: int| 0 <= k < i ==> !path::same_path(#[trigger] folders@[k]@, p@),
        decreases folders@.len() - i,
    {
        if paths_equal(folders[i].as_str(), p) {
            return true;
        }
        i = i + 1;
    }
    false
}

/// Adds `p` as the newest folder, unless the same path is there already.
pub fn remember_folder(folders: &mut VecDeque<String>, p: String)
    ensures
        final(folders)@ == if has_folder(old(folders)@, p@) {
            old(folders)@
        } else {
            old(folders)@.push(p)
        },
{
    if !contains_folder(folders, p.as_str()) {
        folders.push_back(p);
    }
}

/// Takes the folder at `index` off the list; an index past the end changes nothing.
pub fn forget_folder(folders: &mut VecDeque<String>, index: usize)
    ensures
        final(folders)@ == if index < old(folders)@.len() {
            old(folders)@.remove(index as int)
        } else {
            old(folders)@
        },
{
    folders.remove(index);
}

/// Opens the folder `new_path`, which was found usable: it becomes the notes
/// folder and is remembered among the recent ones.
pub fn accept_folder(path: &mut Option<String>, folders: &mut VecDeque<String>, new_path: String)
    ensures
        *final(path) == Some(new_path),
        final(folders)@ == if has_folder(old(folders)@, new_path@) {
            old(folders)@
        } else {
            old(folders)@.push(new_path)
        },
{
    *path = Some(new_path.clone());
    remember_folder(folders, new_path);
}

} // verus!
