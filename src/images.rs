use vstd::prelude::*;

verus! {

/// What std's `str::to_lowercase` returns for a string: a function of its
/// characters alone.
pub uninterp spec fn lower_of(s: Seq<char>) -> Seq<char>;

/// Relies on `str::to_lowercase`: the lowercase form of `s`, which depends on
/// the characters of `s` alone.
#[verifier::external_body]
fn lowercase(s: &str) -> (r: String)
    ensures
        r@ == lower_of(s@),
{
    s.to_lowercase()
}

/// A directory entry as enumeration found it.
///
/// `extension` is the part of the file name after its last dot, as the
/// platform's path rules give it; `None` when the name has none or it is not
/// valid text.
#[derive(Debug, Clone)]
pub struct FileEntry {
    pub path: String,
    pub is_file: bool,
    pub extension: Option<String>,
}

/// The image formats that discovery recognises, in lowercase.
pub open spec fn supported_extension(e: Seq<char>) -> bool {
    ||| e == seq!['p', 'n', 'g']
    ||| e == seq!['j', 'p', 'g']
    ||| e == seq!['j', 'p', 'e', 'g']
    ||| e == seq!['g', 'i', 'f']
    ||| e == seq!['w', 'e', 'b', 'p']
}

/// An entry counts as an image when it is a regular file whose extension,
/// lowercased, is one of the supported formats.
pub open spec fn image_entry(e: FileEntry) -> bool {
    &&& e.is_file
    &&& e.extension is Some
    &&& supported_extension(lower_of(e.extension->0@))
}

/// The paths of the image entries of `es`, in the order of `es`.
pub open spec fn image_paths(es: Seq<FileEntry>) -> Seq<Seq<char>>
    decreases es.len(),
{
    if es.len() == 0 {
        Seq::empty()
    } else {
        let rest = image_paths(es.drop_last());
        if image_entry(es.last()) {
            rest.push(es.last().path@)
        } else {
            rest
        }
    }
}

/// The text of each string of `v`.
pub open spec fn texts(v: Seq<String>) -> Seq<Seq<char>> {
    v.map_values(|s: String| s@)
}

fn same_chars(s: &str, w: &Vec<char>) -> (r: bool)
    ensures
        r == (s@ == w@),
{
    let n = s.unicode_len();
    if n != w.len() {
        return false;
    }
    let mut i: usize = 0;
    while i < n
        invariant
            n == s@.len(),
            n == w@.len(),
            i <= n,
            forall|j: int| 0 <= j < i ==> s@[j] == w@[j],
        decreases n - i,
    {
        if s.get_char(i) != w[i] {
            return false;
        }
        i = i + 1;
    }
    assert(s@ =~= w@);
    true
}

/// Whether an already lowercased extension names a supported image format.
pub fn is_supported_extension(lowered: &str) -> (r: bool)
    ensures
        r == supported_extension(lowered@),
{
    same_chars(lowered, &vec!['p', 'n', 'g'])
        || same_chars(lowered, &vec!['j', 'p', 'g'])
        || same_chars(lowered, &vec!['j', 'p', 'e', 'g'])
        || same_chars(lowered, &vec!['g', 'i', 'f'])
        || same_chars(lowered, &vec!['w', 'e', 'b', 'p'])
}

/// Whether `entry` is an image file, comparing its extension without regard
/// to case.
pub fn is_image_entry(entry: &FileEntry) -> (r: bool)
    ensures
        r == image_entry(*entry),
{
    if !entry.is_file {
        return false;
    }
    match &entry.extension {
        None => false,
        Some(ext) => {
            let lowered = lowercase(ext.as_str());
            is_supported_extension(lowered.as_str())
        },
    }
}

/// Keeps the paths of the image files among `entries`, in their order.
///
/// Serves both the shallow listing (the entries of one directory) and the
/// recursive one (every file reached below a directory).
pub fn select_images(entries: &Vec<FileEntry>) -> (r: Vec<String>)
    ensures
        texts(r@) == image_paths(entries@),
{
    let mut r: Vec<String> = Vec::new();
    let mut i: usize = 0;
    while i < entries.len()
        invariant
            i <= entries@.len(),
            texts(r@) == image_paths(entries@.subrange(0, i as int)),
        decreases entries@.len() - i,
    {
        let ghost before = r@;
        let keep = is_image_entry(&entries[i]);
        if keep {
            r.push(entries[i].path.clone());
            assert(texts(r@) =~= texts(before).push(entries@[i as int].path@));
        }
        assert(entries@.subrange(0, i + 1).drop_last() =~= entries@.subrange(0, i as int));
        i = i + 1;
    }
    assert(entries@.subrange(0, entries@.len() as int) =~= entries@);
    r
}

/// Image listing keeps exactly the image files: every returned path is that
/// of an entry that is a file with a supported extension in any case, and
/// every such entry's path is returned.
pub proof fn lemma_image_paths_exact(es: Seq<FileEntry>)
    ensures
        forall|p: Seq<char>| #[trigger] image_paths(es).contains(p) ==> exists|k: int|
            0 <= k < es.len() && image_entry(#[trigger] es[k]) && es[k].path@ == p,
        forall|k: int|
            0 <= k < es.len() && image_entry(#[trigger] es[k]) ==> image_paths(es).contains(
                es[k].path@,
            ),
    decreases es.len(),
{
    if es.len() > 0 {
        let init = es.drop_last();
        lemma_image_paths_exact(init);
        let rest = image_paths(init);
        let all = image_paths(es);
        assert forall|p: Seq<char>| #[trigger] all.contains(p) implies exists|k: int|
            0 <= k < es.len() && image_entry(#[trigger] es[k]) && es[k].path@ == p by {
            if rest.contains(p) {
                let k = choose|k: int| 0 <= k < init.len() && image_entry(#[trigger] init[k]) && init[k].path@ == p;
                assert(es[k] == init[k]);
            } else {
                let i = choose|i: int| 0 <= i < all.len() && all[i] == p;
                assert(i == rest.len());
                assert(es[es.len() - 1] == es.last());
            }
        }
        assert forall|k: int| 0 <= k < es.len() && image_entry(#[trigger] es[k]) implies all.contains(
            es[k].path@,
        ) by {
            if k < es.len() - 1 {
                assert(init[k] == es[k]);
                let i = choose|i: int| 0 <= i < rest.len() && rest[i] == es[k].path@;
                assert(all[i] == rest[i]);
            } else {
                assert(all[all.len() - 1] == es[k].path@);
            }
        }
    }
}

/// Placeholder for thumbnail generation. Resizing is a call into an image
/// codec made by the application between a file read and a file write, so
/// this library gives the type no operations.
pub struct ImageProcessor;

} // verus!
