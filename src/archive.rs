use vstd::prelude::*;

use crate::error::CommandError;
use crate::images::{image_entry, is_image_entry, FileEntry};

verus! {

#[verifier::external_type_specification]
#[verifier::external_body]
#[verifier::reject_recursive_types(R)]
pub struct ExZipArchive<R>(zip::ZipArchive<R>);

#[verifier::external_type_specification]
#[verifier::external_body]
#[verifier::reject_recursive_types(T)]
pub struct ExCursor<T>(std::io::Cursor<T>);

#[verifier::external_type_specification]
#[verifier::external_body]
pub struct ExZipError(zip::result::ZipError);

/// An archive opened over bytes held in memory.
pub type MemoryArchive = zip::ZipArchive<std::io::Cursor<Vec<u8>>>;

/// Whether the bytes hold a zip container that opens: its central directory
/// is found and parses.
pub uninterp spec fn zip_opens(bytes: Seq<u8>) -> bool;

/// The entry names that the central directory of the zip container held in
/// `bytes` lists, in order.
pub uninterp spec fn stored_names(bytes: Seq<u8>) -> Seq<Seq<char>>;

/// The decompressed contents of the entries of the zip container held in
/// `bytes`, in the same order.
pub uninterp spec fn stored_contents(bytes: Seq<u8>) -> Seq<Seq<u8>>;

/// Whether each entry of the zip container held in `bytes` opens and
/// decompresses to its end, in the same order.
pub uninterp spec fn stored_reads(bytes: Seq<u8>) -> Seq<bool>;

/// The names of an opened archive's entries, in the order of its central
/// directory.
pub uninterp spec fn listed_names(a: zip::ZipArchive<std::io::Cursor<Vec<u8>>>) -> Seq<Seq<char>>;

/// The decompressed contents of an opened archive's entries, in the same
/// order.
pub uninterp spec fn listed_contents(a: zip::ZipArchive<std::io::Cursor<Vec<u8>>>) -> Seq<Seq<u8>>;

/// Whether each entry of an opened archive opens and decompresses to its
/// end, in the same order.
pub uninterp spec fn listed_reads(a: zip::ZipArchive<std::io::Cursor<Vec<u8>>>) -> Seq<bool>;

/// Relies on `zip::ZipArchive::new`: reads the central directory of the
/// archive held in `bytes`, or fails when it is not a readable zip container.
#[verifier::external_body]
fn open_archive(bytes: Vec<u8>) -> (r: Result<MemoryArchive, zip::result::ZipError>)
    ensures
        r is Ok <==> zip_opens(bytes@),
        r matches Ok(a) ==> listed_names(a) == stored_names(bytes@),
        r matches Ok(a) ==> listed_contents(a) == stored_contents(bytes@),
        r matches Ok(a) ==> listed_reads(a) == stored_reads(bytes@),
{
    zip::ZipArchive::new(std::io::Cursor::new(bytes))
}

/// Relies on `zip::ZipArchive::len`: the number of entries.
#[verifier::external_body]
fn entry_count(a: &MemoryArchive) -> (r: usize)
    ensures
        r == listed_names(*a).len(),
        r == listed_contents(*a).len(),
        r == listed_reads(*a).len(),
{
    a.len()
}

/// Relies on `zip::ZipArchive::name_for_index`: the name of entry `i`,
/// decoded as UTF-8 or else as CP437. For an index in range the decoding
/// cannot fail: bytes that are not UTF-8 hold one at 0x80 or above, and then
/// the CP437 table maps every byte. An index past the end is reported as
/// `FileNotFound`, as `by_index` reports it.
#[verifier::external_body]
fn entry_name(a: &MemoryArchive, i: usize) -> (r: Result<String, zip::result::ZipError>)
    requires
        i < listed_names(*a).len(),
    ensures
        r is Ok,
        r matches Ok(s) ==> s@ == listed_names(*a)[i as int],
{
    match a.name_for_index(i) {
        Some(Ok(name)) => Ok(name.into_owned()),
        Some(Err(e)) => Err(e),
        None => Err(zip::result::ZipError::FileNotFound),
    }
}

/// Relies on `zip::ZipArchive::by_index` and the `Read` impl of the entry it
/// returns: the whole decompressed content of entry `i`. Reading moves the
/// underlying cursor only; the entries stay as they were.
#[verifier::external_body]
fn entry_data(a: &mut MemoryArchive, i: usize) -> (r: Result<Vec<u8>, zip::result::ZipError>)
    requires
        i < listed_names(*old(a)).len(),
        i < listed_reads(*old(a)).len(),
        i < listed_contents(*old(a)).len(),
    ensures
        listed_names(*final(a)) == listed_names(*old(a)),
        listed_contents(*final(a)) == listed_contents(*old(a)),
        listed_reads(*final(a)) == listed_reads(*old(a)),
        r is Ok <==> listed_reads(*old(a))[i as int],
        r matches Ok(v) ==> v@ == listed_contents(*old(a))[i as int],
{
    let mut file = a.by_index(i)?;
    let mut data: Vec<u8> = Vec::new();
    std::io::Read::read_to_end(&mut file, &mut data)?;
    Ok(data)
}

/// Relies on the `Display` impl of `zip::result::ZipError`: its message.
#[verifier::external_body]
fn zip_error_text(e: &zip::result::ZipError) -> (r: String) {
    e.to_string()
}

/// One entry of an archive: its stored name and, for a file, its content.
#[derive(Debug, Clone)]
pub struct RawEntry {
    pub name: String,
    pub data: Vec<u8>,
}

/// What extraction writes under the destination, at a path relative to it.
#[derive(Debug, Clone)]
pub enum ExtractStep {
    CreateDir { dir: String },
    WriteFile { file: String, data: Vec<u8> },
}

pub open spec fn is_separator(c: char) -> bool {
    c == '/' || c == '\\'
}

/// An entry name denotes a directory when it ends with a separator.
pub open spec fn names_dir(name: Seq<char>) -> bool {
    name.len() > 0 && is_separator(name.last())
}

pub open spec fn is_dot(comp: Seq<char>) -> bool {
    comp.len() == 1 && comp[0] == '.'
}

pub open spec fn is_dot_dot(comp: Seq<char>) -> bool {
    comp.len() == 2 && comp[0] == '.' && comp[1] == '.'
}

/// How a path component moves the depth below the destination: `..` climbs
/// one level, an empty component or `.` stays, any other descends one.
pub open spec fn depth_change(comp: Seq<char>) -> int {
    if is_dot_dot(comp) {
        -1
    } else if comp.len() == 0 || is_dot(comp) {
        0
    } else {
        1
    }
}

/// Reading the characters of `rest`, starting `depth` levels below the
/// destination with `comp` the part of the current component read so far,
/// the walk never climbs above the destination.
pub open spec fn stays_within(rest: Seq<char>, depth: int, comp: Seq<char>) -> bool
    decreases rest.len(),
{
    if rest.len() == 0 {
        depth + depth_change(comp) >= 0
    } else if is_separator(rest[0]) {
        depth + depth_change(comp) >= 0 && stays_within(
            rest.drop_first(),
            depth + depth_change(comp),
            Seq::empty(),
        )
    } else {
        stays_within(rest.drop_first(), depth, comp.push(rest[0]))
    }
}

/// A character that no safe entry name holds: `:`, which on some platforms
/// starts a drive prefix or names a stream, and NUL, which ends a path.
pub open spec fn is_forbidden(c: char) -> bool {
    c == ':' || c == '\0'
}

/// An entry name is safe to extract when it is relative, holds no forbidden
/// character and, resolved component by component, never leaves the
/// destination.
///
/// The rule is deliberately stricter than what escapes on Unix: `\` counts
/// as a separator and `:` and NUL are refused, because on Windows `x\..\..\y`
/// climbs out of the destination and `C:y` names another drive. So names
/// such as `a:b.png` or `x\..\..\y`, harmless on Unix, are refused too.
pub open spec fn safe_entry_name(name: Seq<char>) -> bool {
    &&& !(name.len() > 0 && is_separator(name[0]))
    &&& forall|k: int| 0 <= k < name.len() ==> !is_forbidden(#[trigger] name[k])
    &&& stays_within(name, 0, Seq::empty())
}

/// The step that extracts entry `e`, as a relation between the two.
pub open spec fn step_of(s: ExtractStep, e: RawEntry) -> bool {
    if names_dir(e.name@) {
        s matches ExtractStep::CreateDir { dir } && dir@ == e.name@
    } else {
        s matches ExtractStep::WriteFile { file, data } && file@ == e.name@ && data@ == e.data@
    }
}

/// Whether an entry name may be extracted without leaving the destination.
pub fn is_safe_entry_name(name: &str) -> (r: bool)
    ensures
        r == safe_entry_name(name@),
{
    let n = name.unicode_len();
    if n > 0 {
        let c = name.get_char(0);
        if c == '/' || c == '\\' {
            return false;
        }
    }
    // kind of the current component: 0 empty, 1 ".", 2 "..", 3 anything else
    let mut kind: u8 = 0;
    let mut depth: usize = 0;
    let ghost mut comp: Seq<char> = Seq::empty();
    let mut i: usize = 0;
    assert(name@.skip(0) =~= name@);
    while i < n
        invariant
            n == name@.len(),
            i <= n,
            depth <= i,
            !(n > 0 && is_separator(name@[0])),
            forall|j: int| 0 <= j < i ==> !is_forbidden(#[trigger] name@[j]),
            safe_entry_name(name@) == ((forall|k: int|
                0 <= k < name@.len() ==> !is_forbidden(#[trigger] name@[k])) && stays_within(
                name@.skip(i as int),
                depth as int,
                comp,
            )),
            kind == 0 <==> comp.len() == 0,
            kind == 1 <==> is_dot(comp),
            kind == 2 <==> is_dot_dot(comp),
            kind <= 3,
        decreases n - i,
    {
        let c = name.get_char(i);
        if c == ':' || c == '\0' {
            return false;
        }
        assert(name@.skip(i as int).drop_first() =~= name@.skip(i + 1));
        if c == '/' || c == '\\' {
            if kind == 2 {
                if depth == 0 {
                    return false;
                }
                depth = depth - 1;
            } else if kind == 3 {
                depth = depth + 1;
            }
            kind = 0;
            proof {
                comp = Seq::empty();
            }
        } else {
            proof {
                comp = comp.push(c);
            }
            if kind == 0 && c == '.' {
                kind = 1;
            } else if kind == 1 && c == '.' {
                kind = 2;
            } else {
                kind = 3;
            }
        }
        i = i + 1;
    }
    assert(name@.skip(n as int).len() == 0);
    !(kind == 2 && depth == 0)
}

/// Every entry named in `names` that is not a directory reads to its end,
/// as `reads` tells for each entry.
pub open spec fn files_read(names: Seq<Seq<char>>, reads: Seq<bool>) -> bool {
    forall|k: int| 0 <= k < names.len() && !names_dir(#[trigger] names[k]) ==> reads[k]
}

/// `v` holds the entries with `names` and `contents`: each name, and the
/// content of each entry that is not a directory.
pub open spec fn entries_of(names: Seq<Seq<char>>, contents: Seq<Seq<u8>>, v: Seq<RawEntry>) -> bool {
    &&& v.len() == names.len()
    &&& forall|k: int|
        0 <= k < v.len() ==> {
            &&& #[trigger] v[k].name@ == names[k]
            &&& names_dir(v[k].name@) ==> v[k].data@.len() == 0
            &&& !names_dir(v[k].name@) ==> v[k].data@ == contents[k]
        }
}

/// Reads every entry of the archive, in order: the name of each, and the
/// content of each that is not a directory. Fails with `ArchiveFormat`
/// exactly when some such content does not read.
pub fn read_entries(a: &mut MemoryArchive) -> (r: Result<Vec<RawEntry>, CommandError>)
    ensures
        listed_names(*final(a)) == listed_names(*old(a)),
        listed_contents(*final(a)) == listed_contents(*old(a)),
        listed_reads(*final(a)) == listed_reads(*old(a)),
        r is Ok <==> files_read(listed_names(*old(a)), listed_reads(*old(a))),
        r matches Ok(v) ==> entries_of(listed_names(*old(a)), listed_contents(*old(a)), v@),
        r matches Err(e) ==> e is ArchiveFormat,
{
    let n = entry_count(a);
    let ghost names = listed_names(*a);
    let ghost contents = listed_contents(*a);
    let ghost reads = listed_reads(*a);
    let mut v: Vec<RawEntry> = Vec::new();
    let mut i: usize = 0;
    while i < n
        invariant
            n == names.len(),
            n == contents.len(),
            n == reads.len(),
            names == listed_names(*old(a)),
            contents == listed_contents(*old(a)),
            reads == listed_reads(*old(a)),
            names == listed_names(*a),
            contents == listed_contents(*a),
            reads == listed_reads(*a),
            i <= n,
            v@.len() == i,
            forall|k: int|
                0 <= k < i && !names_dir(#[trigger] names[k]) ==> reads[k],
            forall|k: int|
                0 <= k < i ==> {
                    &&& #[trigger] v@[k].name@ == names[k]
                    &&& names_dir(v@[k].name@) ==> v@[k].data@.len() == 0
                    &&& !names_dir(v@[k].name@) ==> v@[k].data@ == contents[k]
                },
        decreases n - i,
    {
        let name = match entry_name(a, i) {
            Ok(s) => s,
            Err(e) => {
                return Err(CommandError::ArchiveFormat(zip_error_text(&e)));
            },
        };
        let dir = names_directory(name.as_str());
        let data = if dir {
            Vec::new()
        } else {
            match entry_data(a, i) {
                Ok(d) => d,
                Err(e) => {
                    assert(!files_read(names, reads)) by {
                        assert(!names_dir(names[i as int]));
                    }
                    return Err(CommandError::ArchiveFormat(zip_error_text(&e)));
                },
            }
        };
        v.push(RawEntry { name, data });
        i = i + 1;
    }
    Ok(v)
}

/// Whether an entry name denotes a directory.
pub fn names_directory(name: &str) -> (r: bool)
    ensures
        r == names_dir(name@),
{
    let n = name.unicode_len();
    if n == 0 {
        false
    } else {
        let c = name.get_char(n - 1);
        c == '/' || c == '\\'
    }
}

/// Turns the entries of an archive into the steps that extract them, one
/// step per entry in the same order; fails on the first entry whose name
/// would leave the destination, so that nothing is written for such an
/// archive.
pub fn plan_extraction(entries: &Vec<RawEntry>) -> (r: Result<Vec<ExtractStep>, CommandError>)
    ensures
        r is Ok <==> forall|k: int| 0 <= k < entries@.len() ==> safe_entry_name(#[trigger] entries@[k].name@),
        r matches Ok(steps) ==> {
            &&& steps@.len() == entries@.len()
            &&& forall|k: int| 0 <= k < steps@.len() ==> step_of(#[trigger] steps@[k], entries@[k])
        },
        r matches Err(e) ==> exists|k: int|
            0 <= k < entries@.len() && !safe_entry_name(#[trigger] entries@[k].name@)
                && (forall|j: int| 0 <= j < k ==> safe_entry_name(#[trigger] entries@[j].name@))
                && e == CommandError::UnsafeEntry(entries@[k].name),
{
    let mut steps: Vec<ExtractStep> = Vec::new();
    let mut i: usize = 0;
    while i < entries.len()
        invariant
            i <= entries@.len(),
            steps@.len() == i,
            forall|k: int| 0 <= k < i ==> safe_entry_name(#[trigger] entries@[k].name@),
            forall|k: int| 0 <= k < i ==> step_of(#[trigger] steps@[k], entries@[k]),
        decreases entries@.len() - i,
    {
        let e = &entries[i];
        if !is_safe_entry_name(e.name.as_str()) {
            return Err(CommandError::UnsafeEntry(e.name.clone()));
        }
        let step = if names_directory(e.name.as_str()) {
            ExtractStep::CreateDir { dir: e.name.clone() }
        } else {
            ExtractStep::WriteFile { file: e.name.clone(), data: e.data.clone() }
        };
        steps.push(step);
        i = i + 1;
    }
    Ok(steps)
}

/// The path, relative to the destination, that a step writes.
pub open spec fn step_path(s: ExtractStep) -> Seq<char> {
    match s {
        ExtractStep::CreateDir { dir } => dir@,
        ExtractStep::WriteFile { file, .. } => file@,
    }
}

/// `steps` extract the archive whose entries have `names` and `contents`:
/// one step per entry, in order, each at the entry's own (safe) name, a
/// directory for a directory entry and the entry's content for any other.
pub open spec fn archive_extraction(
    names: Seq<Seq<char>>,
    contents: Seq<Seq<u8>>,
    steps: Seq<ExtractStep>,
) -> bool {
    &&& steps.len() == names.len()
    &&& forall|k: int|
        0 <= k < steps.len() ==> {
            &&& safe_entry_name(names[k])
            &&& step_path(#[trigger] steps[k]) == names[k]
            &&& if names_dir(names[k]) {
                steps[k] is CreateDir
            } else {
                steps[k] matches ExtractStep::WriteFile { data, .. } && data@ == contents[k]
            }
        }
}

/// The paths at which `steps` write files.
pub open spec fn written_files(steps: Seq<ExtractStep>) -> Set<Seq<char>> {
    Set::new(|p: Seq<char>| exists|k: int| 0 <= k < steps.len() && steps[k] is WriteFile && p == step_path(#[trigger] steps[k]))
}

/// Extracting an archive whose entries are all regular files writes exactly
/// one file per entry name, each with that entry's content.
pub proof fn lemma_extraction_round_trip(
    names: Seq<Seq<char>>,
    contents: Seq<Seq<u8>>,
    steps: Seq<ExtractStep>,
)
    requires
        archive_extraction(names, contents, steps),
        forall|k: int| 0 <= k < names.len() ==> !names_dir(#[trigger] names[k]),
    ensures
        written_files(steps) == names.to_set(),
        forall|k: int|
            0 <= k < steps.len() ==> (#[trigger] steps[k] matches ExtractStep::WriteFile { file, data }
                && file@ == names[k] && data@ == contents[k]),
{
    assert forall|p: Seq<char>| written_files(steps).contains(p) implies names.to_set().contains(p) by {
        let k = choose|k: int| 0 <= k < steps.len() && steps[k] is WriteFile && p == step_path(#[trigger] steps[k]);
        assert(names[k] == p);
    }
    assert forall|p: Seq<char>| names.to_set().contains(p) implies written_files(steps).contains(p) by {
        let k = choose|k: int| 0 <= k < names.len() && names[k] == p;
        assert(!names_dir(names[k]));
        assert(steps[k] is WriteFile && p == step_path(steps[k]));
    }
    assert(written_files(steps) =~= names.to_set());
}

/// Every name of `names` is safe to extract.
pub open spec fn names_safe(names: Seq<Seq<char>>) -> bool {
    forall|k: int| 0 <= k < names.len() ==> safe_entry_name(#[trigger] names[k])
}

/// `k` is the first name of `names` that is not safe to extract.
pub open spec fn first_unsafe(names: Seq<Seq<char>>, k: int) -> bool {
    &&& 0 <= k < names.len()
    &&& !safe_entry_name(names[k])
    &&& forall|j: int| 0 <= j < k ==> safe_entry_name(#[trigger] names[j])
}

/// What planning the extraction of the entries with `names`, `contents`
/// and `reads` gives: `ArchiveFormat` when a file entry does not read, else
/// `UnsafeEntry` with the first name that would leave the destination, else
/// the steps that extract every entry.
pub open spec fn planned(
    names: Seq<Seq<char>>,
    contents: Seq<Seq<u8>>,
    reads: Seq<bool>,
    r: Result<Vec<ExtractStep>, CommandError>,
) -> bool {
    if !files_read(names, reads) {
        r matches Err(CommandError::ArchiveFormat(_))
    } else if !names_safe(names) {
        r matches Err(CommandError::UnsafeEntry(name)) && exists|k: int|
            first_unsafe(names, k) && name@ == #[trigger] names[k]
    } else {
        r matches Ok(steps) && archive_extraction(names, contents, steps@)
    }
}

/// Opens archives held in memory and plans their extraction.
pub struct ArchiveManager;

impl ArchiveManager {
    /// Plans the extraction of every entry of `a`. Fails with `ArchiveFormat`
    /// when an entry cannot be read, and with `UnsafeEntry` when an entry
    /// name would leave the destination.
    pub fn plan_from_archive(a: &mut MemoryArchive) -> (r: Result<Vec<ExtractStep>, CommandError>)
        ensures
            listed_names(*final(a)) == listed_names(*old(a)),
            planned(listed_names(*old(a)), listed_contents(*old(a)), listed_reads(*old(a)), r),
    {
        let ghost names = listed_names(*a);
        let ghost contents = listed_contents(*a);
        let entries = match read_entries(a) {
            Ok(v) => v,
            Err(e) => {
                return Err(e);
            },
        };
        let r = plan_extraction(&entries);
        proof {
            assert(names_safe(names) <==> forall|k: int|
                0 <= k < entries@.len() ==> safe_entry_name(#[trigger] entries@[k].name@)) by {
                if names_safe(names) {
                    assert forall|k: int| 0 <= k < entries@.len() implies safe_entry_name(
                        #[trigger] entries@[k].name@,
                    ) by {
                        assert(entries@[k].name@ == names[k]);
                    }
                }
                if forall|k: int|
                    0 <= k < entries@.len() ==> safe_entry_name(#[trigger] entries@[k].name@) {
                    assert forall|k: int| 0 <= k < names.len() implies safe_entry_name(
                        #[trigger] names[k],
                    ) by {
                        assert(entries@[k].name@ == names[k]);
                        assert(safe_entry_name(entries@[k].name@));
                    }
                }
            }
            if r is Ok {
                let steps = r->Ok_0;
                assert forall|k: int| 0 <= k < steps@.len() implies {
                    &&& safe_entry_name(names[k])
                    &&& step_path(#[trigger] steps@[k]) == names[k]
                    &&& if names_dir(names[k]) {
                        steps@[k] is CreateDir
                    } else {
                        steps@[k] matches ExtractStep::WriteFile { data, .. } && data@ == contents[k]
                    }
                } by {
                    assert(step_of(steps@[k], entries@[k]));
                    assert(entries@[k].name@ == names[k]);
                    assert(safe_entry_name(entries@[k].name@));
                }
            } else {
                let k = choose|k: int|
                    0 <= k < entries@.len() && !safe_entry_name(#[trigger] entries@[k].name@)
                        && (forall|j: int| 0 <= j < k ==> safe_entry_name(#[trigger] entries@[j].name@))
                        && r->Err_0 == CommandError::UnsafeEntry(entries@[k].name);
                assert(entries@[k].name@ == names[k]);
                assert forall|j: int| 0 <= j < k implies safe_entry_name(#[trigger] names[j]) by {
                    assert(entries@[j].name@ == names[j]);
                    assert(safe_entry_name(entries@[j].name@));
                }
                assert(first_unsafe(names, k));
            }
        }
        r
    }

    /// Opens the zip container held in `archive` and plans its extraction.
    /// Fails with `ArchiveFormat` when the bytes are not a readable
    /// container or a file entry cannot be read, and with `UnsafeEntry` when
    /// an entry name would leave the destination; otherwise the steps
    /// extract every entry of it.
    pub fn plan_archive(archive: Vec<u8>) -> (r: Result<Vec<ExtractStep>, CommandError>)
        ensures
            !zip_opens(archive@) ==> r matches Err(CommandError::ArchiveFormat(_)),
            zip_opens(archive@) ==> planned(
                stored_names(archive@),
                stored_contents(archive@),
                stored_reads(archive@),
                r,
            ),
    {
        let mut a = match open_archive(archive) {
            Ok(a) => a,
            Err(e) => {
                return Err(CommandError::ArchiveFormat(zip_error_text(&e)));
            },
        };
        ArchiveManager::plan_from_archive(&mut a)
    }

    /// The first image file among `entries`, if any.
    pub fn get_first_image(entries: &Vec<FileEntry>) -> (r: Option<String>)
        ensures
            r is None <==> forall|k: int| 0 <= k < entries@.len() ==> !image_entry(#[trigger] entries@[k]),
            r matches Some(p) ==> exists|k: int|
                0 <= k < entries@.len() && image_entry(#[trigger] entries@[k]) && p@ == entries@[k].path@
                    && forall|j: int| 0 <= j < k ==> !image_entry(#[trigger] entries@[j]),
    {
        let mut i: usize = 0;
        while i < entries.len()
            invariant
                i <= entries@.len(),
                forall|j: int| 0 <= j < i ==> !image_entry(#[trigger] entries@[j]),
            decreases entries@.len() - i,
        {
            if is_image_entry(&entries[i]) {
                return Some(entries[i].path.clone());
            }
            i = i + 1;
        }
        None
    }
}

} // verus!
