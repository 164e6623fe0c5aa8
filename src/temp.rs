use vstd::prelude::*;

use crate::archive::{
    archive_extraction, files_read, names_safe, stored_contents, stored_names, stored_reads,
    zip_opens,
    ArchiveManager, ExtractStep,
};
use crate::error::CommandError;
use crate::images::texts;
use crate::paths::{join_path, stem_of, stem_text};

verus! {

pub open spec fn is_lower_hex(c: char) -> bool {
    ('0' <= c && c <= '9') || ('a' <= c && c <= 'f')
}

/// The hyphenated text form of a UUID: 32 lowercase hex digits in groups of
/// 8, 4, 4, 4 and 12, joined by `-`.
pub open spec fn hyphenated_uuid(id: Seq<char>) -> bool {
    &&& id.len() == 36
    &&& forall|k: int|
        0 <= k < 36 ==> if k == 8 || k == 13 || k == 18 || k == 23 {
            id[k] == '-'
        } else {
            is_lower_hex(#[trigger] id[k])
        }
}

/// `path` is `prefix` followed by an identifier in hyphenated UUID form.
pub open spec fn fresh_name_under(path: Seq<char>, prefix: Seq<char>) -> bool {
    &&& path.len() == prefix.len() + 36
    &&& path.subrange(0, prefix.len() as int) == prefix
    &&& hyphenated_uuid(path.skip(prefix.len() as int))
}

/// Relies on `uuid::Uuid::new_v4` and the `Display` impl of `uuid::Uuid`: a
/// fresh random identifier, written in hyphenated lowercase form.
#[verifier::external_body]
fn fresh_id() -> (r: String)
    ensures
        hyphenated_uuid(r@),
{
    uuid::Uuid::new_v4().to_string()
}

/// Names the uniquely named directories of a temporary area.
pub struct TempFolder;

impl TempFolder {
    /// A fresh path directly under `base_path`: the base, a separator and a
    /// random identifier. The caller creates the directory.
    pub fn allocate_path(base_path: &str) -> (r: String)
        ensures
            fresh_name_under(r@, base_path@ + seq!['/']),
    {
        let id = fresh_id();
        let r = join_path(base_path, id.as_str());
        assert(r@.subrange(0, base_path@.len() as int + 1) =~= base_path@ + seq!['/']);
        assert(r@.skip(base_path@.len() as int + 1) =~= id@);
        r
    }
}

/// The directories that extraction produced during a session, in the order
/// they were recorded. Entries are only ever appended.
pub struct ExtractionRegistry {
    dirs: Vec<String>,
}

impl View for ExtractionRegistry {
    type V = Seq<Seq<char>>;

    closed spec fn view(&self) -> Seq<Seq<char>> {
        texts(self.dirs@)
    }
}

impl ExtractionRegistry {
    pub fn new() -> (r: Self)
        ensures
            r@ == Seq::<Seq<char>>::empty(),
    {
        let r = ExtractionRegistry { dirs: Vec::new() };
        assert(r@ =~= Seq::<Seq<char>>::empty());
        r
    }

    /// Appends a directory whose extraction has completed.
    pub fn record(&mut self, dir: String)
        ensures
            final(self)@ == old(self)@.push(dir@),
    {
        let ghost before = self.dirs@;
        self.dirs.push(dir);
        assert(texts(self.dirs@) =~= texts(before).push(dir@));
    }

    /// A copy of the recorded directories, in order.
    pub fn list(&self) -> (r: Vec<String>)
        ensures
            texts(r@) == self@,
    {
        let mut r: Vec<String> = Vec::new();
        let mut i: usize = 0;
        while i < self.dirs.len()
            invariant
                i <= self.dirs@.len(),
                texts(r@) == texts(self.dirs@).subrange(0, i as int),
            decreases self.dirs@.len() - i,
        {
            let ghost before = r@;
            r.push(self.dirs[i].clone());
            assert(texts(r@) =~= texts(before).push(self.dirs@[i as int]@));
            assert(texts(self.dirs@).subrange(0, i + 1) =~= texts(self.dirs@).subrange(
                0,
                i as int,
            ).push(self.dirs@[i as int]@));
            i = i + 1;
        }
        assert(texts(self.dirs@).subrange(0, self.dirs@.len() as int) =~= texts(self.dirs@));
        r
    }
}

/// Extracts archives into directories under one temporary root, and keeps
/// the record of what it extracted.
pub struct ArchiveHandler {
    temp_root: String,
    extracted_dirs: ExtractionRegistry,
}

impl ArchiveHandler {
    /// The root under which archives are extracted.
    pub closed spec fn root(&self) -> Seq<char> {
        self.temp_root@
    }

    /// The directories extracted so far, in order.
    pub closed spec fn extracted(&self) -> Seq<Seq<char>> {
        self.extracted_dirs@
    }

    /// A handler that extracts under `temp_root`, with nothing extracted yet.
    pub fn new(temp_root: String) -> (r: Self)
        ensures
            r.root() == temp_root@,
            r.extracted() == Seq::<Seq<char>>::empty(),
    {
        ArchiveHandler { temp_root, extracted_dirs: ExtractionRegistry::new() }
    }

    /// The path of the root under which archives are extracted.
    pub fn root_path(&self) -> (r: String)
        ensures
            r@ == self.root(),
    {
        self.temp_root.clone()
    }

    /// A fresh directory for extracting an archive: under the root, named
    /// by the archive's file stem, a `-` and a random identifier, so that
    /// each extraction job gets its own directory. Fails when the archive
    /// path has no file name.
    pub fn destination_for(&self, archive_path: &String) -> (r: Result<String, CommandError>)
        ensures
            stem_of(archive_path@) is None ==> r matches Err(CommandError::Io(_)),
            stem_of(archive_path@) is Some ==> r is Ok,
            archive_path@ == seq!['/'] ==> r matches Err(CommandError::Io(_)),
            r matches Ok(d) ==> fresh_name_under(
                d@,
                self.root() + seq!['/'] + stem_of(archive_path@)->0 + seq!['-'],
            ),
    {
        match stem_text(archive_path.as_str()) {
            None => {
                let msg = "archive path has no file name".to_owned();
                Err(CommandError::Io(msg))
            },
            Some(stem) => {
                let id = fresh_id();
                let ghost stem_chars = stem@;
                let mut name = stem;
                proof {
                    reveal_strlit("-");
                }
                name.append("-");
                let ghost named = name@;
                name.append(id.as_str());
                let d = join_path(self.temp_root.as_str(), name.as_str());
                let ghost prefix = self.root() + seq!['/'] + named;
                assert(d@ =~= prefix + id@);
                assert(d@.subrange(0, prefix.len() as int) =~= prefix);
                assert(d@.skip(prefix.len() as int) =~= id@);
                assert(named =~= stem_chars + seq!['-']);
                assert(prefix =~= self.root() + seq!['/'] + stem_chars + seq!['-']);
                Ok(d)
            },
        }
    }

    /// Decides where the archive held in `archive` goes and what to write
    /// there. Nothing is recorded: `record_extraction` does that once the
    /// steps have been carried out.
    pub fn prepare_extraction(&self, archive_path: &String, archive: Vec<u8>) -> (r: Result<
        (String, Vec<ExtractStep>),
        CommandError,
    >)
        ensures
            stem_of(archive_path@) is None ==> r matches Err(CommandError::Io(_)),
            stem_of(archive_path@) is Some && !zip_opens(archive@) ==> r matches Err(
                CommandError::ArchiveFormat(_),
            ),
            stem_of(archive_path@) is Some && zip_opens(archive@) && !files_read(stored_names(archive@), stored_reads(archive@))
                ==> r matches Err(CommandError::ArchiveFormat(_)),
            stem_of(archive_path@) is Some && zip_opens(archive@) && files_read(stored_names(archive@), stored_reads(archive@))
                && !names_safe(stored_names(archive@)) ==> r matches Err(
                CommandError::UnsafeEntry(_),
            ),
            r is Ok <==> (stem_of(archive_path@) is Some && zip_opens(archive@) && files_read(
                stored_names(archive@),
                stored_reads(archive@),
            ) && names_safe(stored_names(archive@))),
            r is Ok ==> {
                &&& fresh_name_under(
                    r->Ok_0.0@,
                    self.root() + seq!['/'] + stem_of(archive_path@)->0 + seq!['-'],
                )
                &&& archive_extraction(stored_names(archive@), stored_contents(archive@), r->Ok_0.1@)
            },
    {
        let dest = match self.destination_for(archive_path) {
            Ok(d) => d,
            Err(e) => {
                return Err(e);
            },
        };
        match ArchiveManager::plan_archive(archive) {
            Ok(steps) => Ok((dest, steps)),
            Err(e) => Err(e),
        }
    }

    /// Records a directory whose extraction has completed.
    pub fn record_extraction(&mut self, dir: String)
        ensures
            final(self).root() == old(self).root(),
            final(self).extracted() == old(self).extracted().push(dir@),
    {
        self.extracted_dirs.record(dir);
    }

    /// A copy of the directories extracted so far, in order.
    pub fn get_extracted_dirs(&self) -> (r: Vec<String>)
        ensures
            texts(r@) == self.extracted(),
    {
        self.extracted_dirs.list()
    }
}

} // verus!
