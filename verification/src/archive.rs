//! Reading the bundle of server configs and deciding what to extract.
//!
//! The bundle is a ZIP archive held in memory. Its directory is read through
//! the `zip` crate; what to do with each entry is decided here, over plain
//! values, and handed back as a plan for the caller to carry out.

use crate::error::VpnError;
use crate::paths::{
    base_name, contains_path, is_usable_name, last_component, path_set, usable_name, SERVER_ROOT,
};
use crate::text::{decimal, ends_with, joined, str_ends_with, to_decimal};
use std::io::Cursor;
use std::io::Read;
use vstd::prelude::*;
use vstd::string::*;
use zip::result::ZipError;
use zip::ZipArchive;

verus! {

/// `zip::ZipArchive`, the reader over a ZIP file's central directory.
#[verifier::external_type_specification]
#[verifier::external_body]
#[verifier::reject_recursive_types(R)]
pub struct ExZipArchive<R>(ZipArchive<R>);

/// `std::io::Cursor`, which lets a buffer in memory be read like a file.
#[verifier::external_type_specification]
#[verifier::external_body]
#[verifier::reject_recursive_types(T)]
pub struct ExCursor<T>(Cursor<T>);

/// `zip::result::ZipError`, what the `zip` crate reports when it cannot read
/// an archive or one of its entries.
#[verifier::external_type_specification]
#[verifier::external_body]
pub struct ExZipError(ZipError);

/// What the central directory says of one entry.
pub struct ArchiveEntry {
    /// The entry's name as stored in the archive.
    pub name: String,
    /// The name again where it is a relative path that stays inside the
    /// directory it is extracted to, `None` otherwise.
    pub enclosed: Option<String>,
    /// The size of the entry's contents once decompressed, in bytes.
    pub size: u64,
    /// The Unix permission bits stored with the entry, if any.
    pub mode: Option<u32>,
}

/// An [`ArchiveEntry`] as a mathematical value.
pub struct EntryView {
    pub name: Seq<char>,
    pub enclosed: Option<Seq<char>>,
    pub size: u64,
    pub mode: Option<u32>,
}

impl View for ArchiveEntry {
    type V = EntryView;

    open spec fn view(&self) -> EntryView {
        EntryView {
            name: self.name@,
            enclosed: match self.enclosed {
                Some(p) => Some(p@),
                None => None,
            },
            size: self.size,
            mode: self.mode,
        }
    }
}

/// The views of a sequence of entries.
pub open spec fn entry_views(entries: Seq<ArchiveEntry>) -> Seq<EntryView> {
    entries.map_values(|e: ArchiveEntry| e@)
}

/// The entries of an opened archive, in the order of its central directory:
/// for each, its name, its name as an enclosed path, its decompressed size
/// and its Unix mode.
pub uninterp spec fn archive_entries(archive: ZipArchive<Cursor<Vec<u8>>>) -> Seq<EntryView>;

/// The bytes that an opened archive reads from.
pub uninterp spec fn archive_source(archive: ZipArchive<Cursor<Vec<u8>>>) -> Seq<u8>;

/// The central directory that the `zip` crate reads out of `bytes`, entry
/// by entry, or `None` where it finds no archive it can read.
pub uninterp spec fn bundle_directory(bytes: Seq<u8>) -> Option<Seq<EntryView>>;

/// Whether the `zip` crate, given no password, hands out the entry at
/// `index` of the archive in `bytes`.
pub uninterp spec fn entry_opens(bytes: Seq<u8>, index: int) -> bool;

/// What the `zip` crate, given no password, reads as the decompressed
/// contents of the entry at `index` of the archive in `bytes`, or `None`
/// where it cannot hand out the entry or read it to its end.
pub uninterp spec fn entry_contents(bytes: Seq<u8>, index: int) -> Option<Seq<u8>>;

/// `ZipArchive::new` on a buffer in memory. It succeeds exactly on the
/// bytes out of which the crate reads a central directory; the archive
/// then holds that directory and reads from those bytes.
#[verifier::external_body]
fn open_archive(bytes: Vec<u8>) -> (r: Result<ZipArchive<Cursor<Vec<u8>>>, ZipError>)
    ensures
        match r {
            Ok(a) => bundle_directory(bytes@) == Some(archive_entries(a)) && archive_source(a)
                == bytes@,
            Err(_) => bundle_directory(bytes@) is None,
        },
{
    ZipArchive::new(Cursor::new(bytes))
}

/// `ZipArchive::len`: the number of entries in the central directory.
#[verifier::external_body]
fn archive_len(archive: &ZipArchive<Cursor<Vec<u8>>>) -> (n: usize)
    ensures
        n == archive_entries(*archive).len(),
{
    archive.len()
}

/// `ZipArchive::by_index_decrypt` with an empty password, and the entry's
/// `name`, `enclosed_name`, `size` and `unix_mode` copied out. An entry
/// that wants a password is answered with the crate's own error for that.
/// The archive is left as it was. The call succeeds exactly when the index
/// is in range and the crate hands out the entry, and the values are then
/// those of that entry.
#[verifier::external_body]
fn entry_at(archive: &mut ZipArchive<Cursor<Vec<u8>>>, index: usize) -> (r: Result<
    ArchiveEntry,
    ZipError,
>)
    ensures
        archive_entries(*final(archive)) == archive_entries(*old(archive)),
        archive_source(*final(archive)) == archive_source(*old(archive)),
        r is Ok <==> index < archive_entries(*old(archive)).len() && entry_opens(
            archive_source(*old(archive)),
            index as int,
        ),
        r matches Ok(e) ==> e@ == archive_entries(*old(archive))[index as int],
{
    let file = archive.by_index_decrypt(index, &[])?.map_err(
        |_| ZipError::UnsupportedArchive(ZipError::PASSWORD_REQUIRED),
    )?;
    Ok(
        ArchiveEntry {
            name: file.name().to_string(),
            enclosed: file.enclosed_name().map(|p| p.to_string_lossy().into_owned()),
            size: file.size(),
            mode: file.unix_mode(),
        },
    )
}

/// `ZipArchive::by_index_decrypt` with an empty password, followed by
/// reading the entry to its end: the decompressed contents. An entry that
/// wants a password is answered with the crate's own error for that. The
/// archive is left as it was.
#[verifier::external_body]
fn entry_bytes(archive: &mut ZipArchive<Cursor<Vec<u8>>>, index: usize) -> (r: Result<
    Vec<u8>,
    ZipError,
>)
    ensures
        archive_entries(*final(archive)) == archive_entries(*old(archive)),
        archive_source(*final(archive)) == archive_source(*old(archive)),
        r is Ok ==> index < archive_entries(*old(archive)).len(),
        match r {
            Ok(d) => entry_contents(archive_source(*old(archive)), index as int) == Some(d@),
            Err(_) => entry_contents(archive_source(*old(archive)), index as int) is None,
        },
{
    let mut file = archive.by_index_decrypt(index, &[])?.map_err(
        |_| ZipError::UnsupportedArchive(ZipError::PASSWORD_REQUIRED),
    )?;
    let mut data = Vec::new();
    file.read_to_end(&mut data).map_err(ZipError::Io)?;
    Ok(data)
}

/// The `zip` crate's own description of an error.
#[verifier::external_body]
fn describe(error: &ZipError) -> (r: String) {
    format!("{}", error)
}

/// An archive opened for reading, with its directory already listed.
pub struct Archive {
    inner: ZipArchive<Cursor<Vec<u8>>>,
    entries: Vec<ArchiveEntry>,
}

impl Archive {
    /// The listing kept beside the archive is the archive's own directory.
    pub closed spec fn wf(self) -> bool {
        entry_views(self.entries@) == archive_entries(self.inner)
    }

    /// The archive's entries, in directory order.
    pub closed spec fn listing(self) -> Seq<EntryView> {
        entry_views(self.entries@)
    }

    /// The bytes the archive was opened on.
    pub closed spec fn source(self) -> Seq<u8> {
        archive_source(self.inner)
    }

    /// Opens an archive held in memory and lists its directory.
    ///
    /// It succeeds exactly when the `zip` crate reads a central directory
    /// out of the bytes and hands out every entry of it; the listing is
    /// then that directory. Every failure is an `Io`.
    pub fn open(bytes: Vec<u8>) -> (r: Result<Archive, VpnError>)
        ensures
            match r {
                Ok(a) => {
                    &&& a.wf()
                    &&& a.source() == bytes@
                    &&& bundle_directory(bytes@) == Some(a.listing())
                    &&& forall|i: int| 0 <= i < a.listing().len() ==> entry_opens(bytes@, i)
                },
                Err(e) => {
                    &&& e is Io
                    &&& bundle_directory(bytes@) is Some ==> exists|i: int|
                        0 <= i < bundle_directory(bytes@)->0.len() && !entry_opens(bytes@, i)
                },
            },
    {
        let ghost source = bytes@;
        let mut inner = match open_archive(bytes) {
            Ok(a) => a,
            Err(e) => {
                return Err(VpnError::Io(describe(&e)));
            },
        };
        let n = archive_len(&inner);
        let ghost all = archive_entries(inner);
        let mut entries: Vec<ArchiveEntry> = Vec::new();
        let mut i: usize = 0;
        while i < n
            invariant
                i <= n,
                n == all.len(),
                archive_entries(inner) == all,
                source == bytes@,
                archive_source(inner) == source,
                bundle_directory(source) == Some(all),
                entry_views(entries@) == all.subrange(0, i as int),
                forall|k: int| 0 <= k < i ==> entry_opens(source, k),
            decreases n - i,
        {
            match entry_at(&mut inner, i) {
                Ok(e) => {
                    let ghost before = entries@;
                    let ghost added = e;
                    entries.push(e);
                    proof {
                        assert(entries@ == before.push(added));
                        assert(entry_views(before.push(added)) =~= entry_views(before).push(
                            added@,
                        ));
                        assert(all.subrange(0, i + 1) =~= all.subrange(0, i as int).push(
                            all[i as int],
                        ));
                    }
                },
                Err(e) => {
                    assert(!entry_opens(source, i as int));
                    return Err(VpnError::Io(describe(&e)));
                },
            }
            i = i + 1;
        }
        assert(all.subrange(0, n as int) =~= all);
        Ok(Archive { inner, entries })
    }

    /// The directory, one value per entry.
    pub fn entries(&self) -> (r: &Vec<ArchiveEntry>)
        ensures
            entry_views(r@) == self.listing(),
    {
        &self.entries
    }

    /// The decompressed contents of the entry at `index`: what the `zip`
    /// crate reads of it, and an `Io` exactly where it reads nothing,
    /// because there is no such entry or it cannot be read to its end.
    pub fn data(&mut self, index: usize) -> (r: Result<Vec<u8>, VpnError>)
        ensures
            final(self).listing() == old(self).listing(),
            final(self).source() == old(self).source(),
            old(self).wf() ==> final(self).wf(),
            old(self).wf() && r is Ok ==> index < old(self).listing().len(),
            match r {
                Ok(d) => entry_contents(old(self).source(), index as int) == Some(d@),
                Err(e) => e is Io && entry_contents(old(self).source(), index as int) is None,
            },
    {
        match entry_bytes(&mut self.inner, index) {
            Ok(d) => Ok(d),
            Err(e) => Err(VpnError::Io(describe(&e))),
        }
    }
}

/// An entry that is desktop clutter and is passed over.
pub open spec fn is_clutter(name: Seq<char>) -> bool {
    ends_with(name, ".DS_Store"@)
}

/// An entry that names a directory.
pub open spec fn is_directory(name: Seq<char>) -> bool {
    ends_with(name, "/"@)
}

/// The directory in force when entry `i` is reached: the name of the last
/// directory entry before it, or nothing when there was none.
pub open spec fn directory_before(entries: Seq<EntryView>, i: int) -> Seq<char>
    decreases i,
{
    if i <= 0 {
        Seq::empty()
    } else if !is_clutter(entries[i - 1].name) && is_directory(entries[i - 1].name) {
        entries[i - 1].name
    } else {
        directory_before(entries, i - 1)
    }
}

/// An entry whose contents are to be placed on disk: neither clutter nor a
/// directory, and with a name that stays inside the place it is extracted to.
pub open spec fn is_file_entry(e: EntryView) -> bool {
    !is_clutter(e.name) && !is_directory(e.name) && e.enclosed is Some
}

/// A file entry whose path has no last component that can name a file.
pub open spec fn is_unusable(e: EntryView) -> bool {
    is_file_entry(e) && !usable_name(base_name(e.enclosed->0))
}

/// Where a file is placed: under the server root, in the directory in
/// force, under its own last component.
pub open spec fn destination(dir: Seq<char>, path: Seq<char>) -> Seq<char> {
    SERVER_ROOT@ + dir + base_name(path)
}

/// A file of the archive and the place on disk it belongs to.
pub struct Target {
    /// The entry's position in the archive.
    pub index: usize,
    /// The path the entry's contents go to.
    pub path: String,
    /// The size of the contents, in bytes.
    pub size: u64,
    /// The Unix permission bits to give the file, if the archive has any.
    pub mode: Option<u32>,
}

/// A [`Target`] as a mathematical value.
pub struct TargetView {
    pub index: int,
    pub path: Seq<char>,
    pub size: u64,
    pub mode: Option<u32>,
}

impl View for Target {
    type V = TargetView;

    open spec fn view(&self) -> TargetView {
        TargetView { index: self.index as int, path: self.path@, size: self.size, mode: self.mode }
    }
}

/// The views of a sequence of targets.
pub open spec fn target_views(targets: Seq<Target>) -> Seq<TargetView> {
    targets.map_values(|t: Target| t@)
}

/// The target of entry `i`, which must be a file entry.
pub open spec fn target_of(entries: Seq<EntryView>, i: int) -> TargetView {
    TargetView {
        index: i,
        path: destination(directory_before(entries, i), entries[i].enclosed->0),
        size: entries[i].size,
        mode: entries[i].mode,
    }
}

/// The targets of the first `n` entries, in archive order.
pub open spec fn targets_of(entries: Seq<EntryView>, n: int) -> Seq<TargetView>
    decreases n,
{
    if n <= 0 {
        Seq::empty()
    } else if is_file_entry(entries[n - 1]) {
        targets_of(entries, n - 1).push(target_of(entries, n - 1))
    } else {
        targets_of(entries, n - 1)
    }
}

/// Walks the archive's directory in order and says where each file goes.
///
/// Entries whose name ends in `.DS_Store` are passed over. An entry whose
/// name ends in `/` sets the directory that the files after it are placed
/// in. An entry without an enclosed name is passed over. Every other entry
/// goes to the server root, then the directory in force, then the last
/// component of its own path. Fails with `Io`, and plans nothing, exactly
/// when some file's path has no last component that can name a file.
pub fn extraction_targets(entries: &Vec<ArchiveEntry>) -> (r: Result<Vec<Target>, VpnError>)
    ensures
        match r {
            Ok(targets) => {
                &&& forall|i: int| 0 <= i < entries.len() ==> !is_unusable(#[trigger] entries@[i]@)
                &&& target_views(targets@) == targets_of(
                    entry_views(entries@),
                    entries.len() as int,
                )
            },
            Err(e) => e is Io && exists|i: int|
                0 <= i < entries.len() && is_unusable(#[trigger] entries@[i]@),
        },
{
    let ghost views = entry_views(entries@);
    let mut out: Vec<Target> = Vec::new();
    let mut dir = String::new();
    let mut i: usize = 0;
    while i < entries.len()
        invariant
            i <= entries.len(),
            views == entry_views(entries@),
            dir@ == directory_before(views, i as int),
            target_views(out@) == targets_of(views, i as int),
            forall|k: int| 0 <= k < i ==> !is_unusable(#[trigger] entries@[k]@),
        decreases entries.len() - i,
    {
        let entry = &entries[i];
        assert(views[i as int] == entry@);
        if str_ends_with(entry.name.as_str(), ".DS_Store") {
        } else if str_ends_with(entry.name.as_str(), "/") {
            dir = entry.name.clone();
        } else {
            match &entry.enclosed {
                Some(path) => {
                    let base = last_component(path.as_str());
                    if !is_usable_name(base.as_str()) {
                        return Err(
                            VpnError::Io(joined("invalid file path in archive: ", path.as_str())),
                        );
                    }
                    let mut place = joined(SERVER_ROOT, dir.as_str());
                    place.append(base.as_str());
                    let target = Target {
                        index: i,
                        path: place,
                        size: entry.size,
                        mode: entry.mode,
                    };
                    let ghost before = out@;
                    out.push(target);
                    assert(target_views(out@) =~= target_views(before).push(
                        target_of(views, i as int),
                    ));
                },
                None => {},
            }
        }
        i = i + 1;
    }
    Ok(out)
}

/// An earlier target goes to the same path as target `k`.
pub open spec fn taken_before(targets: Seq<TargetView>, k: int) -> bool {
    exists|j: int| 0 <= j < k && (#[trigger] targets[j]).path == targets[k].path
}

/// Target `k` is written: nothing exists at its path, and no earlier
/// target has claimed the path.
pub open spec fn is_written(targets: Seq<TargetView>, existing: Set<Seq<char>>, k: int) -> bool {
    !existing.contains(targets[k].path) && !taken_before(targets, k)
}

/// One step of an extraction: a target, and whether its contents are
/// written or the file on disk is left alone.
pub struct Extraction {
    /// The file and its place.
    pub target: Target,
    /// Whether the contents are to be written.
    pub write: bool,
}

/// The line that reports a step.
pub open spec fn extraction_line(t: TargetView) -> Seq<char> {
    "File "@ + decimal(t.index as nat) + " extracted to \""@ + t.path + "\" ("@ + decimal(
        t.size as nat,
    ) + " bytes)"@
}

impl Extraction {
    /// The line that reports this step to the operator.
    pub fn message(&self) -> (r: String)
        ensures
            r@ == extraction_line(self.target@),
    {
        let mut s = joined("File ", to_decimal(self.target.index as u64).as_str());
        s.append(" extracted to \"");
        s.append(self.target.path.as_str());
        s.append("\" (");
        s.append(to_decimal(self.target.size).as_str());
        s.append(" bytes)");
        s
    }
}

fn claimed_earlier(targets: &Vec<Target>, k: usize) -> (r: bool)
    requires
        k < targets.len(),
    ensures
        r == taken_before(target_views(targets@), k as int),
{
    let mut j: usize = 0;
    while j < k
        invariant
            j <= k,
            k < targets.len(),
            forall|m: int| 0 <= m < j ==> (#[trigger] target_views(targets@)[m]).path
                != target_views(targets@)[k as int].path,
        decreases k - j,
    {
        if targets[j].path == targets[k].path {
            assert(target_views(targets@)[j as int].path == target_views(targets@)[k as int].path);
            return true;
        }
        j = j + 1;
    }
    false
}

/// Decides, for each target in turn, whether its contents are written.
///
/// `existing` lists the paths at which something is already on disk. A
/// target is written exactly when its path is not among them and no
/// earlier target goes to the same path; otherwise what is on disk stays.
/// The plan has one step per target, in the same order.
pub fn unzip(targets: &Vec<Target>, existing: &Vec<String>) -> (plan: Vec<Extraction>)
    ensures
        plan.len() == targets.len(),
        forall|k: int|
            0 <= k < plan.len() && (#[trigger] plan[k]).write ==> !path_set(existing@).contains(
                plan[k].target.path@,
            ),
        forall|k: int|
            0 <= k < plan.len() ==> (#[trigger] plan[k]).target@ == targets[k]@ && plan[k].write
                == is_written(target_views(targets@), path_set(existing@), k),
{
    let mut plan: Vec<Extraction> = Vec::new();
    let mut k: usize = 0;
    while k < targets.len()
        invariant
            k <= targets.len(),
            plan.len() == k,
            forall|m: int|
                0 <= m < k ==> (#[trigger] plan[m]).target@ == targets[m]@ && plan[m].write
                    == is_written(target_views(targets@), path_set(existing@), m),
        decreases targets.len() - k,
    {
        let t = &targets[k];
        let write = !contains_path(existing, t.path.as_str()) && !claimed_earlier(targets, k);
        assert(target_views(targets@)[k as int] == t@);
        plan.push(
            Extraction {
                target: Target { index: t.index, path: t.path.clone(), size: t.size, mode: t.mode },
                write,
            },
        );
        k = k + 1;
    }
    plan
}

/// The paths that a plan writes.
pub open spec fn written_paths(targets: Seq<TargetView>, existing: Set<Seq<char>>) -> Set<
    Seq<char>,
> {
    Set::new(
        |p: Seq<char>|
            exists|k: int|
                0 <= k < targets.len() && is_written(targets, existing, k) && (
                #[trigger] targets[k]).path == p,
    )
}

/// Extraction never overwrites: a target that is written goes to a path
/// at which nothing existed, and no two written targets share a path.
pub proof fn lemma_never_overwrites(
    targets: Seq<TargetView>,
    existing: Set<Seq<char>>,
    j: int,
    k: int,
)
    requires
        0 <= j < k < targets.len(),
        is_written(targets, existing, k),
    ensures
        !existing.contains(targets[k].path),
        targets[j].path != targets[k].path,
{
}

/// The first target that goes to the path of target `k`.
pub proof fn lemma_first_claim(targets: Seq<TargetView>, k: int) -> (j: int)
    requires
        0 <= k < targets.len(),
    ensures
        0 <= j <= k,
        targets[j].path == targets[k].path,
        !taken_before(targets, j),
    decreases k,
{
    if taken_before(targets, k) {
        let m = choose|m: int| 0 <= m < k && (#[trigger] targets[m]).path == targets[k].path;
        lemma_first_claim(targets, m)
    } else {
        k
    }
}

/// Extraction is idempotent: once a plan has been carried out, so that the
/// paths it wrote exist beside those that existed before, something
/// exists at every target's path, and planning the same targets again
/// writes nothing.
pub proof fn lemma_second_run_writes_nothing(
    targets: Seq<TargetView>,
    existing: Set<Seq<char>>,
    k: int,
)
    requires
        0 <= k < targets.len(),
    ensures
        existing.union(written_paths(targets, existing)).contains(targets[k].path),
        !is_written(targets, existing.union(written_paths(targets, existing)), k),
{
    if !existing.contains(targets[k].path) {
        let j = lemma_first_claim(targets, k);
        assert(is_written(targets, existing, j));
        assert(written_paths(targets, existing).contains(targets[j].path));
    }
}

} // verus!
