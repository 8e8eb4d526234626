use vstd::prelude::*;
use crate::html::opt_view;
use crate::record::same_text;
use crate::select::ends_with;

verus! {

/// A downloaded archive, at a path that existed when the handle was made.
#[derive(Debug)]
pub struct CompressedKMZ {
    path: String,
}

/// The archive container could not be read.
#[derive(Debug, PartialEq, Eq, Structural)]
pub enum UnpackError {
    CorruptArchive,
}

/// What to do with one entry of the archive.
pub struct EntryAction {
    /// Directory to create (recursively) for an entry whose name holds a `/`.
    pub directory: Option<String>,
    /// Where to extract an inner archive; `None` for other entries.
    pub extract_to: Option<String>,
}

/// One inner archive, extracted.
pub struct ExtractedFile {
    pub path: String,
    pub data: Vec<u8>,
    /// Whether the bytes open as an archive container themselves; where they
    /// do not, the file is still written and the failure only reported.
    pub opens: bool,
}

/// The work of unpacking one archive, in entry order: directories to create,
/// files to write (a later file at the same path overwrites an earlier one),
/// the inner archives whose bytes could not be read, and the entries whose
/// name would leave the destination, for which nothing is planned.
pub struct UnpackPlan {
    pub directories: Vec<String>,
    pub files: Vec<ExtractedFile>,
    pub failed: Vec<String>,
    pub rejected: Vec<String>,
}

pub struct UnpackPlanView {
    pub directories: Seq<Seq<char>>,
    pub files: Seq<(Seq<char>, Seq<u8>, bool)>,
    pub failed: Seq<Seq<char>>,
    pub rejected: Seq<Seq<char>>,
}

impl View for UnpackPlan {
    type V = UnpackPlanView;

    open spec fn view(&self) -> UnpackPlanView {
        UnpackPlanView {
            directories: self.directories@.map_values(|s: String| s@),
            files: self.files@.map_values(|f: ExtractedFile| (f.path@, f.data@, f.opens)),
            failed: self.failed@.map_values(|s: String| s@),
            rejected: self.rejected@.map_values(|s: String| s@),
        }
    }
}

/// The inner-archive extension.
pub open spec fn is_inner_archive(name: Seq<char>) -> bool {
    ends_with(name, ".kmz"@)
}

/// The index of the last `/` among the first `k` characters.
pub open spec fn last_slash_before(s: Seq<char>, k: int) -> Option<int>
    decreases k,
{
    if k <= 0 {
        None
    } else if s[k - 1] == '/' {
        Some(k - 1)
    } else {
        last_slash_before(s, k - 1)
    }
}

/// The directory part of an entry name: all before its last `/`.
pub open spec fn entry_directory(name: Seq<char>) -> Option<Seq<char>> {
    match last_slash_before(name, name.len() as int) {
        Some(i) => Some(name.subrange(0, i)),
        None => None,
    }
}

/// `rel` under the directory `dest`.
pub open spec fn under(dest: Seq<char>, rel: Seq<char>) -> Seq<char> {
    dest + "/"@ + rel
}

/// A `..` component of `rel` starts at `i`.
pub open spec fn parent_at(rel: Seq<char>, i: int) -> bool {
    &&& 0 <= i && i + 2 <= rel.len()
    &&& rel[i] == '.' && rel[i + 1] == '.'
    &&& i == 0 || rel[i - 1] == '/'
    &&& i + 2 == rel.len() || rel[i + 2] == '/'
}

/// `rel`, joined under a directory, stays inside it: it does not start with
/// `/` and has no `..` component.
pub open spec fn stays_inside(rel: Seq<char>) -> bool {
    &&& !(rel.len() > 0 && rel[0] == '/')
    &&& forall|i: int| !#[trigger] parent_at(rel, i)
}

/// `path` is `dest` joined with a relative path that stays inside it.
pub open spec fn inside(dest: Seq<char>, path: Seq<char>) -> bool {
    exists|rel: Seq<char>| stays_inside(rel) && path == #[trigger] under(dest, rel)
}

/// Every directory and file of the plan lies inside `dest`.
pub open spec fn plan_stays_inside(p: UnpackPlanView, dest: Seq<char>) -> bool {
    &&& forall|i: int| 0 <= i < p.directories.len() ==> inside(dest, #[trigger] p.directories[i])
    &&& forall|i: int| 0 <= i < p.files.len() ==> inside(dest, (#[trigger] p.files[i]).0)
}

/// Whether `rel` stays inside the directory it is joined to.
pub fn is_contained(rel: &str) -> (r: bool)
    ensures
        r == stays_inside(rel@),
{
    let n = rel.unicode_len();
    if n > 0 && rel.get_char(0) == '/' {
        return false;
    }
    let mut i: usize = 0;
    while n - i >= 2
        invariant
            n == rel@.len(),
            i <= n,
            !(n > 0 && rel@[0] == '/'),
            forall|j: int| 0 <= j < i ==> !#[trigger] parent_at(rel@, j),
        decreases n - i,
    {
        if rel.get_char(i) == '.' && rel.get_char(i + 1) == '.' && (i == 0 || rel.get_char(i - 1) == '/') && (i
            + 2 == n || rel.get_char(i + 2) == '/') {
            assert(parent_at(rel@, i as int));
            return false;
        }
        i = i + 1;
    }
    true
}

/// The plan for the first `n` entries, `names` being the archive's entry names.
pub open spec fn plan_upto(archive: Seq<u8>, names: Seq<Seq<char>>, dest: Seq<char>, n: int) -> UnpackPlanView
    decreases n,
{
    if n <= 0 {
        UnpackPlanView {
            directories: Seq::empty(),
            files: Seq::empty(),
            failed: Seq::empty(),
            rejected: Seq::empty(),
        }
    } else {
        let p = plan_upto(archive, names, dest, n - 1);
        let name = names[n - 1];
        if !stays_inside(name) {
            UnpackPlanView { rejected: p.rejected.push(name), ..p }
        } else {
            let directories = match entry_directory(name) {
                Some(d) => p.directories.push(under(dest, d)),
                None => p.directories,
            };
            if !is_inner_archive(name) {
                UnpackPlanView { directories, ..p }
            } else {
                match zip_entry_data(archive, n - 1) {
                    Some(data) => UnpackPlanView {
                        directories,
                        files: p.files.push((under(dest, name), data, zip_entry_names(data) is Some)),
                        ..p
                    },
                    None => UnpackPlanView { directories, failed: p.failed.push(name), ..p },
                }
            }
        }
    }
}

/// The names of an archive's entries, in the order the container lists them;
/// `None` where the container cannot be read.
pub uninterp spec fn zip_entry_names(archive: Seq<u8>) -> Option<Seq<Seq<char>>>;

/// The decompressed bytes of the archive's entry at `index`, where they can be read.
pub uninterp spec fn zip_entry_data(archive: Seq<u8>, index: int) -> Option<Seq<u8>>;

pub open spec fn names_view(r: Option<Vec<String>>) -> Option<Seq<Seq<char>>> {
    match r {
        Some(v) => Some(v@.map_values(|s: String| s@)),
        None => None,
    }
}

pub open spec fn bytes_view(r: Option<Vec<u8>>) -> Option<Seq<u8>> {
    match r {
        Some(v) => Some(v@),
        None => None,
    }
}

/// Relies on zip::ZipArchive::new over an in-memory reader, which fails on a
/// container it cannot read, and ZipArchive::file_names, which lists the
/// entries in index order.
#[verifier::external_body]
fn entry_names(archive: &[u8]) -> (r: Option<Vec<String>>)
    ensures
        names_view(r) == zip_entry_names(archive@),
{
    let zip = zip::ZipArchive::new(std::io::Cursor::new(archive)).ok()?;
    Some(zip.file_names().map(|n| n.to_string()).collect())
}

/// Relies on zip::ZipArchive::by_index and the entry's std::io::Read impl:
/// the decompressed bytes of the entry at `index`.
#[verifier::external_body]
fn entry_data(archive: &[u8], index: usize) -> (r: Option<Vec<u8>>)
    ensures
        bytes_view(r) == zip_entry_data(archive@, index as int),
{
    let mut zip = zip::ZipArchive::new(std::io::Cursor::new(archive)).ok()?;
    let mut entry = zip.by_index(index).ok()?;
    let mut data = Vec::new();
    std::io::Read::read_to_end(&mut entry, &mut data).ok()?;
    Some(data)
}

/// Relies on std::path::Path::exists: whether the path names something on
/// disk now. Nothing is promised of the answer.
#[verifier::external_body]
pub(crate) fn path_exists(path: &str) -> bool {
    std::path::Path::new(path).exists()
}

/// Joins `rel` under the directory `dest`.
pub fn join_path(dest: &str, rel: &str) -> (r: String)
    ensures
        r@ == under(dest@, rel@),
{
    let mut out = dest.to_owned();
    out.append("/");
    out.append(rel);
    out
}

/// What to do with the entry `name` when unpacking into `dest`.
pub fn plan_entry(name: &str, dest: &str) -> (r: EntryAction)
    ensures
        opt_view(r.directory) == (match entry_directory(name@) {
            Some(d) => Some(under(dest@, d)),
            None => None::<Seq<char>>,
        }),
        opt_view(r.extract_to) == (if is_inner_archive(name@) {
            Some(under(dest@, name@))
        } else {
            None::<Seq<char>>
        }),
{
    let len = name.unicode_len();
    let mut k: usize = len;
    while k > 0 && name.get_char(k - 1) != '/'
        invariant
            k <= len == name@.len(),
            last_slash_before(name@, len as int) == last_slash_before(name@, k as int),
        decreases k,
    {
        k = k - 1;
    }
    proof {
        reveal_strlit(".kmz");
    }
    let directory = if k > 0 {
        Some(join_path(dest, name.substring_char(0, k - 1)))
    } else {
        None
    };
    let extract_to = if len >= 4 && same_text(name.substring_char(len - 4, len), ".kmz") {
        Some(join_path(dest, name))
    } else {
        None
    };
    EntryAction { directory, extract_to }
}

/// The part of a name before its last `/` stays inside wherever the name does.
proof fn lemma_directory_stays_inside(name: Seq<char>, k: int)
    requires
        stays_inside(name),
        last_slash_before(name, k) is Some,
        0 <= k <= name.len(),
    ensures
        stays_inside(name.subrange(0, last_slash_before(name, k)->0)),
    decreases k,
{
    if name[k - 1] != '/' {
        lemma_directory_stays_inside(name, k - 1);
    } else {
        let d = name.subrange(0, k - 1);
        assert forall|i: int| !#[trigger] parent_at(d, i) by {
            if parent_at(d, i) {
                assert(parent_at(name, i));
            }
        }
    }
}

/// Unpacking plans directories and files only inside the destination.
pub proof fn lemma_plan_stays_inside(archive: Seq<u8>, names: Seq<Seq<char>>, dest: Seq<char>, n: int)
    requires
        0 <= n <= names.len(),
    ensures
        plan_stays_inside(plan_upto(archive, names, dest, n), dest),
    decreases n,
{
    if n > 0 {
        lemma_plan_stays_inside(archive, names, dest, n - 1);
        let name = names[n - 1];
        let p = plan_upto(archive, names, dest, n - 1);
        let q = plan_upto(archive, names, dest, n);
        if stays_inside(name) {
            assert(inside(dest, under(dest, name)));
            if let Some(d) = entry_directory(name) {
                lemma_directory_stays_inside(name, name.len() as int);
                assert(inside(dest, under(dest, d)));
            }
            assert forall|i: int| 0 <= i < q.directories.len() implies inside(dest, #[trigger] q.directories[i]) by {
                if i < p.directories.len() {
                    assert(q.directories[i] == p.directories[i]);
                }
            }
            assert forall|i: int| 0 <= i < q.files.len() implies inside(dest, (#[trigger] q.files[i]).0) by {
                if i < p.files.len() {
                    assert(q.files[i] == p.files[i]);
                }
            }
        }
    }
}

proof fn lemma_plan_without_inner_archive(archive: Seq<u8>, names: Seq<Seq<char>>, dest: Seq<char>, n: int)
    requires
        0 <= n <= names.len(),
        forall|i: int| 0 <= i < names.len() ==> !is_inner_archive(#[trigger] names[i]),
    ensures
        plan_upto(archive, names, dest, n).files.len() == 0,
        plan_upto(archive, names, dest, n).failed.len() == 0,
    decreases n,
{
    if n > 0 {
        lemma_plan_without_inner_archive(archive, names, dest, n - 1);
        assert(!is_inner_archive(names[n - 1]));
    }
}

/// Unpacking an archive none of whose entries is an inner archive extracts no
/// file and records no extraction failure.
pub proof fn lemma_no_inner_archive(archive: Seq<u8>, dest: Seq<char>)
    requires
        zip_entry_names(archive) is Some,
        forall|i: int|
            0 <= i < zip_entry_names(archive)->0.len() ==> !is_inner_archive(
                #[trigger] zip_entry_names(archive)->0[i],
            ),
    ensures
        ({
            let names = zip_entry_names(archive)->0;
            let plan = plan_upto(archive, names, dest, names.len() as int);
            plan.files.len() == 0 && plan.failed.len() == 0
        }),
{
    let names = zip_entry_names(archive)->0;
    lemma_plan_without_inner_archive(archive, names, dest, names.len() as int);
}

impl CompressedKMZ {
    pub closed spec fn path_view(&self) -> Seq<char> {
        self.path@
    }

    /// A handle on `path`, given whether it exists; `None` for an empty or missing path.
    pub fn from_checked(path: String, exists: bool) -> (r: Option<CompressedKMZ>)
        ensures
            r is Some <==> (path@.len() > 0 && exists),
            r matches Some(k) ==> k.path_view() == path@,
    {
        if !path.as_str().is_empty() && exists {
            Some(CompressedKMZ { path })
        } else {
            None
        }
    }

    /// A handle on `path` where it is non-empty and exists now.
    pub fn new(path: String) -> (r: Option<CompressedKMZ>)
        ensures
            path@.len() == 0 ==> r is None,
            r matches Some(k) ==> k.path_view() == path@,
    {
        let exists = path_exists(path.as_str());
        CompressedKMZ::from_checked(path, exists)
    }

    pub fn path(&self) -> (r: &str)
        ensures
            r@ == self.path_view(),
    {
        self.path.as_str()
    }

    /// Plans the unpacking of this archive's bytes into `dest`: for each entry in
    /// container order, the directory its name implies and, for an inner archive,
    /// its extracted bytes and whether they open as a container, or its failure. A container that cannot be read is
    /// `CorruptArchive`.
    pub fn unpack(&self, archive: &Vec<u8>, dest: &str) -> (r: Result<UnpackPlan, UnpackError>)
        ensures
            r is Err <==> zip_entry_names(archive@) is None,
            r matches Ok(p) ==> p@ == plan_upto(
                archive@,
                zip_entry_names(archive@)->0,
                dest@,
                zip_entry_names(archive@)->0.len() as int,
            ),
            r matches Ok(p) ==> plan_stays_inside(p@, dest@),
    {
        let names = match entry_names(archive.as_slice()) {
            Some(n) => n,
            None => return Err(UnpackError::CorruptArchive),
        };
        let ghost all = names@.map_values(|s: String| s@);
        let mut plan = UnpackPlan {
            directories: Vec::new(),
            files: Vec::new(),
            failed: Vec::new(),
            rejected: Vec::new(),
        };
        let mut i: usize = 0;
        proof {
            assert(plan@.directories =~= Seq::<Seq<char>>::empty());
            assert(plan@.files =~= Seq::<(Seq<char>, Seq<u8>, bool)>::empty());
            assert(plan@.failed =~= Seq::<Seq<char>>::empty());
            assert(plan@.rejected =~= Seq::<Seq<char>>::empty());
        }
        while i < names.len()
            invariant
                all == names@.map_values(|s: String| s@),
                i <= names@.len(),
                plan@ == plan_upto(archive@, all, dest@, i as int),
            decreases names@.len() - i,
        {
            let name = names[i].as_str();
            assert(all[i as int] == name@);
            if !is_contained(name) {
                let ghost before = plan@;
                plan.rejected.push(names[i].clone());
                proof {
                    let want = plan_upto(archive@, all, dest@, i + 1);
                    assert(plan@.directories =~= want.directories);
                    assert(plan@.files =~= want.files);
                    assert(plan@.failed =~= want.failed);
                    assert(plan@.rejected =~= want.rejected);
                }
                i = i + 1;
                continue;
            }
            let action = plan_entry(name, dest);
            let ghost before = plan@;
            match action.directory {
                Some(d) => {
                    plan.directories.push(d);
                },
                None => {},
            }
            match action.extract_to {
                Some(path) => match entry_data(archive.as_slice(), i) {
                    Some(data) => {
                        let opens = entry_names(data.as_slice()).is_some();
                        plan.files.push(ExtractedFile { path, data, opens });
                    },
                    None => {
                        plan.failed.push(names[i].clone());
                    },
                },
                None => {},
            }
            proof {
                let want = plan_upto(archive@, all, dest@, i + 1);
                assert(plan@.directories =~= want.directories);
                assert(plan@.files =~= want.files);
                assert(plan@.failed =~= want.failed);
                assert(plan@.rejected =~= want.rejected);
            }
            i = i + 1;
        }
        proof {
            lemma_plan_stays_inside(archive@, all, dest@, all.len() as int);
        }
        Ok(plan)
    }
}

} // verus!
