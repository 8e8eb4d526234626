use vstd::prelude::*;
use crate::kmz::{join_path, path_exists, under, CompressedKMZ};
use crate::select::{is_archive_name, is_selected};

verus! {

/// What an autoindex row denotes, read from the `alt` text of its icon.
#[derive(PartialEq, Eq, Structural, Clone, Copy, Debug)]
pub enum RecordType {
    ParentDirectory,
    Directory,
    TextFile,
    ImageFile,
    VideoFile,
    Unknown,
}

/// A marker that names no record kind; carries the marker as found.
#[derive(Debug)]
pub enum RecordTypeError {
    InvalidRecordType(String),
}

/// The icon marker of each kind, as the autoindex page renders it.
pub open spec fn marker_of(kind: RecordType) -> Seq<char> {
    match kind {
        RecordType::Directory => "[DIR]"@,
        RecordType::ParentDirectory => "[PARENTDIR]"@,
        RecordType::TextFile => "[TXT]"@,
        RecordType::ImageFile => "[IMG]"@,
        RecordType::VideoFile => "[VID]"@,
        RecordType::Unknown => "[   ]"@,
    }
}

/// The kind a marker denotes, if any: the inverse of `marker_of`.
pub open spec fn kind_of_marker(m: Seq<char>) -> Option<RecordType> {
    if m == "[DIR]"@ {
        Some(RecordType::Directory)
    } else if m == "[PARENTDIR]"@ {
        Some(RecordType::ParentDirectory)
    } else if m == "[TXT]"@ {
        Some(RecordType::TextFile)
    } else if m == "[IMG]"@ {
        Some(RecordType::ImageFile)
    } else if m == "[VID]"@ {
        Some(RecordType::VideoFile)
    } else if m == "[   ]"@ {
        Some(RecordType::Unknown)
    } else {
        None
    }
}

/// Character-wise equality of two strings.
pub fn same_text(a: &str, b: &str) -> (r: bool)
    ensures
        r == (a@ == b@),
{
    let a_owned = a.to_owned();
    let b_owned = b.to_owned();
    a_owned == b_owned
}

impl RecordType {
    /// Classifies a marker; case-sensitive and exact.
    pub fn from_str(s: &str) -> (r: Result<RecordType, RecordTypeError>)
        ensures
            match r {
                Ok(k) => kind_of_marker(s@) == Some(k),
                Err(RecordTypeError::InvalidRecordType(m)) => kind_of_marker(s@) is None && m@ == s@,
            },
    {
        if same_text(s, "[DIR]") {
            Ok(RecordType::Directory)
        } else if same_text(s, "[PARENTDIR]") {
            Ok(RecordType::ParentDirectory)
        } else if same_text(s, "[TXT]") {
            Ok(RecordType::TextFile)
        } else if same_text(s, "[IMG]") {
            Ok(RecordType::ImageFile)
        } else if same_text(s, "[VID]") {
            Ok(RecordType::VideoFile)
        } else if same_text(s, "[   ]") {
            Ok(RecordType::Unknown)
        } else {
            Err(RecordTypeError::InvalidRecordType(s.to_owned()))
        }
    }

    /// The marker that denotes this kind.
    pub fn to_string(&self) -> (r: String)
        ensures
            r@ == marker_of(*self),
    {
        match self {
            RecordType::Directory => String::from_str("[DIR]"),
            RecordType::ParentDirectory => String::from_str("[PARENTDIR]"),
            RecordType::TextFile => String::from_str("[TXT]"),
            RecordType::ImageFile => String::from_str("[IMG]"),
            RecordType::VideoFile => String::from_str("[VID]"),
            RecordType::Unknown => String::from_str("[   ]"),
        }
    }

    /// Directory kinds are never fetched, whatever their name.
    pub fn is_directory(&self) -> (r: bool)
        ensures
            r == (*self == RecordType::ParentDirectory || *self == RecordType::Directory),
    {
        match self {
            RecordType::ParentDirectory | RecordType::Directory => true,
            _ => false,
        }
    }
}

/// One entry of a listing; `uri` is the listing's base URL followed by `name`.
#[derive(Debug)]
pub struct Record {
    pub kind: RecordType,
    pub uri: String,
    pub name: String,
    pub file_size: String,
}

pub struct RecordView {
    pub kind: RecordType,
    pub uri: Seq<char>,
    pub name: Seq<char>,
    pub file_size: Seq<char>,
}

impl View for Record {
    type V = RecordView;

    open spec fn view(&self) -> RecordView {
        RecordView { kind: self.kind, uri: self.uri@, name: self.name@, file_size: self.file_size@ }
    }
}

/// Records the fetcher takes: a non-empty URI, and never a directory.
pub open spec fn is_fetchable(r: RecordView) -> bool {
    r.uri.len() > 0 && r.kind != RecordType::ParentDirectory && r.kind != RecordType::Directory
}

impl Record {
    /// Whether the name denotes a KMZ-bearing compressed archive.
    pub fn is_kmz(&self) -> (r: bool)
        ensures
            r == is_archive_name(self.name@),
    {
        is_selected(self.name.as_str())
    }

    /// Whether the fetcher may download this record at all.
    pub fn is_fetchable(&self) -> (r: bool)
        ensures
            r == is_fetchable(self@),
    {
        !self.uri.as_str().is_empty() && !self.kind.is_directory()
    }

    /// Where the record is stored once downloaded into `work_dir`.
    pub fn download_path(&self, work_dir: &str) -> (r: String)
        ensures
            r@ == under(work_dir@, self.name@),
    {
        join_path(work_dir, self.name.as_str())
    }

    /// What downloading this record into `work_dir` takes: the URI to fetch and
    /// the path to store its body at; `None` where the fetcher declines it.
    pub fn download(&self, work_dir: &str) -> (r: Option<(String, String)>)
        ensures
            r is Some <==> is_fetchable(self@),
            r matches Some((uri, path)) ==> uri@ == self.uri@ && path@ == under(work_dir@, self.name@),
    {
        if self.is_fetchable() {
            Some((self.uri.clone(), self.download_path(work_dir)))
        } else {
            None
        }
    }

    /// Whether something is stored at the record's download path now.
    pub fn downloaded(&self, work_dir: &str) -> bool {
        let path = self.download_path(work_dir);
        path_exists(path.as_str())
    }

    /// The downloaded archive of a selected record, where it exists on disk.
    pub fn as_kmz(&self, work_dir: &str) -> (r: Option<CompressedKMZ>)
        ensures
            !is_archive_name(self.name@) ==> r is None,
            r matches Some(k) ==> k.path_view() == under(work_dir@, self.name@),
    {
        if self.is_kmz() {
            CompressedKMZ::new(self.download_path(work_dir))
        } else {
            None
        }
    }
}

/// Every kind's marker classifies back to that kind.
pub proof fn lemma_marker_round_trip(kind: RecordType)
    ensures
        kind_of_marker(marker_of(kind)) == Some(kind),
{
    reveal_strlit("[DIR]");
    reveal_strlit("[PARENTDIR]");
    reveal_strlit("[TXT]");
    reveal_strlit("[IMG]");
    reveal_strlit("[VID]");
    reveal_strlit("[   ]");
    assert("[DIR]"@[1] != "[TXT]"@[1]);
    assert("[DIR]"@[1] != "[IMG]"@[1]);
    assert("[DIR]"@[1] != "[VID]"@[1]);
    assert("[DIR]"@[1] != "[   ]"@[1]);
    assert("[TXT]"@[1] != "[IMG]"@[1]);
    assert("[TXT]"@[1] != "[VID]"@[1]);
    assert("[TXT]"@[1] != "[   ]"@[1]);
    assert("[IMG]"@[1] != "[VID]"@[1]);
    assert("[IMG]"@[1] != "[   ]"@[1]);
    assert("[VID]"@[1] != "[   ]"@[1]);
}

} // verus!
