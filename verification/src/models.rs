//! Shared data shapes: files, tags, associations, watched directories and
//! search requests, together with the classification of files by extension.
//!
//! Timestamps are seconds since the Unix epoch; free-form metadata is
//! carried as text.

use vstd::prelude::*;
use crate::text::{lower_of, lowercase, str_eq};

verus! {

/// Classification of a file, derived from its extension.
#[derive(Debug, Clone, Copy, PartialEq, Eq, Structural)]
pub enum FileType {
    Image,
    Audio,
    Video,
    Text,
    Binary,
    Other,
}

/// The known image extensions, already lowercased.
pub open spec fn is_image_ext(s: Seq<char>) -> bool {
    ||| s == "jpg"@
    ||| s == "jpeg"@
    ||| s == "png"@
    ||| s == "gif"@
    ||| s == "webp"@
    ||| s == "bmp"@
    ||| s == "svg"@
    ||| s == "ico"@
    ||| s == "tiff"@
}

/// The known audio extensions, already lowercased.
pub open spec fn is_audio_ext(s: Seq<char>) -> bool {
    ||| s == "mp3"@
    ||| s == "wav"@
    ||| s == "flac"@
    ||| s == "aac"@
    ||| s == "ogg"@
    ||| s == "m4a"@
    ||| s == "wma"@
    ||| s == "opus"@
}

/// The known video extensions, already lowercased.
pub open spec fn is_video_ext(s: Seq<char>) -> bool {
    ||| s == "mp4"@
    ||| s == "avi"@
    ||| s == "mkv"@
    ||| s == "mov"@
    ||| s == "webm"@
    ||| s == "flv"@
    ||| s == "wmv"@
    ||| s == "m4v"@
}

/// The known text extensions, already lowercased.
pub open spec fn is_text_ext(s: Seq<char>) -> bool {
    ||| s == "txt"@
    ||| s == "md"@
    ||| s == "json"@
    ||| s == "xml"@
    ||| s == "yaml"@
    ||| s == "yml"@
    ||| s == "csv"@
    ||| s == "log"@
    ||| s == "toml"@
    ||| s == "ini"@
    ||| s == "cfg"@
    ||| s == "conf"@
    ||| s == "rtf"@
}

/// The known binary and archive extensions, already lowercased.
pub open spec fn is_binary_ext(s: Seq<char>) -> bool {
    ||| s == "exe"@
    ||| s == "dll"@
    ||| s == "so"@
    ||| s == "bin"@
    ||| s == "zip"@
    ||| s == "rar"@
    ||| s == "7z"@
    ||| s == "tar"@
    ||| s == "gz"@
    ||| s == "bz2"@
}

/// The file type assigned to an already-lowercased extension.
pub open spec fn spec_type_of_lower_ext(s: Seq<char>) -> FileType {
    if is_image_ext(s) {
        FileType::Image
    } else if is_audio_ext(s) {
        FileType::Audio
    } else if is_video_ext(s) {
        FileType::Video
    } else if is_text_ext(s) {
        FileType::Text
    } else if is_binary_ext(s) {
        FileType::Binary
    } else {
        FileType::Other
    }
}

/// The file type assigned to an extension, after case folding.
pub open spec fn spec_type_of_ext(s: Seq<char>) -> FileType {
    spec_type_of_lower_ext(lower_of(s))
}

/// The extension-to-type mapping is a pure total function: each known
/// lowercased extension is sent to the type of its list, every other
/// extension to `Other`.
pub proof fn lemma_type_of_lower_ext_total(s: Seq<char>)
    ensures
        is_image_ext(s) ==> spec_type_of_lower_ext(s) == FileType::Image,
        !is_image_ext(s) && is_audio_ext(s) ==> spec_type_of_lower_ext(s) == FileType::Audio,
        !is_image_ext(s) && !is_audio_ext(s) && is_video_ext(s) ==> spec_type_of_lower_ext(s)
            == FileType::Video,
        !is_image_ext(s) && !is_audio_ext(s) && !is_video_ext(s) && is_text_ext(s)
            ==> spec_type_of_lower_ext(s) == FileType::Text,
        !is_image_ext(s) && !is_audio_ext(s) && !is_video_ext(s) && !is_text_ext(s)
            && is_binary_ext(s) ==> spec_type_of_lower_ext(s) == FileType::Binary,
        !is_image_ext(s) && !is_audio_ext(s) && !is_video_ext(s) && !is_text_ext(s)
            && !is_binary_ext(s) ==> spec_type_of_lower_ext(s) == FileType::Other,
{
}

impl FileType {
    /// Classify an already-lowercased extension.
    fn from_lower_extension(l: &str) -> (r: FileType)
        ensures
            r == spec_type_of_lower_ext(l@),
    {
        if str_eq(l, "jpg") || str_eq(l, "jpeg") || str_eq(l, "png") || str_eq(l, "gif")
            || str_eq(l, "webp") || str_eq(l, "bmp") || str_eq(l, "svg") || str_eq(l, "ico")
            || str_eq(l, "tiff") {
            FileType::Image
        } else if str_eq(l, "mp3") || str_eq(l, "wav") || str_eq(l, "flac") || str_eq(l, "aac")
            || str_eq(l, "ogg") || str_eq(l, "m4a") || str_eq(l, "wma") || str_eq(l, "opus") {
            FileType::Audio
        } else if str_eq(l, "mp4") || str_eq(l, "avi") || str_eq(l, "mkv") || str_eq(l, "mov")
            || str_eq(l, "webm") || str_eq(l, "flv") || str_eq(l, "wmv") || str_eq(l, "m4v") {
            FileType::Video
        } else if str_eq(l, "txt") || str_eq(l, "md") || str_eq(l, "json") || str_eq(l, "xml")
            || str_eq(l, "yaml") || str_eq(l, "yml") || str_eq(l, "csv") || str_eq(l, "log")
            || str_eq(l, "toml") || str_eq(l, "ini") || str_eq(l, "cfg") || str_eq(l, "conf")
            || str_eq(l, "rtf") {
            FileType::Text
        } else if str_eq(l, "exe") || str_eq(l, "dll") || str_eq(l, "so") || str_eq(l, "bin")
            || str_eq(l, "zip") || str_eq(l, "rar") || str_eq(l, "7z") || str_eq(l, "tar")
            || str_eq(l, "gz") || str_eq(l, "bz2") {
            FileType::Binary
        } else {
            FileType::Other
        }
    }

    /// Derive the file type from a file extension, case-insensitively.
    pub fn from_extension(ext: &str) -> (r: FileType)
        ensures
            r == spec_type_of_ext(ext@),
    {
        let l = lowercase(ext);
        Self::from_lower_extension(l.as_str())
    }

    /// The display name of the type, used as the name of its auto tag.
    pub fn display_name(&self) -> (r: &'static str)
        ensures
            r@ == self.spec_display_name(),
    {
        match self {
            FileType::Image => "图片",
            FileType::Audio => "音频",
            FileType::Video => "视频",
            FileType::Text => "文本",
            FileType::Binary => "二进制",
            FileType::Other => "其他",
        }
    }

    /// The display name of each file type.
    pub open spec fn spec_display_name(self) -> Seq<char> {
        match self {
            FileType::Image => "图片"@,
            FileType::Audio => "音频"@,
            FileType::Video => "视频"@,
            FileType::Text => "文本"@,
            FileType::Binary => "二进制"@,
            FileType::Other => "其他"@,
        }
    }
}

/// Lifecycle state of an indexed file record.
#[derive(Debug, Clone, Copy, PartialEq, Eq, Structural)]
pub enum FileStatus {
    Active,
    Deleted,
    Moved,
}

impl FileStatus {
    /// The storage encoding of the status.
    pub fn as_str(&self) -> (r: &'static str)
        ensures
            r@ == self.spec_as_str(),
    {
        match self {
            FileStatus::Active => "active",
            FileStatus::Deleted => "deleted",
            FileStatus::Moved => "moved",
        }
    }

    /// The storage encoding of each status.
    pub open spec fn spec_as_str(self) -> Seq<char> {
        match self {
            FileStatus::Active => "active"@,
            FileStatus::Deleted => "deleted"@,
            FileStatus::Moved => "moved"@,
        }
    }

    /// Decode a storage encoding; unknown encodings fall back to `Active`.
    pub fn from_str(s: &str) -> (r: FileStatus)
        ensures
            r == Self::spec_from_str(s@),
    {
        if str_eq(s, "active") {
            FileStatus::Active
        } else if str_eq(s, "deleted") {
            FileStatus::Deleted
        } else if str_eq(s, "moved") {
            FileStatus::Moved
        } else {
            FileStatus::Active
        }
    }

    /// The status decoded from a storage encoding.
    pub open spec fn spec_from_str(s: Seq<char>) -> FileStatus {
        if s == "active"@ {
            FileStatus::Active
        } else if s == "deleted"@ {
            FileStatus::Deleted
        } else if s == "moved"@ {
            FileStatus::Moved
        } else {
            FileStatus::Active
        }
    }
}

/// Origin of a tag: provisioned by the system or created by a user.
#[derive(Debug, Clone, Copy, PartialEq, Eq, Structural)]
pub enum TagType {
    System,
    Custom,
}

impl TagType {
    /// The storage encoding of the tag type.
    pub fn as_str(&self) -> (r: &'static str)
        ensures
            r@ == self.spec_as_str(),
    {
        match self {
            TagType::System => "system",
            TagType::Custom => "custom",
        }
    }

    /// The storage encoding of each tag type.
    pub open spec fn spec_as_str(self) -> Seq<char> {
        match self {
            TagType::System => "system"@,
            TagType::Custom => "custom"@,
        }
    }

    /// Decode a storage encoding; unknown encodings fall back to `Custom`.
    pub fn from_str(s: &str) -> (r: TagType)
        ensures
            r == Self::spec_from_str(s@),
    {
        if str_eq(s, "system") {
            TagType::System
        } else {
            TagType::Custom
        }
    }

    /// The tag type decoded from a storage encoding.
    pub open spec fn spec_from_str(s: Seq<char>) -> TagType {
        if s == "system"@ {
            TagType::System
        } else {
            TagType::Custom
        }
    }
}

/// An indexed file record.
///
/// The path is unique among records whose status is `Active`; the
/// timestamps are seconds since the Unix epoch.
#[derive(Debug, PartialEq)]
pub struct File {
    pub id: Option<i64>,
    pub path: String,
    pub name: String,
    pub extension: String,
    pub size: u64,
    pub file_type: FileType,
    pub created_at: i64,
    pub modified_at: i64,
    pub accessed_at: i64,
    pub status: FileStatus,
    pub indexed_at: i64,
    pub metadata: Option<String>,
}

impl Clone for File {
    fn clone(&self) -> (r: Self)
        ensures
            r == *self,
    {
        File {
            id: self.id,
            path: self.path.clone(),
            name: self.name.clone(),
            extension: self.extension.clone(),
            size: self.size,
            file_type: self.file_type,
            created_at: self.created_at,
            modified_at: self.modified_at,
            accessed_at: self.accessed_at,
            status: self.status,
            indexed_at: self.indexed_at,
            metadata: match &self.metadata {
                Some(m) => Some(m.clone()),
                None => None,
            },
        }
    }
}

/// A tag record. Names are unique; `use_count` never goes below zero.
#[derive(Debug, PartialEq)]
pub struct Tag {
    pub id: Option<i64>,
    pub name: String,
    pub display_name: String,
    pub tag_type: TagType,
    pub color: String,
    pub icon: Option<String>,
    pub use_count: i64,
    pub created_at: i64,
}

impl Clone for Tag {
    fn clone(&self) -> (r: Self)
        ensures
            r == *self,
    {
        Tag {
            id: self.id,
            name: self.name.clone(),
            display_name: self.display_name.clone(),
            tag_type: self.tag_type,
            color: self.color.clone(),
            icon: match &self.icon {
                Some(i) => Some(i.clone()),
                None => None,
            },
            use_count: self.use_count,
            created_at: self.created_at,
        }
    }
}

/// An association between a file and a tag; at most one per pair.
#[derive(Debug, Clone, Copy, PartialEq, Eq, Structural)]
pub struct FileTag {
    pub file_id: i64,
    pub tag_id: i64,
    pub is_auto: bool,
    pub created_at: i64,
}

/// A directory registered for watching and periodic scans.
#[derive(Debug, PartialEq)]
pub struct WatchedDirectory {
    pub id: Option<i64>,
    pub path: String,
    pub recursive: bool,
    pub filters: Option<DirectoryFilters>,
    pub enabled: bool,
    pub created_at: i64,
    pub last_scanned_at: Option<i64>,
}

/// Two optional filter sets hold the same extension and exclusion lists.
pub open spec fn filters_opt_eq(a: Option<DirectoryFilters>, b: Option<DirectoryFilters>) -> bool {
    match a {
        Some(fa) => b matches Some(fb) && fa.extensions.deep_view() == fb.extensions.deep_view()
            && fa.exclude.deep_view() == fb.exclude.deep_view(),
        None => b is None,
    }
}

impl Clone for WatchedDirectory {
    fn clone(&self) -> (r: Self)
        ensures
            r.id == self.id,
            r.path == self.path,
            r.recursive == self.recursive,
            filters_opt_eq(r.filters, self.filters),
            r.enabled == self.enabled,
            r.created_at == self.created_at,
            r.last_scanned_at == self.last_scanned_at,
    {
        WatchedDirectory {
            id: self.id,
            path: self.path.clone(),
            recursive: self.recursive,
            filters: match &self.filters {
                Some(f) => Some(f.clone()),
                None => None,
            },
            enabled: self.enabled,
            created_at: self.created_at,
            last_scanned_at: self.last_scanned_at,
        }
    }
}

/// Extension and exclusion filters attached to a watched directory.
#[derive(Debug, PartialEq)]
pub struct DirectoryFilters {
    pub extensions: Option<Vec<String>>,
    pub exclude: Option<Vec<String>>,
}

impl Clone for DirectoryFilters {
    fn clone(&self) -> (r: Self)
        ensures
            r.extensions.deep_view() == self.extensions.deep_view(),
            r.exclude.deep_view() == self.exclude.deep_view(),
    {
        DirectoryFilters {
            extensions: clone_opt_strings(&self.extensions),
            exclude: clone_opt_strings(&self.exclude),
        }
    }
}

/// Clone an optional list of strings, preserving its contents.
fn clone_opt_strings(v: &Option<Vec<String>>) -> (r: Option<Vec<String>>)
    ensures
        r.deep_view() == v.deep_view(),
{
    match v {
        Some(list) => {
            let mut out: Vec<String> = Vec::new();
            let mut i: usize = 0;
            while i < list.len()
                invariant
                    0 <= i <= list@.len(),
                    out@.len() == i,
                    forall|k: int| 0 <= k < i ==> out@[k]@ == list@[k]@,
                decreases list@.len() - i,
            {
                out.push(list[i].clone());
                i += 1;
            }
            assert(out.deep_view() =~= list.deep_view());
            Some(out)
        },
        None => None,
    }
}

/// A boolean combinator for search keywords.
#[derive(Debug, Clone, Copy, PartialEq, Eq, Structural)]
pub enum SearchOperator {
    And,
    Or,
}

impl SearchOperator {
    /// The canonical spelling of the operator.
    pub fn as_str(&self) -> (r: &'static str)
        ensures
            r@ == self.spec_as_str(),
    {
        match self {
            SearchOperator::And => "AND",
            SearchOperator::Or => "OR",
        }
    }

    /// The canonical spelling of each operator.
    pub open spec fn spec_as_str(self) -> Seq<char> {
        match self {
            SearchOperator::And => "AND"@,
            SearchOperator::Or => "OR"@,
        }
    }
}

/// A search request: keywords, how to combine them, an optional type
/// filter and a pagination window.
#[derive(Debug)]
pub struct SearchQuery {
    pub keywords: Vec<String>,
    pub operator: SearchOperator,
    pub file_type_filter: Option<FileType>,
    pub limit: usize,
    pub offset: usize,
}

/// One ranked search match: the file, its tags, and a relevance score
/// scaled to thousandths (higher is more relevant).
#[derive(Debug)]
pub struct SearchResult {
    pub file: File,
    pub tags: Vec<Tag>,
    pub relevance_millis: i64,
}

/// A page of search matches together with the unpaginated total.
#[derive(Debug)]
pub struct SearchResultResponse {
    pub results: Vec<SearchResult>,
    pub total: i64,
}

/// Counters describing the index as a whole.
#[derive(Debug, Clone, Copy, PartialEq, Eq, Structural)]
pub struct SystemStats {
    pub total_files: i64,
    pub indexed_files: i64,
    pub total_tags: i64,
    pub watched_directories: i64,
}

/// A request to create a user tag.
#[derive(Debug)]
pub struct CreateTagRequest {
    pub name: String,
    pub display_name: String,
    pub color: String,
    pub icon: Option<String>,
}

impl CreateTagRequest {
    /// The `Custom` tag this request describes, not yet counted as
    /// used, created at `now`.
    pub fn into_tag(self, now: i64) -> (r: Tag)
        ensures
            r.id is None,
            r.name == self.name,
            r.display_name == self.display_name,
            r.tag_type is Custom,
            r.color == self.color,
            r.icon == self.icon,
            r.use_count == 0,
            r.created_at == now,
    {
        Tag {
            id: None,
            name: self.name,
            display_name: self.display_name,
            tag_type: TagType::Custom,
            color: self.color,
            icon: self.icon,
            use_count: 0,
            created_at: now,
        }
    }
}

/// A request to register a watched directory.
#[derive(Debug)]
pub struct CreateWatchedDirectoryRequest {
    pub path: String,
    pub recursive: bool,
    pub filters: Option<DirectoryFilters>,
}

impl CreateWatchedDirectoryRequest {
    /// The enabled, never-scanned directory record this request
    /// describes, created at `now`.
    pub fn into_directory(self, now: i64) -> (r: WatchedDirectory)
        ensures
            r.id is None,
            r.path == self.path,
            r.recursive == self.recursive,
            r.filters == self.filters,
            r.enabled,
            r.created_at == now,
            r.last_scanned_at is None,
    {
        WatchedDirectory {
            id: None,
            path: self.path,
            recursive: self.recursive,
            filters: self.filters,
            enabled: true,
            created_at: now,
            last_scanned_at: None,
        }
    }
}

/// Errors surfaced by the library.
#[derive(Debug)]
pub enum AppError {
    /// A storage constraint was violated; the message names it.
    Database(String),
    /// A file record was looked up and is absent.
    FileNotFound(String),
    /// A tag was looked up and is absent.
    TagNotFound(String),
    /// A path was registered for watching twice.
    AlreadyWatched(String),
    /// A request failed validation; the message explains why.
    Validation(String),
    /// The index ran out of identifiers.
    Unknown(String),
}

} // verus!
