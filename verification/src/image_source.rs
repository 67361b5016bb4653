//! What the remote file store lists, and the pictures made of its entries.

use vstd::prelude::*;
use vstd::string::StringExecFns;
use crate::converter::ImageFormat;
use crate::error::SyncError;
use crate::text::{join_path, join_path_view, opt_text, str_eq, text_or_empty, text_or_empty_view};

verus! {

/// The media type by which the store marks a folder.
pub const FOLDER_MIME_TYPE: &'static str = "application/vnd.google-apps.folder";

/// The collection a picture belongs to: the folder directly below the root
/// under which it was found.
#[derive(Debug, Copy, Clone, PartialEq, Eq, Structural)]
pub enum Tag {
    Unknown,
    Marked,
    Unmarked,
}

impl Tag {
    /// The name of the tag.
    pub open spec fn name(self) -> Seq<char> {
        match self {
            Tag::Unknown => "unknown"@,
            Tag::Marked => "marked"@,
            Tag::Unmarked => "unmarked"@,
        }
    }

    /// The tag of a folder name; every name that is not a tag's is `Unknown`.
    pub open spec fn of_name(s: Seq<char>) -> Tag {
        if s == "marked"@ {
            Tag::Marked
        } else if s == "unmarked"@ {
            Tag::Unmarked
        } else {
            Tag::Unknown
        }
    }

    /// The tag of a folder name.
    pub fn of(s: &str) -> (r: Tag)
        ensures
            r == Tag::of_name(s@),
    {
        if str_eq(s, "marked") {
            Tag::Marked
        } else if str_eq(s, "unmarked") {
            Tag::Unmarked
        } else {
            Tag::Unknown
        }
    }

    pub fn as_str(&self) -> (r: &'static str)
        ensures
            r@ == self.name(),
    {
        match self {
            Tag::Unknown => "unknown",
            Tag::Marked => "marked",
            Tag::Unmarked => "unmarked",
        }
    }

    /// Every tag is found again from its own name.
    pub proof fn lemma_name_round_trip(self)
        ensures
            Tag::of_name(self.name()) == self,
    {
        reveal_strlit("unknown");
        reveal_strlit("marked");
        reveal_strlit("unmarked");
        assert("unknown"@.len() == 7);
        assert("marked"@.len() == 6);
        assert("unmarked"@.len() == 8);
    }
}

impl std::str::FromStr for Tag {
    type Err = std::convert::Infallible;

    fn from_str(s: &str) -> (r: Result<Tag, std::convert::Infallible>)
        ensures
            r matches Ok(tag) && tag == Tag::of_name(s@),
    {
        Ok(Tag::of(s))
    }
}

/// One entry of a folder listing, with the fields the store was asked for.
#[derive(Debug, Clone, PartialEq, Eq)]
pub struct File {
    pub id: Option<String>,
    pub name: Option<String>,
    pub mime_type: Option<String>,
    pub sha1_checksum: Option<String>,
}

/// A listing entry as plain values.
pub struct FileView {
    pub id: Option<Seq<char>>,
    pub name: Option<Seq<char>>,
    pub mime_type: Option<Seq<char>>,
    pub sha1_checksum: Option<Seq<char>>,
}

impl View for File {
    type V = FileView;

    open spec fn view(&self) -> FileView {
        FileView {
            id: opt_text(self.id),
            name: opt_text(self.name),
            mime_type: opt_text(self.mime_type),
            sha1_checksum: opt_text(self.sha1_checksum),
        }
    }
}

/// What the crawl does with an entry, by its media type.
#[derive(Debug, Copy, Clone, PartialEq, Eq, Structural)]
pub enum EntryKind {
    /// A picture in a supported encoding.
    Image(ImageFormat),
    /// A folder.
    Folder,
    /// Anything else.
    Unsupported,
}

impl FileView {
    /// The media type, empty where the store gave none.
    pub open spec fn mime(self) -> Seq<char> {
        text_or_empty_view(self.mime_type)
    }

    /// A supported encoding wins over the folder type; all else is unsupported.
    pub open spec fn kind(self) -> EntryKind {
        match ImageFormat::of_mime(self.mime()) {
            Some(format) => EntryKind::Image(format),
            None => if self.mime() == FOLDER_MIME_TYPE@ {
                EntryKind::Folder
            } else {
                EntryKind::Unsupported
            },
        }
    }

    /// Whether the entry carries an id that can name it.
    pub open spec fn has_id(self) -> bool {
        self.id matches Some(id) && id.len() > 0
    }
}

impl File {
    pub fn kind(&self) -> (r: EntryKind)
        ensures
            r == self@.kind(),
    {
        let mime = text_or_empty(&self.mime_type);
        match ImageFormat::from_mime(mime) {
            Some(format) => EntryKind::Image(format),
            None => if str_eq(mime, FOLDER_MIME_TYPE) {
                EntryKind::Folder
            } else {
                EntryKind::Unsupported
            },
        }
    }
}

/// A picture found by the crawl.
#[derive(Debug, Clone, PartialEq, Eq)]
pub struct Image {
    /// Unique id in the store, never empty.
    pub id: String,
    /// File name.
    pub name: String,
    pub tag: Tag,
    /// Path from the tag's folder down to the file, joined by `/`.
    pub full_path: String,
    /// Content hash as the store reports it; empty where it reports none.
    pub digest: String,
    pub format: ImageFormat,
}

/// A picture as plain values.
pub struct ImageView {
    pub id: Seq<char>,
    pub name: Seq<char>,
    pub tag: Tag,
    pub full_path: Seq<char>,
    pub digest: Seq<char>,
    pub format: ImageFormat,
}

impl View for Image {
    type V = ImageView;

    open spec fn view(&self) -> ImageView {
        ImageView {
            id: self.id@,
            name: self.name@,
            tag: self.tag,
            full_path: self.full_path@,
            digest: self.digest@,
            format: self.format,
        }
    }
}

impl Image {
    /// Every picture has an id.
    pub open spec fn wf(&self) -> bool {
        self.id@.len() > 0
    }

    /// A copy with the same contents.
    pub fn duplicate(&self) -> (r: Image)
        ensures
            r@ == self@,
    {
        Image {
            id: self.id.clone(),
            name: self.name.clone(),
            tag: self.tag,
            full_path: self.full_path.clone(),
            digest: self.digest.clone(),
            format: self.format,
        }
    }
}

/// The picture that a listing entry describes, found in the folder at
/// `full_path` under `tag`.
pub open spec fn image_of(
    file: FileView,
    format: ImageFormat,
    tag: Tag,
    full_path: Seq<char>,
) -> ImageView
    recommends
        file.has_id(),
{
    ImageView {
        id: file.id->0,
        name: text_or_empty_view(file.name),
        tag,
        full_path: join_path_view(full_path, text_or_empty_view(file.name)),
        digest: text_or_empty_view(file.sha1_checksum),
        format,
    }
}

/// Makes the picture of a listing entry. An entry without an id, or with an
/// empty one, is refused.
pub fn create_image(file: &File, format: ImageFormat, tag: Tag, full_path: &str) -> (r: Result<
    Image,
    SyncError,
>)
    ensures
        file@.has_id() ==> (r matches Ok(image) && image.wf() && image@ == image_of(
            file@,
            format,
            tag,
            full_path@,
        )),
        !file@.has_id() ==> (r matches Err(SyncError::MissingRequiredField(field)) && field@
            == "id"@),
{
    let id = match &file.id {
        Some(id) => id,
        None => { return Err(SyncError::MissingRequiredField("id")); },
    };
    if id.as_str().is_empty() {
        return Err(SyncError::MissingRequiredField("id"));
    }
    let name = text_or_empty(&file.name);
    Ok(
        Image {
            id: id.clone(),
            name: String::from_str(name),
            tag,
            full_path: join_path(full_path, name),
            digest: String::from_str(text_or_empty(&file.sha1_checksum)),
            format,
        },
    )
}

/// Whether a status code says that the request succeeded.
pub open spec fn is_success(status: u16) -> bool {
    200 <= status < 300
}

/// Whether the answer to a download carries the picture's bytes: only an
/// answer with a status from 200 to 299 does.
pub fn check_status(status: u16) -> (r: Result<(), SyncError>)
    ensures
        is_success(status) ==> r is Ok,
        !is_success(status) ==> (r matches Err(SyncError::BadStatusCode(code)) && code == status),
{
    if 200 <= status && status < 300 {
        Ok(())
    } else {
        Err(SyncError::BadStatusCode(status))
    }
}

} // verus!
