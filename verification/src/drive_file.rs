//! One file of the drive, as the listing knows it, and how it is read out of
//! what the remote service sends.

use crate::timestamp::{parse_rfc3339, rfc3339_instant, Timestamp};
use vstd::prelude::*;

verus! {

/// What a [`DriveFile`] stands for.
pub struct DriveFileView {
    pub id: Seq<char>,
    pub name: Seq<char>,
    pub modified_time: Timestamp,
    pub web_view_link: Seq<char>,
}

/// One file of the drive: the identifier the service gave it, the name it is
/// searched by, when it was last modified, and the link that opens it.
///
/// Two records with the same `id` are the same file.
#[derive(Debug, PartialEq, Eq)]
pub struct DriveFile {
    id: String,
    name: String,
    modified_time: Timestamp,
    web_view_link: String,
}

/// What a [`RemoteFile`] stands for.
pub struct RemoteFileView {
    pub id: Option<Seq<char>>,
    pub name: Option<Seq<char>>,
    pub modified_time: Option<Seq<char>>,
    pub web_view_link: Option<Seq<char>>,
}

/// A file as the remote service sends it: every field may be absent, and the
/// time of modification is still text.
#[derive(Debug, PartialEq, Eq)]
pub struct RemoteFile {
    pub id: Option<String>,
    pub name: Option<String>,
    pub modified_time: Option<String>,
    pub web_view_link: Option<String>,
}

/// Why a [`RemoteFile`] is no [`DriveFile`].
#[derive(Clone, Copy, Debug, PartialEq, Eq, Structural)]
pub enum DecodeError {
    /// The identifier is absent.
    MissingId,
    /// The link is absent.
    MissingWebViewLink,
    /// The name is absent.
    MissingName,
    /// The time of modification is absent.
    MissingModifiedTime,
    /// The time of modification is no RFC 3339 date and time.
    InvalidModifiedTime,
}

impl View for DriveFile {
    type V = DriveFileView;

    closed spec fn view(&self) -> DriveFileView {
        DriveFileView {
            id: self.id@,
            name: self.name@,
            modified_time: self.modified_time,
            web_view_link: self.web_view_link@,
        }
    }
}

impl Clone for DriveFile {
    fn clone(&self) -> (copy: DriveFile)
        ensures
            copy@ == self@,
    {
        DriveFile {
            id: self.id.clone(),
            name: self.name.clone(),
            modified_time: self.modified_time,
            web_view_link: self.web_view_link.clone(),
        }
    }
}

impl DeepView for DriveFile {
    type V = DriveFileView;

    open spec fn deep_view(&self) -> DriveFileView {
        self@
    }
}

impl View for RemoteFile {
    type V = RemoteFileView;

    open spec fn view(&self) -> RemoteFileView {
        RemoteFileView {
            id: self.id.deep_view(),
            name: self.name.deep_view(),
            modified_time: self.modified_time.deep_view(),
            web_view_link: self.web_view_link.deep_view(),
        }
    }
}

impl DeepView for RemoteFile {
    type V = RemoteFileView;

    open spec fn deep_view(&self) -> RemoteFileView {
        self@
    }
}

impl RemoteFileView {
    /// The record that these fields make, given what was read out of the text
    /// of the time of modification. The first fault found is reported: the
    /// identifier is looked at first, then the link, the name and the time.
    pub open spec fn record(self, read: Option<Timestamp>) -> Result<DriveFileView, DecodeError> {
        if self.id is None {
            Err(DecodeError::MissingId)
        } else if self.web_view_link is None {
            Err(DecodeError::MissingWebViewLink)
        } else if self.name is None {
            Err(DecodeError::MissingName)
        } else if self.modified_time is None {
            Err(DecodeError::MissingModifiedTime)
        } else if read is None {
            Err(DecodeError::InvalidModifiedTime)
        } else {
            Ok(
                DriveFileView {
                    id: self.id->0,
                    name: self.name->0,
                    modified_time: read->0,
                    web_view_link: self.web_view_link->0,
                },
            )
        }
    }

    /// What is read out of the text of the time of modification; nothing
    /// where the text is absent.
    pub open spec fn read_time(self) -> Option<Timestamp> {
        match self.modified_time {
            Some(text) => rfc3339_instant(text),
            None => None,
        }
    }

    /// The record that these fields make.
    pub open spec fn decoded(self) -> Result<DriveFileView, DecodeError> {
        self.record(self.read_time())
    }
}

/// Whether `r` is `expected`, each record taken by its view.
pub open spec fn decodes_to(
    r: Result<DriveFile, DecodeError>,
    expected: Result<DriveFileView, DecodeError>,
) -> bool {
    match r {
        Ok(file) => expected == Ok::<DriveFileView, DecodeError>(file@),
        Err(e) => expected == Err::<DriveFileView, DecodeError>(e),
    }
}

impl DriveFile {
    /// A record with these fields.
    pub fn new(id: String, name: String, modified_time: Timestamp, web_view_link: String) -> (file:
        DriveFile)
        ensures
            file@ == (DriveFileView {
                id: id@,
                name: name@,
                modified_time,
                web_view_link: web_view_link@,
            }),
    {
        DriveFile { id, name, modified_time, web_view_link }
    }

    /// The identifier that the service gave the file.
    pub fn id(&self) -> (id: &str)
        ensures
            id@ == self@.id,
    {
        self.id.as_str()
    }

    /// The name of the file.
    pub fn name(&self) -> (name: &str)
        ensures
            name@ == self@.name,
    {
        self.name.as_str()
    }

    /// When the file was last modified.
    pub fn modified_time(&self) -> (at: Timestamp)
        ensures
            at == self@.modified_time,
    {
        self.modified_time
    }

    /// The link that opens the file.
    pub fn web_view_link(&self) -> (link: &str)
        ensures
            link@ == self@.web_view_link,
    {
        self.web_view_link.as_str()
    }

    /// The text a file is searched by: its name.
    pub fn text(&self) -> (text: &str)
        ensures
            text@ == self@.name,
    {
        self.name.as_str()
    }

    /// What choosing a file yields: the link that opens it.
    pub fn output(&self) -> (link: &str)
        ensures
            link@ == self@.web_view_link,
    {
        self.web_view_link.as_str()
    }

    /// Whether `self` and `other` are the same file, that is, carry the same
    /// identifier.
    pub fn same_file(&self, other: &DriveFile) -> (same: bool)
        ensures
            same == (self@.id == other@.id),
    {
        self.id == other.id
    }

    /// Makes a record of what the service sent and of `read`, the time that
    /// was read out of `file.modified_time`. Every field must be there and the
    /// time must have been read; the first fault found is the one reported.
    pub fn from_fields(file: RemoteFile, read: Option<Timestamp>) -> (r: Result<
        DriveFile,
        DecodeError,
    >)
        ensures
            decodes_to(r, file@.record(read)),
    {
        let RemoteFile { id, name, modified_time, web_view_link } = file;
        let id = match id {
            Some(id) => id,
            None => return Err(DecodeError::MissingId),
        };
        let web_view_link = match web_view_link {
            Some(link) => link,
            None => return Err(DecodeError::MissingWebViewLink),
        };
        let name = match name {
            Some(name) => name,
            None => return Err(DecodeError::MissingName),
        };
        if modified_time.is_none() {
            return Err(DecodeError::MissingModifiedTime);
        }
        match read {
            Some(at) => Ok(DriveFile { id, name, modified_time: at, web_view_link }),
            None => Err(DecodeError::InvalidModifiedTime),
        }
    }

    /// Makes a record of what the service sent. The time of modification is
    /// read as RFC 3339; a file that lacks a field, or whose time is not
    /// read, is refused with the first fault found.
    pub fn from_drive3_file(file: RemoteFile) -> (r: Result<DriveFile, DecodeError>)
        ensures
            decodes_to(r, file@.decoded()),
    {
        let read = match &file.modified_time {
            Some(text) => parse_rfc3339(text.as_str()),
            None => None,
        };
        DriveFile::from_fields(file, read)
    }
}

} // verus!
