//! Listing the remote files page by page: what to ask for, and what a page
//! that came back does to the set.

use crate::drive_file::{DecodeError, DriveFile, DriveFileView, RemoteFile, RemoteFileView};
use crate::drive_files::{
    ids, ids_unique, lemma_merged_all_concat, lemma_merged_all_ids, lemma_merged_all_len,
    lemma_merged_all_new, merged_all, DriveFiles,
};
use crate::timestamp::{rfc3339_text, to_rfc3339, Timestamp};
use vstd::prelude::*;

verus! {

/// The most files that one page is asked to hold.
pub const PAGE_SIZE: i32 = 1000;

/// The spaces that are listed.
pub const SPACES: &'static str = "drive";

/// The order in which the service is asked to list: the file modified last
/// comes first.
pub const ORDER_BY: &'static str = "modifiedTime desc";

/// The fields that the service is asked to send.
pub const FIELDS: &'static str = "nextPageToken, files(id, webViewLink, name, modifiedTime)";

/// What a [`ListRequest`] stands for.
pub struct ListRequestView {
    pub supports_all_drives: bool,
    pub spaces: Seq<char>,
    pub page_size: int,
    pub include_items_from_all_drives: bool,
    pub order_by: Seq<char>,
    pub fields: Seq<char>,
    pub q: Option<Seq<char>>,
    pub page_token: Option<Seq<char>>,
}

/// One call of the service's operation that lists files.
#[derive(Debug, PartialEq, Eq)]
pub struct ListRequest {
    /// Whether shared drives are supported by the caller.
    pub supports_all_drives: bool,
    /// The spaces to list.
    pub spaces: &'static str,
    /// The most files to send in one page.
    pub page_size: i32,
    /// Whether files of shared drives are listed too.
    pub include_items_from_all_drives: bool,
    /// The order of the files.
    pub order_by: &'static str,
    /// The fields to send.
    pub fields: &'static str,
    /// The filter, where only some files are wanted.
    pub q: Option<String>,
    /// Where to go on, as the page before said; absent for the first page.
    pub page_token: Option<String>,
}

impl View for ListRequest {
    type V = ListRequestView;

    open spec fn view(&self) -> ListRequestView {
        ListRequestView {
            supports_all_drives: self.supports_all_drives,
            spaces: self.spaces@,
            page_size: self.page_size as int,
            include_items_from_all_drives: self.include_items_from_all_drives,
            order_by: self.order_by@,
            fields: self.fields@,
            q: self.q.deep_view(),
            page_token: self.page_token.deep_view(),
        }
    }
}

/// The filter that keeps the files modified after the time written as `text`.
pub open spec fn modified_since_filter(text: Seq<char>) -> Seq<char> {
    "modifiedTime > '"@ + text + "'"@
}

/// The filter for the files modified after `since`: none where every file is
/// wanted, and none where `since` cannot be written as RFC 3339.
pub open spec fn filter_for(since: Option<Timestamp>) -> Option<Seq<char>> {
    match since {
        Some(at) => match rfc3339_text(at.secs, at.nanos, at.offset) {
            Some(text) => Some(modified_since_filter(text)),
            None => None,
        },
        None => None,
    }
}

/// The call that lists with the filter `q`, going on at `page_token`.
pub open spec fn list_request(
    q: Option<Seq<char>>,
    page_token: Option<Seq<char>>,
) -> ListRequestView {
    ListRequestView {
        supports_all_drives: true,
        spaces: SPACES@,
        page_size: PAGE_SIZE as int,
        include_items_from_all_drives: true,
        order_by: ORDER_BY@,
        fields: FIELDS@,
        q,
        page_token,
    }
}

/// The filter that keeps the files modified after the time written as `text`.
pub fn modified_since_query(text: &str) -> (q: String)
    ensures
        q@ == modified_since_filter(text@),
{
    let mut q = String::from_str("modifiedTime > '");
    q.append(text);
    q.append("'");
    q
}

/// The filter for the files modified after `since`, if any is to be set.
pub fn query_for(since: Option<Timestamp>) -> (q: Option<String>)
    ensures
        q.deep_view() == filter_for(since),
{
    match since {
        Some(at) => match to_rfc3339(&at) {
            Some(text) => Some(modified_since_query(text.as_str())),
            None => None,
        },
        None => None,
    }
}

/// Why a listing came to nothing.
#[derive(Clone, Copy, Debug, PartialEq, Eq, Structural)]
pub enum RemoteError {
    /// The connection failed.
    HttpError,
    /// Reading the answer failed.
    Io,
    /// No API key was to be had.
    MissingAPIKey,
    /// No token was to be had.
    MissingToken,
    /// The call was cancelled.
    Cancelled,
    /// An upload was too large.
    UploadSizeLimitExceeded,
    /// The service answered with a status that is no success.
    Failure,
    /// The service did not understand the call.
    BadRequest,
    /// A field was set twice.
    FieldClash,
    /// The answer was no JSON of the expected shape.
    JsonDecodeError,
    /// The answer held no list of files.
    MissingFileList,
    /// The answer held a file that is no record.
    Record(DecodeError),
}

/// What a [`RemotePage`] stands for.
pub struct RemotePageView {
    pub files: Option<Seq<RemoteFileView>>,
    pub next_page_token: Option<Seq<char>>,
}

/// One page of a listing, as the service sends it.
#[derive(Debug, PartialEq, Eq)]
pub struct RemotePage {
    /// The files of the page.
    pub files: Option<Vec<RemoteFile>>,
    /// Where the next page starts; absent on the last page.
    pub next_page_token: Option<String>,
}

impl View for RemotePage {
    type V = RemotePageView;

    open spec fn view(&self) -> RemotePageView {
        RemotePageView {
            files: self.files.deep_view(),
            next_page_token: self.next_page_token.deep_view(),
        }
    }
}

/// What a [`Page`] stands for.
pub struct PageView {
    pub files: Seq<DriveFileView>,
    pub next_page_token: Option<Seq<char>>,
}

/// One page of a listing, every file of it a record.
#[derive(Debug, PartialEq, Eq)]
pub struct Page {
    /// The records of the page, in the order in which they came.
    pub files: Vec<DriveFile>,
    /// Where the next page starts; absent on the last page.
    pub next_page_token: Option<String>,
}

impl View for Page {
    type V = PageView;

    open spec fn view(&self) -> PageView {
        PageView {
            files: self.files.deep_view(),
            next_page_token: self.next_page_token.deep_view(),
        }
    }
}

/// The records of `files` in their order, or the fault of the first file
/// that is no record.
pub open spec fn decoded_all(files: Seq<RemoteFileView>) -> Result<Seq<DriveFileView>, DecodeError>
    decreases files.len(),
{
    if files.len() == 0 {
        Ok(Seq::empty())
    } else {
        match decoded_all(files.drop_last()) {
            Ok(records) => match files.last().decoded() {
                Ok(record) => Ok(records.push(record)),
                Err(fault) => Err(fault),
            },
            Err(fault) => Err(fault),
        }
    }
}

impl RemotePageView {
    /// The page with every file a record. A page without a list of files is
    /// refused, and so is one with a file that is no record.
    pub open spec fn decoded(self) -> Result<PageView, RemoteError> {
        match self.files {
            Some(files) => match decoded_all(files) {
                Ok(records) => Ok(
                    PageView { files: records, next_page_token: self.next_page_token },
                ),
                Err(fault) => Err(RemoteError::Record(fault)),
            },
            None => Err(RemoteError::MissingFileList),
        }
    }
}

/// Makes records of `files`, in their order. The first file that is no record
/// ends the work, and its fault is the answer.
pub fn decode_files(files: Vec<RemoteFile>) -> (r: Result<Vec<DriveFile>, DecodeError>)
    ensures
        match r {
            Ok(records) => decoded_all(files.deep_view()) == Ok::<Seq<DriveFileView>, DecodeError>(
                records.deep_view(),
            ),
            Err(fault) => decoded_all(files.deep_view()) == Err::<Seq<DriveFileView>, DecodeError>(
                fault,
            ),
        },
{
    let ghost all = files.deep_view();
    let mut records: Vec<DriveFile> = Vec::new();
    assert(all.take(0) =~= Seq::<RemoteFileView>::empty());
    assert(records.deep_view() =~= Seq::<DriveFileView>::empty());
    for file in it: files.into_iter()
        invariant
            all == files.deep_view(),
            it.seq().len() == all.len(),
            forall|k: int| 0 <= k < all.len() ==> (#[trigger] it.seq()[k])@ == all[k],
            decoded_all(all.take(it.index() as int)) == Ok::<Seq<DriveFileView>, DecodeError>(
                records.deep_view(),
            ),
    {
        let ghost done = it.index() as int;
        let ghost before = records.deep_view();
        proof {
            assert(all.take(done + 1).drop_last() =~= all.take(done));
            assert(all.take(done + 1).last() == all[done]);
        }
        match DriveFile::from_drive3_file(file) {
            Ok(record) => {
                records.push(record);
                assert(records.deep_view() =~= before.push(record@));
            },
            Err(fault) => {
                proof {
                    assert(all[done].decoded() == Err::<DriveFileView, DecodeError>(fault));
                    lemma_decoded_all_fault(all, done + 1);
                }
                return Err(fault);
            },
        }
    }
    assert(all.take(all.len() as int) =~= all);
    Ok(records)
}

impl Page {
    /// Makes records of the files of a page that the service sent.
    pub fn decode(remote: RemotePage) -> (r: Result<Page, RemoteError>)
        ensures
            match r {
                Ok(page) => remote@.decoded() == Ok::<PageView, RemoteError>(page@),
                Err(e) => remote@.decoded() == Err::<PageView, RemoteError>(e),
            },
    {
        let RemotePage { files, next_page_token } = remote;
        match files {
            Some(files) => match decode_files(files) {
                Ok(records) => Ok(Page { files: records, next_page_token }),
                Err(fault) => Err(RemoteError::Record(fault)),
            },
            None => Err(RemoteError::MissingFileList),
        }
    }
}

/// How far a listing has come.
pub enum CursorView {
    /// No page has been asked for.
    Start,
    /// The last page said where the next one starts.
    Next(Seq<char>),
    /// The last page said that it was the last.
    Finished,
}

/// What a [`Listing`] stands for.
pub struct ListingView {
    /// The set, with the pages taken in so far merged into it.
    pub files: Seq<DriveFileView>,
    /// The filter that every call carries.
    pub query: Option<Seq<char>>,
    /// How far the listing has come.
    pub cursor: CursorView,
}

impl ListingView {
    /// The call to make next; none once the last page has been taken in.
    pub open spec fn request(self) -> Option<ListRequestView> {
        match self.cursor {
            CursorView::Start => Some(list_request(self.query, None)),
            CursorView::Next(token) => Some(list_request(self.query, Some(token))),
            CursorView::Finished => None,
        }
    }

    /// The listing after `page` is taken in: its records are merged into the
    /// set in their order, and the listing goes on where the page says, or is
    /// finished where the page names no next one.
    pub open spec fn accept(self, page: PageView) -> ListingView {
        ListingView {
            files: merged_all(self.files, page.files),
            query: self.query,
            cursor: match page.next_page_token {
                Some(token) => CursorView::Next(token),
                None => CursorView::Finished,
            },
        }
    }

    /// The listing after the outcome of a call is taken in. A call that
    /// failed ends the listing with its error, and so does a page that is
    /// not made of records.
    pub open spec fn fetched(self, outcome: Result<RemotePageView, RemoteError>) -> Result<
        ListingView,
        RemoteError,
    > {
        match outcome {
            Ok(remote) => match remote.decoded() {
                Ok(page) => Ok(self.accept(page)),
                Err(e) => Err(e),
            },
            Err(e) => Err(e),
        }
    }

    /// The listing after each of `pages` is taken in, the first one first.
    pub open spec fn accept_all(self, pages: Seq<PageView>) -> ListingView
        decreases pages.len(),
    {
        if pages.len() == 0 {
            self
        } else {
            self.accept_all(pages.drop_last()).accept(pages.last())
        }
    }
}

/// The records of `pages`, page after page.
pub open spec fn all_files(pages: Seq<PageView>) -> Seq<DriveFileView>
    decreases pages.len(),
{
    if pages.len() == 0 {
        Seq::empty()
    } else {
        all_files(pages.drop_last()) + pages.last().files
    }
}

/// The number of records on `pages`, every page counted in full.
pub open spec fn record_count(pages: Seq<PageView>) -> nat
    decreases pages.len(),
{
    if pages.len() == 0 {
        0
    } else {
        record_count(pages.drop_last()) + pages.last().files.len()
    }
}

/// Whether every page of `pages` but the last names a next page, and the
/// last names none.
pub open spec fn chained(pages: Seq<PageView>) -> bool {
    &&& pages.len() > 0
    &&& forall|i: int| 0 <= i < pages.len() - 1 ==> (#[trigger] pages[i]).next_page_token is Some
    &&& pages.last().next_page_token is None
}

#[derive(Debug)]
enum Cursor {
    Start,
    Next(String),
    Finished,
}

impl View for Cursor {
    type V = CursorView;

    closed spec fn view(&self) -> CursorView {
        match self {
            Cursor::Start => CursorView::Start,
            Cursor::Next(token) => CursorView::Next(token@),
            Cursor::Finished => CursorView::Finished,
        }
    }
}

/// A listing of the remote files that is under way: the set that the pages
/// are merged into, the filter, and where the next page starts.
///
/// The caller makes the call that [`Listing::proceed`] names, hands what came
/// back to [`Listing::fetch_files`], and goes on so until the set is handed
/// out.
#[derive(Debug)]
pub struct Listing {
    files: DriveFiles,
    query: Option<String>,
    cursor: Cursor,
}

impl View for Listing {
    type V = ListingView;

    closed spec fn view(&self) -> ListingView {
        ListingView { files: self.files@, query: self.query.deep_view(), cursor: self.cursor@ }
    }
}

/// How a listing goes on.
#[derive(Debug)]
pub enum Progress {
    /// Make this call and hand what comes back to [`Listing::fetch_files`]
    /// of this listing.
    Call(ListRequest, Listing),
    /// The listing is at its end, and this is the set: the one to store, with
    /// a record that the sync is complete.
    Done(DriveFiles),
}

/// What the outcome of a call stands for.
pub open spec fn outcome_view(outcome: Result<RemotePage, RemoteError>) -> Result<
    RemotePageView,
    RemoteError,
> {
    match outcome {
        Ok(remote) => Ok(remote@),
        Err(e) => Err(e),
    }
}

impl DriveFiles {
    /// Starts to bring the set up to date from the remote listing: with
    /// `modified_since`, only the files modified after that time are asked
    /// for; without it, or where it cannot be written as RFC 3339, all are.
    pub fn update_from_gdrive(self, modified_since: Option<Timestamp>) -> (listing: Listing)
        ensures
            listing@ == (ListingView {
                files: self@,
                query: filter_for(modified_since),
                cursor: CursorView::Start,
            }),
    {
        Listing { files: self, query: query_for(modified_since), cursor: Cursor::Start }
    }
}

impl Listing {
    /// The call to make next; none once the last page has been taken in.
    pub fn request(&self) -> (r: Option<ListRequest>)
        ensures
            match r {
                Some(request) => self@.request() == Some(request@),
                None => self@.request() is None,
            },
    {
        let page_token = match &self.cursor {
            Cursor::Start => None,
            Cursor::Next(token) => Some(token.clone()),
            Cursor::Finished => return None,
        };
        let q = match &self.query {
            Some(q) => Some(q.clone()),
            None => None,
        };
        Some(
            ListRequest {
                supports_all_drives: true,
                spaces: SPACES,
                page_size: PAGE_SIZE,
                include_items_from_all_drives: true,
                order_by: ORDER_BY,
                fields: FIELDS,
                q,
                page_token,
            },
        )
    }

    /// Whether the last page has been taken in.
    pub fn is_finished(&self) -> (finished: bool)
        ensures
            finished == (self@.cursor is Finished),
    {
        match &self.cursor {
            Cursor::Finished => true,
            _ => false,
        }
    }

    /// The number of files in the set so far.
    pub fn len(&self) -> (n: usize)
        ensures
            n == self@.files.len(),
            ids_unique(self@.files),
    {
        self.files.len()
    }

    /// Takes in a page of records: they are merged into the set in their
    /// order, and the listing goes on where the page says.
    pub fn accept(self, page: Page) -> (next: Listing)
        ensures
            next@ == self@.accept(page@),
    {
        let Listing { files, query, cursor: _ } = self;
        let Page { files: records, next_page_token } = page;
        let mut files = files;
        files.merge_all(records);
        let cursor = match next_page_token {
            Some(token) => Cursor::Next(token),
            None => Cursor::Finished,
        };
        Listing { files, query, cursor }
    }

    /// Takes in the outcome of the call that [`Listing::request`] named. A
    /// page is merged into the set after every file of it has been made a
    /// record. A call that failed, or a page that is not made of records,
    /// ends the listing: the error comes back, and the set with it is gone.
    pub fn fetch_files(self, outcome: Result<RemotePage, RemoteError>) -> (r: Result<
        Listing,
        RemoteError,
    >)
        ensures
            match r {
                Ok(next) => self@.fetched(outcome_view(outcome)) == Ok::<ListingView, RemoteError>(
                    next@,
                ),
                Err(e) => self@.fetched(outcome_view(outcome)) == Err::<ListingView, RemoteError>(
                    e,
                ),
            },
    {
        match outcome {
            Ok(remote) => match Page::decode(remote) {
                Ok(page) => Ok(self.accept(page)),
                Err(e) => Err(e),
            },
            Err(e) => Err(e),
        }
    }

    /// Says how the listing goes on: with the call to make next, or, once
    /// the last page has been taken in, with the set. The set is not to be
    /// had before that.
    pub fn proceed(self) -> (r: Progress)
        ensures
            match r {
                Progress::Call(request, listing) => self@.request() == Some(request@) && listing@
                    == self@,
                Progress::Done(files) => self@.request() is None && files@ == self@.files,
            },
    {
        match self.request() {
            Some(request) => Progress::Call(request, self),
            None => Progress::Done(self.files),
        }
    }
}

/// Taking in pages one after the other merges all their records, in their
/// order, and leaves the filter as it was.
pub proof fn lemma_accept_all(start: ListingView, pages: Seq<PageView>)
    ensures
        start.accept_all(pages).files == merged_all(start.files, all_files(pages)),
        start.accept_all(pages).query == start.query,
        pages.len() > 0 ==> start.accept_all(pages).cursor == start.accept(pages.last()).cursor,
        all_files(pages).len() == record_count(pages),
    decreases pages.len(),
{
    if pages.len() > 0 {
        lemma_accept_all(start, pages.drop_last());
        lemma_merged_all_concat(start.files, all_files(pages.drop_last()), pages.last().files);
    }
}

/// A listing whose pages each name the next one, but for the last, is taken
/// to its end: a call is named before each page, from the second on with the
/// token of the page before; after the last page no call is named. The set
/// then holds the records of all pages merged in their order, one record for
/// each identifier that was in the set or came on a page. It has grown by
/// the number of records on the pages, less those that replaced a record:
/// by that number exactly where every record brought a new identifier.
pub proof fn lemma_pagination(start: ListingView, pages: Seq<PageView>)
    requires
        ids_unique(start.files),
        !(start.cursor is Finished),
        chained(pages),
    ensures
        forall|k: int|
            0 <= k < pages.len() ==> (#[trigger] start.accept_all(pages.take(k))).request()
                is Some,
        forall|k: int|
            0 < k < pages.len() ==> (#[trigger] start.accept_all(pages.take(k))).request()
                == Some(list_request(start.query, pages[k - 1].next_page_token)),
        start.accept_all(pages).request() is None,
        start.accept_all(pages).files == merged_all(start.files, all_files(pages)),
        ids_unique(start.accept_all(pages).files),
        start.accept_all(pages).files.len() == ids(start.files).union(
            ids(all_files(pages)),
        ).len(),
        start.files.len() <= start.accept_all(pages).files.len() <= start.files.len()
            + record_count(pages),
        ids_unique(start.files + all_files(pages)) ==> start.accept_all(pages).files.len()
            == start.files.len() + record_count(pages),
{
    lemma_accept_all(start, pages);
    lemma_merged_all_ids(start.files, all_files(pages));
    lemma_merged_all_len(start.files, all_files(pages));
    if ids_unique(start.files + all_files(pages)) {
        lemma_merged_all_new(start.files, all_files(pages));
    }
    assert forall|k: int| 0 <= k < pages.len() implies (#[trigger] start.accept_all(
        pages.take(k),
    )).request() is Some && (0 < k ==> start.accept_all(pages.take(k)).request() == Some(
        list_request(start.query, pages[k - 1].next_page_token),
    )) by {
        lemma_accept_all(start, pages.take(k));
        if k > 0 {
            assert(pages.take(k).last() == pages[k - 1]);
        }
    }
}

/// A fault among the first files is the fault of the whole list.
proof fn lemma_decoded_all_fault(files: Seq<RemoteFileView>, n: int)
    requires
        0 <= n <= files.len(),
        decoded_all(files.take(n)) is Err,
    ensures
        decoded_all(files) == decoded_all(files.take(n)),
    decreases files.len() - n,
{
    if n == files.len() {
        assert(files.take(n) =~= files);
    } else {
        assert(files.take(n + 1).drop_last() =~= files.take(n));
        lemma_decoded_all_fault(files, n + 1);
    }
}

} // verus!
