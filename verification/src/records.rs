//! The rows of the three reports, and what the transport hands back.
//!
//! Each row type has a view over plain text and numbers, and renders itself
//! into the fields under which it appears in its report.

use vstd::prelude::*;
use vstd::string::*;
use crate::text::{decimal, decimal_string, join_text};
use crate::seqs::views;
use crate::url::Membership;

verus! {

/// The first HTTP status that counts as a success.
pub const SUCCESS_FLOOR: u16 = 200;

/// The first HTTP status above the successes.
pub const SUCCESS_CEILING: u16 = 300;

/// Whether an HTTP status is a success (2xx).
pub open spec fn is_success_code(status: u16) -> bool {
    200 <= status < 300
}

/// Tests whether an HTTP status is a success (2xx).
pub fn is_success(status: u16) -> (yes: bool)
    ensures
        yes == is_success_code(status),
{
    SUCCESS_FLOOR <= status && status < SUCCESS_CEILING
}

/// What the transport returned for one URL.
#[derive(Clone, Debug, PartialEq, Eq)]
pub enum FetchOutcome {
    /// A response arrived. `body` is read only when `status` is a success.
    Response { status: u16, content_type: Option<String>, body: String },
    /// No response arrived: the connection failed or timed out.
    TransportError { message: String },
}

/// What the transport returned, over plain text.
pub enum FetchOutcomeView {
    Response { status: u16, content_type: Option<Seq<char>>, body: Seq<char> },
    TransportError { message: Seq<char> },
}

impl View for FetchOutcome {
    type V = FetchOutcomeView;

    open spec fn view(&self) -> FetchOutcomeView {
        match self {
            FetchOutcome::Response { status, content_type, body } => FetchOutcomeView::Response {
                status: *status,
                content_type: match content_type {
                    Some(text) => Some(text@),
                    None => None,
                },
                body: body@,
            },
            FetchOutcome::TransportError { message } => FetchOutcomeView::TransportError {
                message: message@,
            },
        }
    }
}

/// How one fetch attempt ended.
#[derive(Clone, Debug, PartialEq, Eq)]
pub enum FetchStatus {
    Code(u16),
    TransportError(String),
}

/// How one fetch attempt ended, over plain text.
pub enum FetchStatusView {
    Code(u16),
    TransportError(Seq<char>),
}

impl View for FetchStatus {
    type V = FetchStatusView;

    open spec fn view(&self) -> FetchStatusView {
        match self {
            FetchStatus::Code(code) => FetchStatusView::Code(*code),
            FetchStatus::TransportError(message) => FetchStatusView::TransportError(message@),
        }
    }
}

impl FetchStatusView {
    /// Whether the attempt ended with a 2xx response.
    pub open spec fn is_success(self) -> bool {
        match self {
            FetchStatusView::Code(code) => is_success_code(code),
            FetchStatusView::TransportError(_) => false,
        }
    }

    /// The status column: the code as a numeral, or `Error: ` and the
    /// transport's message.
    pub open spec fn text(self) -> Seq<char> {
        match self {
            FetchStatusView::Code(code) => decimal(code as nat),
            FetchStatusView::TransportError(message) => "Error: "@ + message,
        }
    }
}

impl FetchStatus {
    /// Renders the status column.
    pub fn text(&self) -> (rendered: String)
        ensures
            rendered@ == self@.text(),
    {
        match self {
            FetchStatus::Code(code) => decimal_string(*code as u64),
            FetchStatus::TransportError(message) => join_text("Error: ", message.as_str()),
        }
    }
}

/// One row of the fetch report: an attempt and how it ended.
#[derive(Clone, Debug, PartialEq, Eq)]
pub struct FetchRecord {
    pub url: String,
    pub status: FetchStatus,
}

/// A row of the fetch report, over plain text.
pub struct FetchRecordView {
    pub url: Seq<char>,
    pub status: FetchStatusView,
}

impl View for FetchRecord {
    type V = FetchRecordView;

    open spec fn view(&self) -> FetchRecordView {
        FetchRecordView { url: self.url@, status: self.status@ }
    }
}

impl FetchRecordView {
    /// The two columns of the row: the URL and the status.
    pub open spec fn fields(self) -> Seq<Seq<char>> {
        seq![self.url, self.status.text()]
    }
}

impl FetchRecord {
    /// The row as it appears in the fetch report.
    pub fn fields(&self) -> (row: Vec<String>)
        ensures
            views(row@) == self@.fields(),
    {
        let mut row: Vec<String> = Vec::new();
        row.push(self.url.clone());
        row.push(self.status.text());
        assert(views(row@) =~= self@.fields());
        row
    }
}

/// One row of the visit report: a page that was downloaded.
#[derive(Clone, Debug, PartialEq, Eq)]
pub struct VisitRecord {
    pub url: String,
    pub size: usize,
    pub outlinks: usize,
    pub content_type: String,
}

/// A row of the visit report, over plain text and numbers.
pub struct VisitRecordView {
    pub url: Seq<char>,
    pub size: nat,
    pub outlinks: nat,
    pub content_type: Seq<char>,
}

impl View for VisitRecord {
    type V = VisitRecordView;

    open spec fn view(&self) -> VisitRecordView {
        VisitRecordView {
            url: self.url@,
            size: self.size as nat,
            outlinks: self.outlinks as nat,
            content_type: self.content_type@,
        }
    }
}

impl VisitRecordView {
    /// The four columns of the row: the URL, the size and the outlink count
    /// as numerals, and the content type.
    pub open spec fn fields(self) -> Seq<Seq<char>> {
        seq![self.url, decimal(self.size), decimal(self.outlinks), self.content_type]
    }
}

impl VisitRecord {
    /// The row as it appears in the visit report.
    pub fn fields(&self) -> (row: Vec<String>)
        ensures
            views(row@) == self@.fields(),
    {
        let mut row: Vec<String> = Vec::new();
        row.push(self.url.clone());
        row.push(decimal_string(self.size as u64));
        row.push(decimal_string(self.outlinks as u64));
        row.push(self.content_type.clone());
        assert(views(row@) =~= self@.fields());
        row
    }
}

/// One row of the discovery report: a URL seen as an outlink, and its verdict.
#[derive(Clone, Debug, PartialEq, Eq)]
pub struct DiscoveryRecord {
    pub url: String,
    pub membership: Membership,
}

/// A row of the discovery report, over plain text.
pub struct DiscoveryRecordView {
    pub url: Seq<char>,
    pub membership: Membership,
}

impl View for DiscoveryRecord {
    type V = DiscoveryRecordView;

    open spec fn view(&self) -> DiscoveryRecordView {
        DiscoveryRecordView { url: self.url@, membership: self.membership }
    }
}

impl DiscoveryRecordView {
    /// The two columns of the row: the URL and the marker of its verdict.
    pub open spec fn fields(self) -> Seq<Seq<char>> {
        seq![self.url, self.membership.label_text()]
    }
}

impl DiscoveryRecord {
    /// The row as it appears in the discovery report.
    pub fn fields(&self) -> (row: Vec<String>)
        ensures
            views(row@) == self@.fields(),
    {
        let mut row: Vec<String> = Vec::new();
        row.push(self.url.clone());
        row.push(self.membership.label().to_owned());
        assert(views(row@) =~= self@.fields());
        row
    }
}

/// The header of the fetch report.
pub open spec fn fetch_header_text() -> Seq<Seq<char>> {
    seq!["URL"@, "Status"@]
}

/// The header of the visit report.
pub open spec fn visit_header_text() -> Seq<Seq<char>> {
    seq!["URL"@, "SizeBytes"@, "OutlinkCount"@, "ContentType"@]
}

/// The header of the discovery report.
pub open spec fn discovery_header_text() -> Seq<Seq<char>> {
    seq!["URL"@, "Membership"@]
}

/// The header row of the fetch report.
pub fn fetch_header() -> (row: Vec<String>)
    ensures
        views(row@) == fetch_header_text(),
{
    let mut row: Vec<String> = Vec::new();
    row.push("URL".to_owned());
    row.push("Status".to_owned());
    assert(views(row@) =~= fetch_header_text());
    row
}

/// The header row of the visit report.
pub fn visit_header() -> (row: Vec<String>)
    ensures
        views(row@) == visit_header_text(),
{
    let mut row: Vec<String> = Vec::new();
    row.push("URL".to_owned());
    row.push("SizeBytes".to_owned());
    row.push("OutlinkCount".to_owned());
    row.push("ContentType".to_owned());
    assert(views(row@) =~= visit_header_text());
    row
}

/// The header row of the discovery report.
pub fn discovery_header() -> (row: Vec<String>)
    ensures
        views(row@) == discovery_header_text(),
{
    let mut row: Vec<String> = Vec::new();
    row.push("URL".to_owned());
    row.push("Membership".to_owned());
    assert(views(row@) =~= discovery_header_text());
    row
}

} // verus!
