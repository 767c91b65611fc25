//! What a fetch attempt came back with, and what it means for the poll.

use vstd::prelude::*;

verus! {

/// Why a fetch gave no content.
#[derive(Debug, Clone, Copy, PartialEq, Eq, Structural)]
pub enum FetchError {
    /// The network, name resolution or TLS failed.
    Unreachable,
    /// The server answered with a status that is not a success.
    HttpStatus(u16),
    /// A selector was given and matched nothing in the document.
    SelectorNotFound,
}

/// What applying a site's selector to a document gave.
#[derive(Debug)]
pub enum Selection {
    /// The site has no selector: the whole document counts.
    Whole,
    /// The selector matched nothing.
    Missing,
    /// The text of the region that the selector matched.
    Region(String),
}

/// What the single fetch attempt of a poll came back with.
#[derive(Debug)]
pub enum Transport {
    /// No response was received.
    Failed,
    /// A response was received.
    Response { status: u16, body: String, selection: Selection },
}

/// The mathematical value of a [`Selection`].
pub enum SelectionView {
    Whole,
    Missing,
    Region(Seq<char>),
}

/// The mathematical value of a [`Transport`].
pub enum TransportView {
    Failed,
    Response { status: u16, body: Seq<char>, selection: SelectionView },
}

impl View for Selection {
    type V = SelectionView;

    open spec fn view(&self) -> SelectionView {
        match self {
            Selection::Whole => SelectionView::Whole,
            Selection::Missing => SelectionView::Missing,
            Selection::Region(text) => SelectionView::Region(text@),
        }
    }
}

impl View for Transport {
    type V = TransportView;

    open spec fn view(&self) -> TransportView {
        match self {
            Transport::Failed => TransportView::Failed,
            Transport::Response { status, body, selection } => TransportView::Response {
                status: *status,
                body: body@,
                selection: selection@,
            },
        }
    }
}

/// The characters of fetched content, or the error in its place.
pub open spec fn content_view(fetched: Result<String, FetchError>) -> Result<Seq<char>, FetchError> {
    match fetched {
        Ok(content) => Ok(content@),
        Err(e) => Err(e),
    }
}

/// The success statuses: 200 to 299.
pub open spec fn is_success(status: u16) -> bool {
    200 <= status <= 299
}

/// The content that a fetch attempt yields. No response means
/// `Unreachable`. A status outside 200 to 299 means `HttpStatus` with that
/// status, whatever the body holds. Of a successful response the content is
/// the whole body for a site without selector, the matched region for one
/// with a selector, and `SelectorNotFound` where the selector matched
/// nothing.
pub open spec fn content_of(transport: TransportView) -> Result<Seq<char>, FetchError> {
    match transport {
        TransportView::Failed => Err(FetchError::Unreachable),
        TransportView::Response { status, body, selection } => if !is_success(status) {
            Err(FetchError::HttpStatus(status))
        } else {
            match selection {
                SelectionView::Whole => Ok(body),
                SelectionView::Missing => Err(FetchError::SelectorNotFound),
                SelectionView::Region(text) => Ok(text),
            }
        },
    }
}

/// Turns what a fetch attempt came back with into content or an error.
pub fn interpret(transport: Transport) -> (fetched: Result<String, FetchError>)
    ensures
        content_view(fetched) == content_of(transport@),
{
    match transport {
        Transport::Failed => Err(FetchError::Unreachable),
        Transport::Response { status, body, selection } => {
            if status < 200 || status > 299 {
                Err(FetchError::HttpStatus(status))
            } else {
                match selection {
                    Selection::Whole => Ok(body),
                    Selection::Missing => Err(FetchError::SelectorNotFound),
                    Selection::Region(text) => Ok(text),
                }
            }
        },
    }
}

} // verus!
