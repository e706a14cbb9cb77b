//! What the server answers with.

use vstd::prelude::*;

verus! {

/// The answer to one request.
#[derive(Clone, Debug, PartialEq, Eq)]
pub enum Resolution {
    /// An endpoint answers: its status and its body are served.
    Reply { status_code: u16, body: String },
    /// No endpoint answers. The path and the method, in lowercase, are those
    /// that were asked for.
    NotFound { path: String, method: String },
}

/// What a `Resolution` stands for.
pub enum ResolutionModel {
    Reply { status_code: u16, body: Seq<char> },
    NotFound { path: Seq<char>, method: Seq<char> },
}

impl View for Resolution {
    type V = ResolutionModel;

    open spec fn view(&self) -> ResolutionModel {
        match self {
            Resolution::Reply { status_code, body } => ResolutionModel::Reply {
                status_code: *status_code,
                body: body@,
            },
            Resolution::NotFound { path, method } => ResolutionModel::NotFound {
                path: path@,
                method: method@,
            },
        }
    }
}

/// One line of the listing of endpoints: an endpoint without its body.
#[derive(Clone, Debug, PartialEq, Eq)]
pub struct EndpointSummary {
    pub path: String,
    pub method: String,
    pub status_code: String,
}

/// What an `EndpointSummary` stands for.
pub struct SummaryModel {
    pub path: Seq<char>,
    pub method: Seq<char>,
    pub status_code: Seq<char>,
}

impl DeepView for EndpointSummary {
    type V = SummaryModel;

    open spec fn deep_view(&self) -> SummaryModel {
        SummaryModel { path: self.path@, method: self.method@, status_code: self.status_code@ }
    }
}

/// The listing of a table's endpoints, with their number.
#[derive(Clone, Debug, PartialEq, Eq)]
pub struct EndpointListing {
    pub endpoints: Vec<EndpointSummary>,
    pub count: usize,
}

} // verus!
