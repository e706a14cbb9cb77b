//! The endpoint table and the state that a running server shares.

use crate::document::SpecDocument;
use crate::template::placeholder_names;
use vstd::prelude::*;

verus! {

/// One compiled endpoint: a path template, a method, and the response that
/// is served for it.
#[derive(Clone, Debug, PartialEq, Eq)]
pub struct EndpointHandler {
    pub path: String,
    pub method: String,
    pub response_code: String,
    pub response_body: String,
    pub path_params: Vec<String>,
}

/// What an `EndpointHandler` stands for.
pub struct EndpointRecord {
    pub path_template: Seq<char>,
    pub method: Seq<char>,
    pub status_code: Seq<char>,
    pub body: Seq<char>,
    pub param_names: Seq<Seq<char>>,
}

/// Whether `method` is one of the methods that endpoints are compiled for.
pub open spec fn is_supported_method(method: Seq<char>) -> bool {
    method == "get"@ || method == "post"@ || method == "put"@ || method == "delete"@
}

impl EndpointRecord {
    /// What holds of every record that is compiled from a description: its
    /// method is a supported one, and its placeholder names are those that
    /// stand in its template.
    pub open spec fn well_formed(self) -> bool {
        &&& is_supported_method(self.method)
        &&& self.param_names == placeholder_names(self.path_template)
    }
}

impl View for EndpointHandler {
    type V = EndpointRecord;

    open spec fn view(&self) -> EndpointRecord {
        EndpointRecord {
            path_template: self.path@,
            method: self.method@,
            status_code: self.response_code@,
            body: self.response_body@,
            param_names: self.path_params.deep_view(),
        }
    }
}

impl DeepView for EndpointHandler {
    type V = EndpointRecord;

    open spec fn deep_view(&self) -> EndpointRecord {
        self@
    }
}

/// What a server holds for its lifetime: the endpoint table and the
/// description that it was compiled from.
pub struct AppState {
    pub endpoints: Vec<EndpointHandler>,
    pub openapi_spec: SpecDocument,
}

impl AppState {
    /// A state that holds `endpoints` and `openapi_spec` as given.
    pub fn new(endpoints: Vec<EndpointHandler>, openapi_spec: SpecDocument) -> (state: Self)
        ensures
            state.endpoints == endpoints,
            state.openapi_spec == openapi_spec,
    {
        AppState { endpoints, openapi_spec }
    }

    /// The description that the state holds.
    pub fn get_spec(&self) -> (document: &SpecDocument)
        ensures
            *document == self.openapi_spec,
    {
        &self.openapi_spec
    }
}

} // verus!
