//! Compiling an API description into endpoints and resolving requests
//! against them.

use crate::data::app::{EndpointHandler, EndpointRecord};
use crate::data::reply::{
    EndpointListing, EndpointSummary, Resolution, ResolutionModel, SummaryModel,
};
use crate::document::{
    Declared, DocumentModel, Operation, OperationModel, PathItemModel, Response, ResponseModel,
    SpecDocument,
};
use crate::engine::{engine_verdict, regex_search, search};
use crate::errors::AppError;
use crate::status::{status_number, status_of};
use crate::template::{
    compile_pattern, extract_placeholder_names, placeholder_names, template_pattern,
};
use crate::text::{chars_at, chars_of, has_prefix, lowercase_of, string_of_range};
use crate::theorems::lemma_compiled_records_are_well_formed;
use vstd::prelude::*;

verus! {

/// Whether the request path `path` satisfies `template` when `names` are the
/// template's placeholders: the pattern engine finds the template's pattern
/// in the path.
pub open spec fn template_matches(
    template: Seq<char>,
    path: Seq<char>,
    names: Seq<Seq<char>>,
) -> bool {
    regex_search(template_pattern(template, names), path) == Some(true)
}

/// Tells whether `request_path` satisfies the template `api_path`, whose
/// placeholders are `path_params`. A template whose pattern the engine
/// refuses matches no path.
pub fn paths_match(api_path: &str, request_path: &str, path_params: &[String]) -> (matched: bool)
    ensures
        matched == template_matches(api_path@, request_path@, path_params.deep_view()),
{
    let pattern = compile_pattern(api_path, path_params);
    engine_verdict(search(pattern.as_str(), request_path))
}

/// The body that is served where a response declares no usable example.
pub open spec fn default_stub_body() -> Seq<char> {
    "{\"message\":\"This is a stub response\",\"status\":\"success\"}"@
}

/// Whether a content type names JSON.
pub open spec fn is_json_content(content_type: Seq<char>) -> bool {
    "application/json"@.is_prefix_of(content_type)
}

/// Whether an entry of a response's content is JSON and carries an example.
pub open spec fn carries_json_example(entry: (Seq<char>, Option<Seq<char>>)) -> bool {
    is_json_content(entry.0) && entry.1 is Some
}

/// The position of the first entry of `content`, at or after `from`, that
/// is JSON and carries an example.
pub open spec fn first_json_example(
    content: Seq<(Seq<char>, Option<Seq<char>>)>,
    from: int,
) -> Option<int>
    decreases content.len() - from,
{
    if from < 0 || from >= content.len() {
        None
    } else if carries_json_example(content[from]) {
        Some(from)
    } else {
        first_json_example(content, from + 1)
    }
}

/// The body that is served for `response`: the example of its first JSON
/// entry that has one, as it is written, and the default body where there is
/// no such entry.
pub open spec fn stub_body(response: ResponseModel) -> Seq<char> {
    match first_json_example(response.content, 0) {
        Some(at) => response.content[at].1->0,
        None => default_stub_body(),
    }
}

/// Picks the body that is served for `response`.
pub fn generate_stub_response(response: &Response) -> (body: String)
    ensures
        body@ == stub_body(response.deep_view()),
{
    let ghost content = response.deep_view().content;
    let mut i: usize = 0;
    while i < response.content.len()
        invariant
            i <= response.content.len(),
            content == response.content.deep_view(),
            first_json_example(content, i as int) == first_json_example(content, 0),
        decreases response.content.len() - i,
    {
        let entry = &response.content[i];
        if has_prefix(entry.0.as_str(), "application/json") {
            if let Some(example) = &entry.1 {
                return example.clone();
            }
        }
        i += 1;
    }
    "{\"message\":\"This is a stub response\",\"status\":\"success\"}".to_string()
}

/// The record of one inline response.
pub open spec fn response_record(
    path: Seq<char>,
    method: Seq<char>,
    status_code: Seq<char>,
    response: ResponseModel,
) -> EndpointRecord {
    EndpointRecord {
        path_template: path,
        method,
        status_code,
        body: stub_body(response),
        param_names: placeholder_names(path),
    }
}

/// The records of a list of responses under `path` and `method`: one for
/// each inline response, in declared order; an unsupported entry gives none.
pub open spec fn response_records(
    path: Seq<char>,
    method: Seq<char>,
    responses: Seq<(Seq<char>, Declared<ResponseModel>)>,
) -> Seq<EndpointRecord>
    decreases responses.len(),
{
    if responses.len() == 0 {
        Seq::empty()
    } else {
        let earlier = response_records(path, method, responses.drop_last());
        match responses.last().1 {
            Declared::Inline(response) => earlier.push(
                response_record(path, method, responses.last().0, response),
            ),
            Declared::Unsupported => earlier,
        }
    }
}

/// Appends to `endpoints` one record for each inline response of
/// `operation`, in declared order, each under `path` and `method` and with
/// the placeholder names of `path`.
pub fn process_operation(
    path: &str,
    method: &str,
    operation: &Operation,
    endpoints: &mut Vec<EndpointHandler>,
)
    ensures
        final(endpoints).deep_view() == old(endpoints).deep_view() + response_records(
            path@,
            method@,
            operation.deep_view().responses,
        ),
{
    let path_params = extract_placeholder_names(path);
    let ghost before = endpoints.deep_view();
    let ghost responses = operation.deep_view().responses;
    let mut i: usize = 0;
    while i < operation.responses.len()
        invariant
            i <= operation.responses.len(),
            responses == operation.responses.deep_view(),
            path_params.deep_view() == placeholder_names(path@),
            endpoints.deep_view() == before + response_records(
                path@,
                method@,
                responses.take(i as int),
            ),
        decreases operation.responses.len() - i,
    {
        let entry = &operation.responses[i];
        let ghost held = endpoints.deep_view();
        assert(responses.take(i + 1).drop_last() =~= responses.take(i as int));
        match &entry.1 {
            Declared::Inline(response) => {
                let record = EndpointHandler {
                    path: path.to_string(),
                    method: method.to_string(),
                    response_code: entry.0.clone(),
                    response_body: generate_stub_response(response),
                    path_params: path_params.clone(),
                };
                endpoints.push(record);
                assert(endpoints.deep_view() =~= held.push(record@));
            },
            Declared::Unsupported => {},
        }
        i += 1;
    }
    assert(responses.take(i as int) =~= responses);
}

/// The records of what is declared under one method of a path.
pub open spec fn operation_records(
    path: Seq<char>,
    method: Seq<char>,
    operation: Option<OperationModel>,
) -> Seq<EndpointRecord> {
    match operation {
        Some(declared) => response_records(path, method, declared.responses),
        None => Seq::empty(),
    }
}

/// The records of one path: those of its `get`, `post`, `put` and `delete`
/// operations, in that order. What is declared under another method gives no
/// record, nor does a path given in an unsupported form.
pub open spec fn path_records(path: Seq<char>, item: Declared<PathItemModel>) -> Seq<
    EndpointRecord,
> {
    match item {
        Declared::Inline(declared) => operation_records(path, "get"@, declared.get)
            + operation_records(path, "post"@, declared.post) + operation_records(
            path,
            "put"@,
            declared.put,
        ) + operation_records(path, "delete"@, declared.delete),
        Declared::Unsupported => Seq::empty(),
    }
}

/// The records of a list of paths, in declared order.
pub open spec fn paths_records(paths: Seq<(Seq<char>, Declared<PathItemModel>)>) -> Seq<
    EndpointRecord,
>
    decreases paths.len(),
{
    if paths.len() == 0 {
        Seq::empty()
    } else {
        paths_records(paths.drop_last()) + path_records(paths.last().0, paths.last().1)
    }
}

/// The endpoint table of `document`: one record for each path, supported
/// method and inline response, paths in declared order, methods in the order
/// `get`, `post`, `put`, `delete`, responses in declared order.
pub open spec fn endpoint_table(document: DocumentModel) -> Seq<EndpointRecord> {
    paths_records(document.paths)
}

/// Appends the records of `operation`, where the path declares one under
/// `method`.
fn process_declared(
    path: &str,
    method: &str,
    operation: &Option<Operation>,
    endpoints: &mut Vec<EndpointHandler>,
)
    ensures
        final(endpoints).deep_view() == old(endpoints).deep_view() + operation_records(
            path@,
            method@,
            operation.deep_view(),
        ),
{
    match operation {
        Some(declared) => process_operation(path, method, declared, endpoints),
        None => {},
    }
}

/// Compiles `document` into its endpoint table. Every record of the table
/// is well formed.
pub fn compile_document(document: &SpecDocument) -> (endpoints: Vec<EndpointHandler>)
    ensures
        endpoints.deep_view() == endpoint_table(document.deep_view()),
        forall|k: int| 0 <= k < endpoints.len() ==> (#[trigger] endpoints[k])@.well_formed(),
{
    let mut endpoints: Vec<EndpointHandler> = Vec::new();
    let ghost paths = document.deep_view().paths;
    let mut i: usize = 0;
    while i < document.paths.len()
        invariant
            i <= document.paths.len(),
            paths == document.paths.deep_view(),
            endpoints.deep_view() == paths_records(paths.take(i as int)),
        decreases document.paths.len() - i,
    {
        let entry = &document.paths[i];
        assert(paths.take(i + 1).drop_last() =~= paths.take(i as int));
        match &entry.1 {
            Declared::Inline(item) => {
                let path = entry.0.as_str();
                process_declared(path, "get", &item.get, &mut endpoints);
                process_declared(path, "post", &item.post, &mut endpoints);
                process_declared(path, "put", &item.put, &mut endpoints);
                process_declared(path, "delete", &item.delete, &mut endpoints);
            },
            Declared::Unsupported => {},
        }
        i += 1;
    }
    assert(paths.take(i as int) =~= paths);
    proof {
        lemma_compiled_records_are_well_formed(document.deep_view());
        let table = endpoint_table(document.deep_view());
        assert forall|k: int| 0 <= k < endpoints.len() implies (#[trigger] endpoints[k])@
            .well_formed() by {
            assert(table[k] == endpoints@[k].deep_view());
        }
    }
    endpoints
}

/// Compiles the description that was loaded into its endpoint table. Where
/// loading failed there is no table: the failure is handed on as it came.
pub fn build_endpoints_from_spec(loaded: Result<SpecDocument, AppError>) -> (built: Result<
    Vec<EndpointHandler>,
    AppError,
>)
    ensures
        match loaded {
            Ok(document) => {
                &&& built is Ok
                &&& built->Ok_0.deep_view() == endpoint_table(document.deep_view())
                &&& forall|k: int|
                    0 <= k < built->Ok_0.len() ==> (#[trigger] built->Ok_0[k])@.well_formed()
            },
            Err(failure) => built == Err::<Vec<EndpointHandler>, AppError>(failure),
        },
{
    match loaded {
        Ok(document) => Ok(compile_document(&document)),
        Err(failure) => Err(failure),
    }
}

/// Whether `record` answers a request for `path` under `method`, a method
/// already in lowercase.
pub open spec fn answers(record: EndpointRecord, method: Seq<char>, path: Seq<char>) -> bool {
    record.method == method && template_matches(record.path_template, path, record.param_names)
}

/// The position of the first record of `table`, at or after `from`, that
/// answers a request for `path` under `method`.
pub open spec fn first_answering(
    table: Seq<EndpointRecord>,
    method: Seq<char>,
    path: Seq<char>,
    from: int,
) -> Option<int>
    decreases table.len() - from,
{
    if from < 0 || from >= table.len() {
        None
    } else if answers(table[from], method, path) {
        Some(from)
    } else {
        first_answering(table, method, path, from + 1)
    }
}

/// What is served for `record`: the number that its status code writes, 200
/// where it writes none, and its body.
pub open spec fn reply_of(record: EndpointRecord) -> ResolutionModel {
    ResolutionModel::Reply { status_code: status_number(record.status_code), body: record.body }
}

/// The answer of `table` to a request for `path` under `method`: the reply
/// of the first record that answers the method in lowercase and the path;
/// where no record does, that nothing was found for that path and method.
pub open spec fn resolve(
    table: Seq<EndpointRecord>,
    method: Seq<char>,
    path: Seq<char>,
) -> ResolutionModel {
    let asked = lowercase_of(method);
    match first_answering(table, asked, path, 0) {
        Some(at) => reply_of(table[at]),
        None => ResolutionModel::NotFound { path, method: asked },
    }
}

/// The reply that `record` serves.
pub fn reply(record: &EndpointHandler) -> (served: Resolution)
    ensures
        served@ == reply_of(record@),
{
    Resolution::Reply {
        status_code: status_of(record.response_code.as_str()),
        body: record.response_body.clone(),
    }
}

/// Resolves a request for `path` under `method` against `endpoints`. The
/// method is taken in lowercase. The first endpoint in the order of the table
/// that has this method and whose template the path satisfies gives the
/// reply; later endpoints are not looked at.
pub fn dispatch(endpoints: &Vec<EndpointHandler>, method: &str, path: &str) -> (answer: Resolution)
    ensures
        answer@ == resolve(endpoints.deep_view(), method@, path@),
{
    let asked = method.to_lowercase();
    let ghost table = endpoints.deep_view();
    let mut i: usize = 0;
    while i < endpoints.len()
        invariant
            i <= endpoints.len(),
            table == endpoints.deep_view(),
            asked@ == lowercase_of(method@),
            first_answering(table, asked@, path@, i as int) == first_answering(
                table,
                asked@,
                path@,
                0,
            ),
        decreases endpoints.len() - i,
    {
        let endpoint = &endpoints[i];
        if endpoint.method == asked && paths_match(
            endpoint.path.as_str(),
            path,
            endpoint.path_params.as_slice(),
        ) {
            return reply(endpoint);
        }
        i += 1;
    }
    Resolution::NotFound { path: path.to_string(), method: asked }
}

/// The prefix under which the endpoints of a description are also served.
pub open spec fn api_prefix() -> Seq<char> {
    seq!['/', 'a', 'p', 'i']
}

/// `path` without the prefix `/api`, as often as it stands at the start.
pub open spec fn without_api_prefix(path: Seq<char>) -> Seq<char>
    decreases path.len(),
{
    if api_prefix().is_prefix_of(path) {
        without_api_prefix(path.skip(4))
    } else {
        path
    }
}

/// Takes the prefix `/api` off the start of `path`, as often as it stands
/// there.
pub fn strip_api_prefix(path: &str) -> (rest: String)
    ensures
        rest@ == without_api_prefix(path@),
{
    let text = chars_of(path);
    let mut prefix: Vec<char> = Vec::new();
    prefix.push('/');
    prefix.push('a');
    prefix.push('p');
    prefix.push('i');
    let mut at: usize = 0;
    assert(text@.skip(0) =~= text@);
    while chars_at(&text, at, &prefix)
        invariant
            at <= text.len(),
            prefix@ == api_prefix(),
            without_api_prefix(text@.skip(at as int)) == without_api_prefix(text@),
        decreases text.len() - at,
    {
        assert(text@.skip(at as int).skip(4) =~= text@.skip(at + 4));
        at += 4;
    }
    string_of_range(&text, at, text.len())
}

/// Answers a request that came in under the prefix `/api`: the request is
/// resolved for the rest of `uri_path` once the prefix is taken off.
pub fn api_redirect(endpoints: &Vec<EndpointHandler>, uri_path: &str, method: &str) -> (answer:
    Resolution)
    ensures
        answer@ == resolve(endpoints.deep_view(), method@, without_api_prefix(uri_path@)),
{
    let path = strip_api_prefix(uri_path);
    dispatch(endpoints, method, path.as_str())
}

/// Answers a request whose path and method were taken out of its address.
pub fn dynamic_handler(endpoints: &Vec<EndpointHandler>, path: &str, method: &str) -> (answer:
    Resolution)
    ensures
        answer@ == resolve(endpoints.deep_view(), method@, path@),
{
    dispatch(endpoints, method, path)
}

/// The summary of `record`: its path, method and status code.
pub open spec fn summary_of(record: EndpointRecord) -> SummaryModel {
    SummaryModel {
        path: record.path_template,
        method: record.method,
        status_code: record.status_code,
    }
}

/// Lists the endpoints of a table, each without its body and in the order
/// of the table, and counts them.
pub fn list_endpoints(endpoints: &Vec<EndpointHandler>) -> (listing: EndpointListing)
    ensures
        listing.count == endpoints.len(),
        listing.endpoints.deep_view() == endpoints.deep_view().map_values(
            |record: EndpointRecord| summary_of(record),
        ),
{
    let mut summaries: Vec<EndpointSummary> = Vec::new();
    let mut i: usize = 0;
    while i < endpoints.len()
        invariant
            i <= endpoints.len(),
            summaries.len() == i,
            forall|k: int| 0 <= k < i ==> summaries@[k].deep_view() == summary_of(endpoints@[k]@),
        decreases endpoints.len() - i,
    {
        let endpoint = &endpoints[i];
        summaries.push(
            EndpointSummary {
                path: endpoint.path.clone(),
                method: endpoint.method.clone(),
                status_code: endpoint.response_code.clone(),
            },
        );
        i += 1;
    }
    EndpointListing { count: summaries.len(), endpoints: summaries }
}

} // verus!
