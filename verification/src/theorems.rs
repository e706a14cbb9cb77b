//! What holds of every table and every request.

use crate::data::app::{is_supported_method, EndpointHandler, EndpointRecord};
use crate::data::reply::{Resolution, ResolutionModel};
use crate::document::{Declared, DocumentModel, OperationModel, PathItemModel, ResponseModel};
use crate::template::placeholder_names;
use crate::text::lowercase_of;
use crate::transactions::{
    answers, carries_json_example, default_stub_body, dispatch, endpoint_table,
    first_answering, first_json_example, operation_records, path_records, paths_records,
    reply_of, resolve, response_record, response_records, stub_body,
};
use vstd::prelude::*;

verus! {

/// The record that `first_answering` finds answers the request, and no
/// record between `from` and it does; where it finds none, no record at or
/// after `from` answers.
pub proof fn lemma_first_answering(
    table: Seq<EndpointRecord>,
    method: Seq<char>,
    path: Seq<char>,
    from: int,
)
    requires
        0 <= from,
    ensures
        match first_answering(table, method, path, from) {
            Some(at) => {
                &&& from <= at < table.len()
                &&& answers(table[at], method, path)
                &&& forall|k: int| from <= k < at ==> !answers(#[trigger] table[k], method, path)
            },
            None => forall|k: int|
                from <= k < table.len() ==> !answers(#[trigger] table[k], method, path),
        },
    decreases table.len() - from,
{
    if from < table.len() && !answers(table[from], method, path) {
        lemma_first_answering(table, method, path, from + 1);
    }
}

/// Of two records with the same template, method and placeholder names, the
/// later one never gives the answer: whatever it would answer, the earlier
/// one answers first.
pub proof fn lemma_later_record_is_never_served(
    table: Seq<EndpointRecord>,
    method: Seq<char>,
    path: Seq<char>,
    earlier: int,
    later: int,
)
    requires
        0 <= earlier < later < table.len(),
        table[earlier].path_template == table[later].path_template,
        table[earlier].method == table[later].method,
        table[earlier].param_names == table[later].param_names,
    ensures
        first_answering(table, method, path, 0) != Some(later),
{
    lemma_first_answering(table, method, path, 0);
}

/// Every record of the responses of one operation has the operation's path
/// and method and the placeholder names of the path.
pub proof fn lemma_response_records_share_route(
    path: Seq<char>,
    method: Seq<char>,
    responses: Seq<(Seq<char>, Declared<ResponseModel>)>,
)
    ensures
        response_records(path, method, responses).len() <= responses.len(),
        forall|k: int|
            0 <= k < response_records(path, method, responses).len() ==> {
                let record = #[trigger] response_records(path, method, responses)[k];
                &&& record.path_template == path
                &&& record.method == method
                &&& record.param_names == placeholder_names(path)
            },
    decreases responses.len(),
{
    if responses.len() > 0 {
        lemma_response_records_share_route(path, method, responses.drop_last());
    }
}

/// The first record of an operation whose first response is inline is the
/// record of that response.
pub proof fn lemma_first_response_record(
    path: Seq<char>,
    method: Seq<char>,
    responses: Seq<(Seq<char>, Declared<ResponseModel>)>,
)
    requires
        responses.len() > 0,
        responses[0].1 is Inline,
    ensures
        response_records(path, method, responses).len() > 0,
        response_records(path, method, responses)[0] == response_record(
            path,
            method,
            responses[0].0,
            responses[0].1->Inline_0,
        ),
    decreases responses.len(),
{
    if responses.len() > 1 {
        lemma_first_response_record(path, method, responses.drop_last());
    } else {
        assert(response_records(path, method, responses.drop_last()).len() == 0);
    }
}

/// Where an operation declares several responses, only the one that is
/// declared first is ever served: a request to the operation's table is
/// answered with the reply of the first response, or with nothing.
pub proof fn lemma_first_declared_status_wins(
    path: Seq<char>,
    method: Seq<char>,
    responses: Seq<(Seq<char>, Declared<ResponseModel>)>,
    asked_method: Seq<char>,
    asked_path: Seq<char>,
)
    requires
        responses.len() > 0,
        responses[0].1 is Inline,
    ensures
        ({
            let answer = resolve(
                response_records(path, method, responses),
                asked_method,
                asked_path,
            );
            answer is NotFound || answer == reply_of(
                response_record(path, method, responses[0].0, responses[0].1->Inline_0),
            )
        }),
{
    let table = response_records(path, method, responses);
    let asked = lowercase_of(asked_method);
    lemma_first_response_record(path, method, responses);
    lemma_response_records_share_route(path, method, responses);
    lemma_first_answering(table, asked, asked_path, 0);
}

/// A table without records answers no request.
pub proof fn lemma_empty_table_finds_nothing(method: Seq<char>, path: Seq<char>)
    ensures
        resolve(Seq::<EndpointRecord>::empty(), method, path) == (ResolutionModel::NotFound {
            path,
            method: lowercase_of(method),
        }),
{
}

/// Whether a path declares nothing under a supported method.
pub open spec fn declares_no_supported_method(item: Declared<PathItemModel>) -> bool {
    match item {
        Declared::Inline(declared) => declared.get is None && declared.post is None
            && declared.put is None && declared.delete is None,
        Declared::Unsupported => true,
    }
}

/// A description whose paths declare operations under unsupported methods
/// only compiles to a table without records.
pub proof fn lemma_unsupported_methods_give_no_record(document: DocumentModel)
    requires
        forall|k: int|
            0 <= k < document.paths.len() ==> declares_no_supported_method(
                #[trigger] document.paths[k].1,
            ),
    ensures
        endpoint_table(document) == Seq::<EndpointRecord>::empty(),
    decreases document.paths.len(),
{
    let paths = document.paths;
    if paths.len() > 0 {
        lemma_unsupported_methods_give_no_record(DocumentModel { paths: paths.drop_last() });
    }
}

/// A request to the table of such a description is answered with nothing,
/// whatever its method and path.
pub proof fn lemma_unsupported_methods_are_not_found(
    document: DocumentModel,
    method: Seq<char>,
    path: Seq<char>,
)
    requires
        forall|k: int|
            0 <= k < document.paths.len() ==> declares_no_supported_method(
                #[trigger] document.paths[k].1,
            ),
    ensures
        resolve(endpoint_table(document), method, path) == (ResolutionModel::NotFound {
            path,
            method: lowercase_of(method),
        }),
{
    lemma_unsupported_methods_give_no_record(document);
}

/// Every record of one path is well formed.
pub proof fn lemma_path_records_are_well_formed(path: Seq<char>, item: Declared<PathItemModel>)
    ensures
        forall|k: int|
            0 <= k < path_records(path, item).len() ==> (#[trigger] path_records(
                path,
                item,
            )[k]).well_formed(),
{
    match item {
        Declared::Inline(declared) => {
            lemma_operation_records_share_route(path, "get"@, declared.get);
            lemma_operation_records_share_route(path, "post"@, declared.post);
            lemma_operation_records_share_route(path, "put"@, declared.put);
            lemma_operation_records_share_route(path, "delete"@, declared.delete);
        },
        Declared::Unsupported => {},
    }
}

/// Every record of a compiled table is well formed.
pub proof fn lemma_compiled_records_are_well_formed(document: DocumentModel)
    ensures
        forall|k: int|
            0 <= k < endpoint_table(document).len() ==> (#[trigger] endpoint_table(
                document,
            )[k]).well_formed(),
    decreases document.paths.len(),
{
    let paths = document.paths;
    if paths.len() > 0 {
        let earlier = endpoint_table(DocumentModel { paths: paths.drop_last() });
        let last = path_records(paths.last().0, paths.last().1);
        lemma_compiled_records_are_well_formed(DocumentModel { paths: paths.drop_last() });
        lemma_path_records_are_well_formed(paths.last().0, paths.last().1);
        assert(endpoint_table(document) == earlier + last);
    }
}

/// Every record of what a path declares under one method has the path and
/// that method and the placeholder names of the path.
pub proof fn lemma_operation_records_share_route(
    path: Seq<char>,
    method: Seq<char>,
    operation: Option<OperationModel>,
)
    ensures
        forall|k: int|
            0 <= k < operation_records(path, method, operation).len() ==> {
                let record = #[trigger] operation_records(path, method, operation)[k];
                &&& record.path_template == path
                &&& record.method == method
                &&& record.param_names == placeholder_names(path)
            },
{
    match operation {
        Some(declared) => lemma_response_records_share_route(path, method, declared.responses),
        None => {},
    }
}

/// In a compiled table, the record that gives the answer is the first one
/// that was declared for its path and method: no record before it has the
/// same template and the same method.
pub proof fn lemma_served_record_is_first_declared(
    document: DocumentModel,
    method: Seq<char>,
    path: Seq<char>,
)
    ensures
        ({
            let table = endpoint_table(document);
            match first_answering(table, lowercase_of(method), path, 0) {
                Some(at) => forall|k: int|
                    0 <= k < at ==> !((#[trigger] table[k]).path_template
                        == table[at].path_template && table[k].method == table[at].method),
                None => true,
            }
        }),
{
    lemma_compiled_records_are_well_formed(document);
    lemma_first_answering(endpoint_table(document), lowercase_of(method), path, 0);
}

/// A request whose method, in lowercase, is not a supported one is answered
/// with nothing by every compiled table.
pub proof fn lemma_unsupported_request_is_not_found(
    document: DocumentModel,
    method: Seq<char>,
    path: Seq<char>,
)
    ensures
        !is_supported_method(lowercase_of(method)) ==> resolve(
            endpoint_table(document),
            method,
            path,
        ) == (ResolutionModel::NotFound { path, method: lowercase_of(method) }),
{
    lemma_compiled_records_are_well_formed(document);
    lemma_first_answering(endpoint_table(document), lowercase_of(method), path, 0);
}

/// The entry that gives a response's body is JSON and carries an example,
/// and no entry before it does; where the default body is served, no entry
/// does.
pub proof fn lemma_first_json_example(content: Seq<(Seq<char>, Option<Seq<char>>)>, from: int)
    requires
        0 <= from,
    ensures
        match first_json_example(content, from) {
            Some(at) => {
                &&& from <= at < content.len()
                &&& carries_json_example(content[at])
                &&& forall|k: int| from <= k < at ==> !carries_json_example(#[trigger] content[k])
            },
            None => forall|k: int|
                from <= k < content.len() ==> !carries_json_example(#[trigger] content[k]),
        },
    decreases content.len() - from,
{
    if from < content.len() && !carries_json_example(content[from]) {
        lemma_first_json_example(content, from + 1);
    }
}

/// A response whose first JSON entry with an example carries `example` is
/// served with exactly that text.
pub proof fn lemma_example_is_preferred(response: ResponseModel, at: int)
    requires
        0 <= at < response.content.len(),
        carries_json_example(response.content[at]),
        forall|k: int| 0 <= k < at ==> !carries_json_example(#[trigger] response.content[k]),
    ensures
        stub_body(response) == response.content[at].1->0,
{
    lemma_first_json_example(response.content, 0);
}

/// A response without a JSON entry that carries an example is served with
/// the default body.
pub proof fn lemma_default_without_example(response: ResponseModel)
    requires
        forall|k: int|
            0 <= k < response.content.len() ==> !carries_json_example(
                #[trigger] response.content[k],
            ),
    ensures
        stub_body(response) == default_stub_body(),
{
    lemma_first_json_example(response.content, 0);
}

/// Two calls of `dispatch` on the same table, method and path give the same
/// answer: the contract of `dispatch` admits one answer only.
pub proof fn lemma_dispatch_repeats(
    endpoints: &Vec<EndpointHandler>,
    method: &str,
    path: &str,
    first: Resolution,
    second: Resolution,
)
    requires
        call_ensures(dispatch, (endpoints, method, path), first),
        call_ensures(dispatch, (endpoints, method, path), second),
    ensures
        first@ == second@,
{
}

} // verus!
