//! An API description, reduced to what endpoints are compiled from: paths,
//! their operations by method, the responses of each operation by status,
//! and the content of each response by content type.

use vstd::prelude::*;

verus! {

/// An entry of a description: written out in place, or given in a form that
/// is not supported (a reference to a definition elsewhere).
#[derive(Clone, Debug, PartialEq, Eq)]
pub enum Declared<T> {
    Inline(T),
    Unsupported,
}

impl<T: DeepView> DeepView for Declared<T> {
    type V = Declared<T::V>;

    open spec fn deep_view(&self) -> Declared<T::V> {
        match self {
            Declared::Inline(item) => Declared::Inline(item.deep_view()),
            Declared::Unsupported => Declared::Unsupported,
        }
    }
}

/// One response of an operation: its content types in declared order, each
/// with the text of its example payload where it has one.
#[derive(Clone, Debug, PartialEq, Eq)]
pub struct Response {
    pub content: Vec<(String, Option<String>)>,
}

/// What a `Response` stands for.
pub struct ResponseModel {
    pub content: Seq<(Seq<char>, Option<Seq<char>>)>,
}

impl DeepView for Response {
    type V = ResponseModel;

    open spec fn deep_view(&self) -> ResponseModel {
        ResponseModel { content: self.content.deep_view() }
    }
}

/// One operation: its responses in declared order, each under its status
/// code.
#[derive(Clone, Debug, PartialEq, Eq)]
pub struct Operation {
    pub responses: Vec<(String, Declared<Response>)>,
}

/// What an `Operation` stands for.
pub struct OperationModel {
    pub responses: Seq<(Seq<char>, Declared<ResponseModel>)>,
}

impl DeepView for Operation {
    type V = OperationModel;

    open spec fn deep_view(&self) -> OperationModel {
        OperationModel { responses: self.responses.deep_view() }
    }
}

/// The operations declared on one path, by method.
#[derive(Clone, Debug, PartialEq, Eq)]
pub struct PathItem {
    pub get: Option<Operation>,
    pub put: Option<Operation>,
    pub post: Option<Operation>,
    pub delete: Option<Operation>,
    pub options: Option<Operation>,
    pub head: Option<Operation>,
    pub patch: Option<Operation>,
    pub trace: Option<Operation>,
}

/// What a `PathItem` stands for.
pub struct PathItemModel {
    pub get: Option<OperationModel>,
    pub put: Option<OperationModel>,
    pub post: Option<OperationModel>,
    pub delete: Option<OperationModel>,
    pub options: Option<OperationModel>,
    pub head: Option<OperationModel>,
    pub patch: Option<OperationModel>,
    pub trace: Option<OperationModel>,
}

impl DeepView for PathItem {
    type V = PathItemModel;

    open spec fn deep_view(&self) -> PathItemModel {
        PathItemModel {
            get: self.get.deep_view(),
            put: self.put.deep_view(),
            post: self.post.deep_view(),
            delete: self.delete.deep_view(),
            options: self.options.deep_view(),
            head: self.head.deep_view(),
            patch: self.patch.deep_view(),
            trace: self.trace.deep_view(),
        }
    }
}

/// A whole description: its paths in declared order, each a template with
/// what is declared on it.
#[derive(Clone, Debug, PartialEq, Eq)]
pub struct SpecDocument {
    pub paths: Vec<(String, Declared<PathItem>)>,
}

/// What a `SpecDocument` stands for.
pub struct DocumentModel {
    pub paths: Seq<(Seq<char>, Declared<PathItemModel>)>,
}

impl DeepView for SpecDocument {
    type V = DocumentModel;

    open spec fn deep_view(&self) -> DocumentModel {
        DocumentModel { paths: self.paths.deep_view() }
    }
}

} // verus!
