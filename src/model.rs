use vstd::prelude::*;

use crate::method::HttpMethod;

verus! {

/// A name/value row: a header of a request or a value of an environment.
pub type Pair = (String, String);

/// The text of a row.
pub open spec fn pair_view(p: Pair) -> (Seq<char>, Seq<char>) {
    (p.0@, p.1@)
}

/// The texts of a sequence of rows, in order.
pub open spec fn pairs_view(s: Seq<Pair>) -> Seq<(Seq<char>, Seq<char>)> {
    s.map_values(|p: Pair| pair_view(p))
}

/// A request as it is edited: it is described here and never sent.
#[derive(Clone, Debug)]
pub struct Request {
    pub name: String,
    pub url: String,
    pub method: HttpMethod,
    pub headers: Vec<Pair>,
    pub body: String,
}

/// What a request holds, as text.
pub struct RequestView {
    pub name: Seq<char>,
    pub url: Seq<char>,
    pub method: HttpMethod,
    pub headers: Seq<(Seq<char>, Seq<char>)>,
    pub body: Seq<char>,
}

impl View for Request {
    type V = RequestView;

    open spec fn view(&self) -> RequestView {
        RequestView {
            name: self.name@,
            url: self.url@,
            method: self.method,
            headers: pairs_view(self.headers@),
            body: self.body@,
        }
    }
}

/// A named set of key/value rows.
#[derive(Clone, Debug)]
pub struct Environment {
    pub name: String,
    pub values: Vec<Pair>,
}

/// What an environment holds, as text.
pub struct EnvironmentView {
    pub name: Seq<char>,
    pub values: Seq<(Seq<char>, Seq<char>)>,
}

impl View for Environment {
    type V = EnvironmentView;

    open spec fn view(&self) -> EnvironmentView {
        EnvironmentView { name: self.name@, values: pairs_view(self.values@) }
    }
}

/// The one item being edited: a request or an environment, by position.
#[derive(Clone, Copy, Debug, PartialEq, Eq, Structural)]
pub enum PanelSelection {
    Request(usize),
    Environment(usize),
}

/// The views of a sequence of requests, in order.
pub open spec fn requests_view(s: Seq<Request>) -> Seq<RequestView> {
    s.map_values(|r: Request| r@)
}

/// The views of a sequence of environments, in order.
pub open spec fn environments_view(s: Seq<Environment>) -> Seq<EnvironmentView> {
    s.map_values(|e: Environment| e@)
}

} // verus!
