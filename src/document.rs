use vstd::prelude::*;

use crate::decimal::{decimal, numbered};
use crate::method::HttpMethod;
use crate::positions::{check_marks, listed, marks_ascending, remove_marked, without_positions};
use crate::model::{
    environments_view, pairs_view, requests_view, Environment, EnvironmentView, Pair,
    PanelSelection, Request, RequestView,
};

verus! {

/// The whole document as values: what is saved and restored.
pub struct DocView {
    pub requests: Seq<RequestView>,
    pub environments: Seq<EnvironmentView>,
    pub selected: PanelSelection,
}

/// The selection names an item that exists in its collection.
pub open spec fn selection_in_range(sel: PanelSelection, n_requests: nat, n_environments: nat) -> bool {
    match sel {
        PanelSelection::Request(i) => i < n_requests,
        PanelSelection::Environment(j) => j < n_environments,
    }
}

impl DocView {
    /// At least one environment exists and the selection does not dangle.
    pub open spec fn is_valid(self) -> bool {
        &&& self.environments.len() >= 1
        &&& selection_in_range(self.selected, self.requests.len(), self.environments.len())
    }
}

/// A row with empty name and value.
pub open spec fn empty_row() -> (Seq<char>, Seq<char>) {
    (Seq::empty(), Seq::empty())
}

/// The request added as the `n`-th one.
pub open spec fn new_request_view(n: nat) -> RequestView {
    RequestView {
        name: "New Request "@ + decimal(n),
        url: Seq::empty(),
        method: HttpMethod::GET,
        headers: Seq::empty(),
        body: Seq::empty(),
    }
}

/// The environment added as the `n`-th one.
pub open spec fn new_environment_view(n: nat) -> EnvironmentView {
    EnvironmentView { name: "New Environment "@ + decimal(n), values: Seq::empty() }
}

/// The document used when nothing was stored.
pub open spec fn default_view() -> DocView {
    DocView {
        requests: seq![
            RequestView {
                name: "Request 1"@,
                url: "https://example.com"@,
                method: HttpMethod::GET,
                headers: seq![("Content-Type"@, "application/json"@)],
                body: Seq::empty(),
            },
        ],
        environments: seq![EnvironmentView { name: "Default"@, values: Seq::empty() }],
        selected: PanelSelection::Request(0),
    }
}

/// `r` with its headers replaced.
pub open spec fn with_headers(r: RequestView, headers: Seq<(Seq<char>, Seq<char>)>) -> RequestView {
    RequestView { headers, ..r }
}

/// `e` with its values replaced.
pub open spec fn with_values(e: EnvironmentView, values: Seq<(Seq<char>, Seq<char>)>) -> EnvironmentView {
    EnvironmentView { values, ..e }
}

/// The view of a document assembled from these parts.
pub open spec fn parts_view(
    requests: Seq<Request>,
    environments: Seq<Environment>,
    selected: PanelSelection,
) -> DocView {
    DocView {
        requests: requests_view(requests),
        environments: environments_view(environments),
        selected,
    }
}

/// The request collection, the environment collection and the selected panel.
#[derive(Debug)]
pub struct RequestieApp {
    requests: Vec<Request>,
    environments: Vec<Environment>,
    selected_panel: PanelSelection,
}

impl View for RequestieApp {
    type V = DocView;

    closed spec fn view(&self) -> DocView {
        DocView {
            requests: requests_view(self.requests@),
            environments: environments_view(self.environments@),
            selected: self.selected_panel,
        }
    }
}

impl Default for RequestieApp {
    /// One request to example.com with a JSON content type, one empty
    /// environment named "Default", and the request selected.
    fn default() -> (r: Self)
        ensures
            r@ == default_view(),
            r.wf(),
    {
        let mut headers: Vec<Pair> = Vec::new();
        headers.push(("Content-Type".to_owned(), "application/json".to_owned()));
        let mut requests: Vec<Request> = Vec::new();
        requests.push(
            Request {
                name: "Request 1".to_owned(),
                url: "https://example.com".to_owned(),
                method: HttpMethod::GET,
                headers,
                body: String::new(),
            },
        );
        let mut environments: Vec<Environment> = Vec::new();
        environments.push(Environment { name: "Default".to_owned(), values: Vec::new() });
        let r = RequestieApp { requests, environments, selected_panel: PanelSelection::Request(0) };
        proof {
            assert(pairs_view(r.requests@[0].headers@) =~= seq![("Content-Type"@, "application/json"@)]);
            assert(pairs_view(r.environments@[0].values@) =~= Seq::empty());
            assert(r@.requests =~= default_view().requests);
            assert(r@.environments =~= default_view().environments);
        }
        r
    }
}

impl RequestieApp {
    /// The document's invariant.
    pub open spec fn wf(&self) -> bool {
        self@.is_valid()
    }

    /// The document to start a session with: the stored one where there is
    /// one and it is well formed, else the default document.
    pub fn new(stored: Option<RequestieApp>) -> (r: Self)
        ensures
            r.wf(),
            match stored {
                Some(d) => if d.wf() { r@ == d@ } else { r@ == default_view() },
                None => r@ == default_view(),
            },
    {
        match stored {
            Some(d) => {
                if d.is_well_formed() {
                    d
                } else {
                    RequestieApp::default()
                }
            },
            None => RequestieApp::default(),
        }
    }

    /// Whether the invariant holds.
    pub fn is_well_formed(&self) -> (r: bool)
        ensures
            r == self.wf(),
    {
        self.environments.len() >= 1 && match self.selected_panel {
            PanelSelection::Request(i) => i < self.requests.len(),
            PanelSelection::Environment(j) => j < self.environments.len(),
        }
    }

    /// Appends a request named after its position, with an empty URL, body
    /// and headers and method GET, and selects it.
    pub fn add_request(&mut self)
        requires
            old(self).wf(),
            old(self)@.requests.len() < usize::MAX,
        ensures
            final(self).wf(),
            final(self)@.requests == old(self)@.requests.push(
                new_request_view(old(self)@.requests.len() + 1),
            ),
            final(self)@.environments == old(self)@.environments,
            final(self)@.selected == PanelSelection::Request(old(self)@.requests.len() as usize),
    {
        let n = self.requests.len();
        let r = Request {
            name: numbered("New Request ", n + 1),
            url: String::new(),
            method: HttpMethod::GET,
            headers: Vec::new(),
            body: String::new(),
        };
        proof {
            assert(pairs_view(r.headers@) =~= Seq::empty());
        }
        self.requests.push(r);
        self.selected_panel = PanelSelection::Request(n);
        proof {
            assert(requests_view(self.requests@) =~= requests_view(old(self).requests@).push(
                new_request_view((n + 1) as nat),
            ));
        }
    }

    /// Appends an environment named after its position, with no values,
    /// and selects it.
    pub fn add_environment(&mut self)
        requires
            old(self).wf(),
            old(self)@.environments.len() < usize::MAX,
        ensures
            final(self).wf(),
            final(self)@.requests == old(self)@.requests,
            final(self)@.environments == old(self)@.environments.push(
                new_environment_view(old(self)@.environments.len() + 1),
            ),
            final(self)@.selected == PanelSelection::Environment(
                old(self)@.environments.len() as usize,
            ),
    {
        let n = self.environments.len();
        let e = Environment { name: numbered("New Environment ", n + 1), values: Vec::new() };
        proof {
            assert(pairs_view(e.values@) =~= Seq::empty());
        }
        self.environments.push(e);
        self.selected_panel = PanelSelection::Environment(n);
        proof {
            assert(environments_view(self.environments@) =~= environments_view(
                old(self).environments@,
            ).push(new_environment_view((n + 1) as nat)));
        }
    }

    /// Whether an environment may be removed: never the last one.
    pub fn can_remove_environment(&self) -> (r: bool)
        ensures
            r == (self@.environments.len() > 1),
    {
        self.environments.len() > 1
    }

    /// Removes the environment at `idx` and selects the first environment.
    /// The last remaining environment is never removed, and an index out of
    /// range changes nothing.
    pub fn remove_environment(&mut self, idx: usize)
        requires
            old(self).wf(),
        ensures
            final(self).wf(),
            if old(self)@.environments.len() > 1 && idx < old(self)@.environments.len() {
                &&& final(self)@.requests == old(self)@.requests
                &&& final(self)@.environments == old(self)@.environments.remove(idx as int)
                &&& final(self)@.selected == PanelSelection::Environment(0)
            } else {
                final(self)@ == old(self)@
            },
            old(self)@.environments.len() == 1 ==> final(self)@ == old(self)@,
    {
        if self.environments.len() > 1 && idx < self.environments.len() {
            self.environments.remove(idx);
            self.selected_panel = PanelSelection::Environment(0);
            proof {
                assert(environments_view(self.environments@) =~= environments_view(
                    old(self).environments@,
                ).remove(idx as int));
            }
        }
    }

    /// Selects the request at `idx`; an index out of range changes nothing.
    pub fn select_request(&mut self, idx: usize)
        requires
            old(self).wf(),
        ensures
            final(self).wf(),
            final(self)@.requests == old(self)@.requests,
            final(self)@.environments == old(self)@.environments,
            final(self)@.selected == if idx < old(self)@.requests.len() {
                PanelSelection::Request(idx)
            } else {
                old(self)@.selected
            },
    {
        if idx < self.requests.len() {
            self.selected_panel = PanelSelection::Request(idx);
        }
    }

    /// Selects the environment at `idx`; an index out of range changes nothing.
    pub fn select_environment(&mut self, idx: usize)
        requires
            old(self).wf(),
        ensures
            final(self).wf(),
            final(self)@.requests == old(self)@.requests,
            final(self)@.environments == old(self)@.environments,
            final(self)@.selected == if idx < old(self)@.environments.len() {
                PanelSelection::Environment(idx)
            } else {
                old(self)@.selected
            },
    {
        if idx < self.environments.len() {
            self.selected_panel = PanelSelection::Environment(idx);
        }
    }

    /// Appends an empty header to the request at `request_idx`; an index out
    /// of range changes nothing.
    pub fn add_header(&mut self, request_idx: usize)
        requires
            old(self).wf(),
        ensures
            final(self).wf(),
            final(self)@.environments == old(self)@.environments,
            final(self)@.selected == old(self)@.selected,
            final(self)@.requests == if request_idx < old(self)@.requests.len() {
                let r = old(self)@.requests[request_idx as int];
                old(self)@.requests.update(
                    request_idx as int,
                    with_headers(r, r.headers.push(empty_row())),
                )
            } else {
                old(self)@.requests
            },
    {
        if request_idx < self.requests.len() {
            self.requests[request_idx].headers.push((String::new(), String::new()));
            proof {
                let old_r = old(self).requests@[request_idx as int];
                assert(pairs_view(self.requests@[request_idx as int].headers@) =~= pairs_view(
                    old_r.headers@,
                ).push(empty_row()));
                assert(requests_view(self.requests@) =~= requests_view(old(self).requests@).update(
                    request_idx as int,
                    with_headers(old_r@, old_r@.headers.push(empty_row())),
                ));
            }
        }
    }

    /// Removes the header at `header_idx` of the request at `request_idx`;
    /// the other headers keep their order. An index out of range changes
    /// nothing.
    pub fn remove_header(&mut self, request_idx: usize, header_idx: usize)
        requires
            old(self).wf(),
        ensures
            final(self).wf(),
            final(self)@.environments == old(self)@.environments,
            final(self)@.selected == old(self)@.selected,
            final(self)@.requests == if request_idx < old(self)@.requests.len()
                && header_idx < old(self)@.requests[request_idx as int].headers.len() {
                let r = old(self)@.requests[request_idx as int];
                old(self)@.requests.update(
                    request_idx as int,
                    with_headers(r, r.headers.remove(header_idx as int)),
                )
            } else {
                old(self)@.requests
            },
    {
        if request_idx < self.requests.len() && header_idx
            < self.requests[request_idx].headers.len() {
            self.requests[request_idx].headers.remove(header_idx);
            proof {
                let old_r = old(self).requests@[request_idx as int];
                assert(pairs_view(self.requests@[request_idx as int].headers@) =~= pairs_view(
                    old_r.headers@,
                ).remove(header_idx as int));
                assert(requests_view(self.requests@) =~= requests_view(old(self).requests@).update(
                    request_idx as int,
                    with_headers(old_r@, old_r@.headers.remove(header_idx as int)),
                ));
            }
        }
    }
    /// Appends an empty row to the environment at `env_idx`; an index out of
    /// range changes nothing.
    pub fn add_environment_value(&mut self, env_idx: usize)
        requires
            old(self).wf(),
        ensures
            final(self).wf(),
            final(self)@.requests == old(self)@.requests,
            final(self)@.selected == old(self)@.selected,
            final(self)@.environments == if env_idx < old(self)@.environments.len() {
                let e = old(self)@.environments[env_idx as int];
                old(self)@.environments.update(
                    env_idx as int,
                    with_values(e, e.values.push(empty_row())),
                )
            } else {
                old(self)@.environments
            },
    {
        if env_idx < self.environments.len() {
            self.environments[env_idx].values.push((String::new(), String::new()));
            proof {
                let old_e = old(self).environments@[env_idx as int];
                assert(pairs_view(self.environments@[env_idx as int].values@) =~= pairs_view(
                    old_e.values@,
                ).push(empty_row()));
                assert(environments_view(self.environments@) =~= environments_view(
                    old(self).environments@,
                ).update(env_idx as int, with_values(old_e@, old_e@.values.push(empty_row()))));
            }
        }
    }

    /// Removes the row at `value_idx` of the environment at `env_idx`; the
    /// other rows keep their order. An index out of range changes nothing.
    pub fn remove_environment_value(&mut self, env_idx: usize, value_idx: usize)
        requires
            old(self).wf(),
        ensures
            final(self).wf(),
            final(self)@.requests == old(self)@.requests,
            final(self)@.selected == old(self)@.selected,
            final(self)@.environments == if env_idx < old(self)@.environments.len()
                && value_idx < old(self)@.environments[env_idx as int].values.len() {
                let e = old(self)@.environments[env_idx as int];
                old(self)@.environments.update(
                    env_idx as int,
                    with_values(e, e.values.remove(value_idx as int)),
                )
            } else {
                old(self)@.environments
            },
    {
        if env_idx < self.environments.len() && value_idx
            < self.environments[env_idx].values.len() {
            self.environments[env_idx].values.remove(value_idx);
            proof {
                let old_e = old(self).environments@[env_idx as int];
                assert(pairs_view(self.environments@[env_idx as int].values@) =~= pairs_view(
                    old_e.values@,
                ).remove(value_idx as int));
                assert(environments_view(self.environments@) =~= environments_view(
                    old(self).environments@,
                ).update(env_idx as int, with_values(old_e@, old_e@.values.remove(value_idx as int))));
            }
        }
    }

    /// Removes, in one batch, the headers at the positions listed in
    /// `marked` from the request at `request_idx`; the other headers keep
    /// their order. Nothing changes where the request does not exist or
    /// `marked` is not an increasing list of positions of its headers.
    pub fn remove_headers(&mut self, request_idx: usize, marked: &Vec<usize>)
        requires
            old(self).wf(),
        ensures
            final(self).wf(),
            final(self)@.environments == old(self)@.environments,
            final(self)@.selected == old(self)@.selected,
            final(self)@.requests == if request_idx < old(self)@.requests.len()
                && marks_ascending(marked@, old(self)@.requests[request_idx as int].headers.len()) {
                let r = old(self)@.requests[request_idx as int];
                old(self)@.requests.update(
                    request_idx as int,
                    with_headers(r, without_positions(r.headers, listed(marked@))),
                )
            } else {
                old(self)@.requests
            },
    {
        if request_idx < self.requests.len() && check_marks(
            marked,
            self.requests[request_idx].headers.len(),
        ) {
            remove_marked(&mut self.requests[request_idx].headers, marked);
            proof {
                let old_r = old(self).requests@[request_idx as int];
                assert(requests_view(self.requests@) =~= requests_view(old(self).requests@).update(
                    request_idx as int,
                    with_headers(old_r@, without_positions(old_r@.headers, listed(marked@))),
                ));
            }
        }
    }

    /// Removes, in one batch, the rows at the positions listed in `marked`
    /// from the environment at `env_idx`; the other rows keep their order.
    /// Nothing changes where the environment does not exist or `marked` is
    /// not an increasing list of positions of its rows.
    pub fn remove_environment_values(&mut self, env_idx: usize, marked: &Vec<usize>)
        requires
            old(self).wf(),
        ensures
            final(self).wf(),
            final(self)@.requests == old(self)@.requests,
            final(self)@.selected == old(self)@.selected,
            final(self)@.environments == if env_idx < old(self)@.environments.len()
                && marks_ascending(marked@, old(self)@.environments[env_idx as int].values.len()) {
                let e = old(self)@.environments[env_idx as int];
                old(self)@.environments.update(
                    env_idx as int,
                    with_values(e, without_positions(e.values, listed(marked@))),
                )
            } else {
                old(self)@.environments
            },
    {
        if env_idx < self.environments.len() && check_marks(
            marked,
            self.environments[env_idx].values.len(),
        ) {
            remove_marked(&mut self.environments[env_idx].values, marked);
            proof {
                let old_e = old(self).environments@[env_idx as int];
                assert(environments_view(self.environments@) =~= environments_view(
                    old(self).environments@,
                ).update(
                    env_idx as int,
                    with_values(old_e@, without_positions(old_e@.values, listed(marked@))),
                ));
            }
        }
    }

    /// Renames the request at `idx`; an index out of range changes nothing.
    pub fn set_request_name(&mut self, idx: usize, name: String)
        requires
            old(self).wf(),
        ensures
            final(self).wf(),
            final(self)@.environments == old(self)@.environments,
            final(self)@.selected == old(self)@.selected,
            final(self)@.requests == if idx < old(self)@.requests.len() {
                old(self)@.requests.update(
                    idx as int,
                    (RequestView { name: name@, ..old(self)@.requests[idx as int] }),
                )
            } else {
                old(self)@.requests
            },
    {
        if idx < self.requests.len() {
            self.requests[idx].name = name;
            proof {
                assert(requests_view(self.requests@) =~= requests_view(old(self).requests@).update(
                    idx as int,
                    RequestView { name: name@, ..old(self).requests@[idx as int]@ },
                ));
            }
        }
    }

    /// Sets the URL of the request at `idx`; an index out of range changes nothing.
    pub fn set_request_url(&mut self, idx: usize, url: String)
        requires
            old(self).wf(),
        ensures
            final(self).wf(),
            final(self)@.environments == old(self)@.environments,
            final(self)@.selected == old(self)@.selected,
            final(self)@.requests == if idx < old(self)@.requests.len() {
                old(self)@.requests.update(
                    idx as int,
                    (RequestView { url: url@, ..old(self)@.requests[idx as int] }),
                )
            } else {
                old(self)@.requests
            },
    {
        if idx < self.requests.len() {
            self.requests[idx].url = url;
            proof {
                assert(requests_view(self.requests@) =~= requests_view(old(self).requests@).update(
                    idx as int,
                    RequestView { url: url@, ..old(self).requests@[idx as int]@ },
                ));
            }
        }
    }

    /// Sets the method of the request at `idx`; an index out of range changes nothing.
    pub fn set_request_method(&mut self, idx: usize, method: HttpMethod)
        requires
            old(self).wf(),
        ensures
            final(self).wf(),
            final(self)@.environments == old(self)@.environments,
            final(self)@.selected == old(self)@.selected,
            final(self)@.requests == if idx < old(self)@.requests.len() {
                old(self)@.requests.update(
                    idx as int,
                    (RequestView { method: method, ..old(self)@.requests[idx as int] }),
                )
            } else {
                old(self)@.requests
            },
    {
        if idx < self.requests.len() {
            self.requests[idx].method = method;
            proof {
                assert(requests_view(self.requests@) =~= requests_view(old(self).requests@).update(
                    idx as int,
                    RequestView { method: method, ..old(self).requests@[idx as int]@ },
                ));
            }
        }
    }

    /// Sets the body of the request at `idx`; an index out of range changes nothing.
    pub fn set_request_body(&mut self, idx: usize, body: String)
        requires
            old(self).wf(),
        ensures
            final(self).wf(),
            final(self)@.environments == old(self)@.environments,
            final(self)@.selected == old(self)@.selected,
            final(self)@.requests == if idx < old(self)@.requests.len() {
                old(self)@.requests.update(
                    idx as int,
                    (RequestView { body: body@, ..old(self)@.requests[idx as int] }),
                )
            } else {
                old(self)@.requests
            },
    {
        if idx < self.requests.len() {
            self.requests[idx].body = body;
            proof {
                assert(requests_view(self.requests@) =~= requests_view(old(self).requests@).update(
                    idx as int,
                    RequestView { body: body@, ..old(self).requests@[idx as int]@ },
                ));
            }
        }
    }

    /// Sets the name and value of the header at `header_idx` of the request
    /// at `request_idx`; an index out of range changes nothing.
    pub fn set_header(&mut self, request_idx: usize, header_idx: usize, name: String, value: String)
        requires
            old(self).wf(),
        ensures
            final(self).wf(),
            final(self)@.environments == old(self)@.environments,
            final(self)@.selected == old(self)@.selected,
            final(self)@.requests == if request_idx < old(self)@.requests.len()
                && header_idx < old(self)@.requests[request_idx as int].headers.len() {
                let r = old(self)@.requests[request_idx as int];
                old(self)@.requests.update(
                    request_idx as int,
                    with_headers(r, r.headers.update(header_idx as int, (name@, value@))),
                )
            } else {
                old(self)@.requests
            },
    {
        if request_idx < self.requests.len() && header_idx
            < self.requests[request_idx].headers.len() {
            self.requests[request_idx].headers.set(header_idx, (name, value));
            proof {
                let old_r = old(self).requests@[request_idx as int];
                assert(pairs_view(self.requests@[request_idx as int].headers@) =~= pairs_view(
                    old_r.headers@,
                ).update(header_idx as int, (name@, value@)));
                assert(requests_view(self.requests@) =~= requests_view(old(self).requests@).update(
                    request_idx as int,
                    with_headers(old_r@, old_r@.headers.update(header_idx as int, (name@, value@))),
                ));
            }
        }
    }

    /// Renames the environment at `idx`; an index out of range changes
    /// nothing.
    pub fn set_environment_name(&mut self, idx: usize, name: String)
        requires
            old(self).wf(),
        ensures
            final(self).wf(),
            final(self)@.requests == old(self)@.requests,
            final(self)@.selected == old(self)@.selected,
            final(self)@.environments == if idx < old(self)@.environments.len() {
                old(self)@.environments.update(
                    idx as int,
                    (EnvironmentView { name: name@, ..old(self)@.environments[idx as int] }),
                )
            } else {
                old(self)@.environments
            },
    {
        if idx < self.environments.len() {
            self.environments[idx].name = name;
            proof {
                assert(environments_view(self.environments@) =~= environments_view(
                    old(self).environments@,
                ).update(
                    idx as int,
                    EnvironmentView { name: name@, ..old(self).environments@[idx as int]@ },
                ));
            }
        }
    }

    /// Sets the key and value of the row at `value_idx` of the environment at
    /// `env_idx`; an index out of range changes nothing.
    pub fn set_environment_value(&mut self, env_idx: usize, value_idx: usize, key: String, value: String)
        requires
            old(self).wf(),
        ensures
            final(self).wf(),
            final(self)@.requests == old(self)@.requests,
            final(self)@.selected == old(self)@.selected,
            final(self)@.environments == if env_idx < old(self)@.environments.len()
                && value_idx < old(self)@.environments[env_idx as int].values.len() {
                let e = old(self)@.environments[env_idx as int];
                old(self)@.environments.update(
                    env_idx as int,
                    with_values(e, e.values.update(value_idx as int, (key@, value@))),
                )
            } else {
                old(self)@.environments
            },
    {
        if env_idx < self.environments.len() && value_idx
            < self.environments[env_idx].values.len() {
            self.environments[env_idx].values.set(value_idx, (key, value));
            proof {
                let old_e = old(self).environments@[env_idx as int];
                assert(pairs_view(self.environments@[env_idx as int].values@) =~= pairs_view(
                    old_e.values@,
                ).update(value_idx as int, (key@, value@)));
                assert(environments_view(self.environments@) =~= environments_view(
                    old(self).environments@,
                ).update(env_idx as int, with_values(old_e@, old_e@.values.update(value_idx as int, (key@, value@)))));
            }
        }
    }

    /// The requests, in order.
    pub fn requests(&self) -> (r: &Vec<Request>)
        ensures
            requests_view(r@) == self@.requests,
    {
        &self.requests
    }

    /// The environments, in order.
    pub fn environments(&self) -> (r: &Vec<Environment>)
        ensures
            environments_view(r@) == self@.environments,
    {
        &self.environments
    }

    /// The selected panel.
    pub fn selected(&self) -> (r: PanelSelection)
        ensures
            r == self@.selected,
    {
        self.selected_panel
    }

    /// Assembles a document from its parts; `None` where they break the
    /// invariant.
    pub fn from_parts(
        requests: Vec<Request>,
        environments: Vec<Environment>,
        selected: PanelSelection,
    ) -> (r: Option<Self>)
        ensures
            r is Some <==> parts_view(requests@, environments@, selected).is_valid(),
            r matches Some(d) ==> d@ == parts_view(requests@, environments@, selected),
    {
        let d = RequestieApp { requests, environments, selected_panel: selected };
        if d.is_well_formed() {
            Some(d)
        } else {
            None
        }
    }

    /// Takes the document apart: its requests, its environments and the
    /// selected panel.
    pub fn into_parts(self) -> (r: (Vec<Request>, Vec<Environment>, PanelSelection))
        ensures
            parts_view(r.0@, r.1@, r.2) == self@,
    {
        (self.requests, self.environments, self.selected_panel)
    }
}

/// A well-formed document taken apart by `into_parts` is accepted again by
/// `from_parts`, which rebuilds a document with the same view.
pub proof fn lemma_parts_round_trip(
    d: RequestieApp,
    requests: Seq<Request>,
    environments: Seq<Environment>,
    selected: PanelSelection,
)
    requires
        d.wf(),
        parts_view(requests, environments, selected) == d@,
    ensures
        parts_view(requests, environments, selected).is_valid(),
        parts_view(requests, environments, selected) == d@,
{
}

} // verus!
