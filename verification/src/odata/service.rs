//! The AtomPub service document tree, with a fixed base.
use vstd::prelude::*;
use crate::service::{app_namespace, atom_namespace};

verus! {

/// The base that every service document names.
pub open spec fn fixed_base() -> Seq<char> {
    "https://services.odata.org/V3/northwind/Northwind.svc/"@
}

/// The root of the service document.
#[derive(Debug)]
pub struct Service {
    pub workspace: Workspace,
    pub ns: String,
    pub ns_base: String,
    pub ns_atom: String,
}

impl Service {
    /// The service document around the given workspace.
    pub fn new(workspace: Workspace) -> (r: Service)
        ensures
            r.workspace == workspace,
            r.ns@ == app_namespace(),
            r.ns_base@ == fixed_base(),
            r.ns_atom@ == atom_namespace(),
    {
        Service {
            workspace,
            ns: "http://www.w3.org/2007/app".to_owned(),
            ns_base: "https://services.odata.org/V3/northwind/Northwind.svc/".to_owned(),
            ns_atom: "http://www.w3.org/2005/Atom".to_owned(),
        }
    }
}

/// The workspace of a service document: a title and the collections.
#[derive(Debug)]
pub struct Workspace {
    pub title: String,
    pub collections: Vec<Collection>,
}

/// One collection of a workspace: its address and its title.
#[derive(Debug)]
pub struct Collection {
    pub href: String,
    pub title: String,
}

} // verus!
