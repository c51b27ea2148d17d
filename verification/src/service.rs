//! The AtomPub service document tree.
use vstd::prelude::*;

verus! {

/// The namespace of the service document.
pub open spec fn app_namespace() -> Seq<char> {
    "http://www.w3.org/2007/app"@
}

/// The namespace of the `atom` prefix.
pub open spec fn atom_namespace() -> Seq<char> {
    "http://www.w3.org/2005/Atom"@
}

/// The root of the service document.
#[derive(Debug)]
pub struct Service {
    pub workspace: Workspace,
    pub base_url: String,
    pub ns: String,
    pub ns_atom: String,
}

impl Service {
    /// The service document of the given base URL and workspace.
    pub fn new(base_url: String, workspace: Workspace) -> (r: Service)
        ensures
            r.workspace == workspace,
            r.base_url == base_url,
            r.ns@ == app_namespace(),
            r.ns_atom@ == atom_namespace(),
    {
        Service {
            workspace,
            base_url,
            ns: "http://www.w3.org/2007/app".to_owned(),
            ns_atom: "http://www.w3.org/2005/Atom".to_owned(),
        }
    }
}

/// The workspace of a service document: a title and the collections.
#[derive(Debug)]
pub struct Workspace {
    pub title: String,
    pub collections: Vec<Collection>,
}

/// One collection of a workspace: its address and its title.
#[derive(Debug)]
pub struct Collection {
    pub href: String,
    pub title: String,
}

} // verus!
