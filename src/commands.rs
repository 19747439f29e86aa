//! The two commands that the library offers to a host shell: a search and a
//! table projection of its results.

use vstd::prelude::*;
use crate::project::{AttrGetter, getter_for, parse_attr_getters};

verus! {

/// The search command.
#[derive(Debug, Clone, Copy)]
pub struct Search;

/// The table projection command.
#[derive(Debug, Clone, Copy)]
pub struct Table;

impl Search {
    /// The command's name.
    pub fn name(&self) -> (r: &'static str)
        ensures
            r@ == "ldap search"@,
    {
        "ldap search"
    }

    /// One line on what the command does.
    pub fn description(&self) -> (r: &'static str)
        ensures
            r@ == "Searches an LDAP directory."@,
    {
        "Searches an LDAP directory."
    }

    /// Words under which a user may look the command up.
    pub fn search_terms(&self) -> (r: Vec<&'static str>)
        ensures
            r@.len() == 3,
            r@[0]@ == "ldap"@,
            r@[1]@ == "search"@,
            r@[2]@ == "directory"@,
    {
        let mut r: Vec<&'static str> = Vec::new();
        r.push("ldap");
        r.push("search");
        r.push("directory");
        r
    }
}

impl Table {
    /// The command's name.
    pub fn name(&self) -> (r: &'static str)
        ensures
            r@ == "ldap table"@,
    {
        "ldap table"
    }

    /// One line on what the command does.
    pub fn description(&self) -> (r: &'static str)
        ensures
            r@ == "Transform an LDAP response into a flatter table"@,
    {
        "Transform an LDAP response into a flatter table"
    }

    /// The selectors that the command's arguments name, in order.
    pub fn getters(&self, args: Vec<String>) -> (r: Vec<AttrGetter>)
        ensures
            r@.len() == args@.len(),
            forall|i: int| 0 <= i < args@.len() ==> (#[trigger] r@[i])@ == getter_for(args@[i]@),
    {
        parse_attr_getters(args)
    }
}

} // verus!
