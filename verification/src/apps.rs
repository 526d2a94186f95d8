//! Application references: the resolved description of a launchable
//! application and the lookup that matches a query against a list of known
//! applications.

use crate::text::{lower_of, lowercase};
use vstd::prelude::*;

verus! {

/// The display name of an application.
#[derive(Clone, Debug)]
pub struct AppName(pub String);

/// The shell command that launches an application.
#[derive(Clone, Debug)]
pub struct ExecCommand(pub String);

/// A user-written query naming an application.
#[derive(Clone, Debug)]
pub struct AppQuery(pub String);

/// The name of an icon, either a theme icon name or an absolute path.
#[derive(Clone, Debug)]
pub struct IconName(pub String);

impl AppName {
    pub fn new(s: String) -> (r: Self)
        ensures
            r.0 == s,
    {
        AppName(s)
    }
}

impl ExecCommand {
    pub fn new(s: String) -> (r: Self)
        ensures
            r.0 == s,
    {
        ExecCommand(s)
    }
}

impl AppQuery {
    pub fn new(s: String) -> (r: Self)
        ensures
            r.0 == s,
    {
        AppQuery(s)
    }
}

impl IconName {
    pub fn new(s: String) -> (r: Self)
        ensures
            r.0 == s,
    {
        IconName(s)
    }
}

/// A resolved application: display name, icon path, window class to match,
/// and launch command.
#[derive(Clone, Debug)]
pub struct AppInfo {
    pub name: String,
    pub icon: String,
    pub class: String,
    pub command: String,
}

/// Whether two application references carry the same text in every field.
pub open spec fn app_eq(a: AppInfo, b: AppInfo) -> bool {
    &&& a.name@ == b.name@
    &&& a.icon@ == b.icon@
    &&& a.class@ == b.class@
    &&& a.command@ == b.command@
}

impl AppInfo {
    /// A field-for-field copy.
    pub fn duplicate(&self) -> (r: AppInfo)
        ensures
            app_eq(r, *self),
    {
        AppInfo {
            name: self.name.clone(),
            icon: self.icon.clone(),
            class: self.class.clone(),
            command: self.command.clone(),
        }
    }

    /// Builds an application reference from a query, optional class and exec
    /// overrides, the desktop entry the query resolved to (if any), and the
    /// icon found for the bare query. The overrides win, then the entry's
    /// fields, then the query itself; a missing command becomes empty.
    pub fn new(
        query: &AppQuery,
        class: Option<String>,
        exec: Option<String>,
        base: Option<AppInfo>,
        fallback_icon: String,
    ) -> (r: AppInfo)
        ensures
            r.name@ == if base is Some {
                base->0.name@
            } else {
                query.0@
            },
            r.icon@ == if base is Some {
                base->0.icon@
            } else {
                fallback_icon@
            },
            r.class@ == if class is Some {
                class->0@
            } else if base is Some {
                base->0.class@
            } else {
                query.0@
            },
            r.command@ == if exec is Some {
                exec->0@
            } else if base is Some {
                base->0.command@
            } else {
                Seq::<char>::empty()
            },
    {
        let (name, icon, base_class, base_exec) = match base {
            Some(b) => (b.name, b.icon, Some(b.class), Some(b.command)),
            None => (query.0.clone(), fallback_icon, None, None),
        };
        let class_val = match class {
            Some(c) => c,
            None => match base_class {
                Some(c) => c,
                None => query.0.clone(),
            },
        };
        let exec_val = match exec {
            Some(e) => e,
            None => match base_exec {
                Some(e) => e,
                None => String::new(),
            },
        };
        AppInfo { name, icon, class: class_val, command: exec_val }
    }
}

/// Whether the entry answers the query: its name or its window class equals
/// the query, ignoring case.
pub open spec fn entry_matches(e: AppInfo, q: Seq<char>) -> bool {
    lower_of(e.name@) == lower_of(q) || lower_of(e.class@) == lower_of(q)
}

/// Finds the first application in the list whose name or window class equals
/// the query, ignoring case.
pub fn find_desktop_entry_in_list(query: &AppQuery, entries: &Vec<AppInfo>) -> (r: Option<usize>)
    ensures
        match r {
            Some(i) => {
                &&& i < entries@.len()
                &&& entry_matches(entries@[i as int], query.0@)
                &&& forall|j: int| 0 <= j < i ==> !entry_matches(entries@[j], query.0@)
            },
            None => forall|j: int| 0 <= j < entries@.len() ==> !entry_matches(entries@[j], query.0@),
        },
{
    let lower_query = lowercase(query.0.as_str());
    let n = entries.len();
    let mut i: usize = 0;
    while i < n
        invariant
            n == entries@.len(),
            i <= n,
            lower_query@ == lower_of(query.0@),
            forall|j: int| 0 <= j < i ==> !entry_matches(entries@[j], query.0@),
        decreases n - i,
    {
        let name_l = lowercase(entries[i].name.as_str());
        let class_l = lowercase(entries[i].class.as_str());
        if name_l == lower_query || class_l == lower_query {
            return Some(i);
        }
        i = i + 1;
    }
    None
}

} // verus!
