//! Resolving the options of one search, as given by the caller, into typed
//! connection and search settings.

use std::time::Duration;
use url::Url;
use vstd::prelude::*;
use crate::text::same_text;

verus! {

#[verifier::external_type_specification]
#[verifier::external_body]
pub struct ExUrl(url::Url);

/// How far a search descends from its base.
#[derive(PartialEq, Eq, Structural, Clone, Copy, Debug)]
pub enum SearchScope {
    Base,
    OneLevel,
    Subtree,
}

/// When alias entries are followed.
#[derive(PartialEq, Eq, Structural, Clone, Copy, Debug)]
pub enum DerefPolicy {
    Never,
    Always,
    Searching,
    Finding,
}

/// A principal and its secret for an authenticated bind.
#[derive(Debug, PartialEq, Eq)]
pub struct Credentials {
    pub dn: String,
    pub password: String,
}

/// How to reach and authenticate to the server.
pub struct ConnectOpts {
    pub uri: Url,
    /// Bind with these; anonymous when absent.
    pub bind: Option<Credentials>,
    /// Upgrade the connection to an encrypted channel before binding.
    pub starttls: bool,
    pub connect_timeout: Option<Duration>,
}

/// What to search for.
pub struct SearchOpts {
    pub scope: SearchScope,
    pub filter: String,
    /// Attributes to return; empty means all.
    pub attributes: Vec<String>,
    pub size_limit: Option<i32>,
    pub time_limit: Option<i32>,
    pub deref_aliases: DerefPolicy,
    pub basedn: String,
    pub typesonly: bool,
}

/// The resolved options of one search.
pub struct Opts {
    pub connect: ConnectOpts,
    pub search: SearchOpts,
}

/// The options as the caller gave them, before any is checked.
pub struct RawOpts {
    pub uri: Option<String>,
    pub binddn: Option<String>,
    pub password: Option<String>,
    pub starttls: bool,
    pub connect_timeout: Option<Duration>,
    pub basedn: Option<String>,
    pub scope: Option<String>,
    pub size_limit: Option<i32>,
    pub time_limit: Option<i32>,
    pub deref_aliases: Option<String>,
    pub typesonly: bool,
    pub filter: String,
    pub attributes: Vec<String>,
}

/// Why the options were refused.
#[derive(Debug, PartialEq, Eq)]
pub enum OptionError {
    /// The server URI does not parse; the text is kept.
    InvalidUri(String),
    /// The scope word is none of `base`, `one`, `sub`.
    UnknownScope(String),
    /// The dereference word is none of `never`, `always`, `search`, `find`.
    InvalidDerefAliases(String),
    /// Only one of bind DN and password was given.
    PartialCredentials,
}

pub open spec fn opt_view(t: Option<String>) -> Option<Seq<char>> {
    match t {
        Some(s) => Some(s@),
        None => None,
    }
}

/// The server used when none is given.
pub open spec fn default_uri() -> Seq<char> {
    seq!['l', 'd', 'a', 'p', ':', '/', '/', 'l', 'o', 'c', 'a', 'l', 'h', 'o', 's', 't', ':', '3', '8', '9']
}

/// The scope that a scope word denotes; `sub` when none is given.
pub open spec fn scope_of(t: Option<Seq<char>>) -> Option<SearchScope> {
    match t {
        None => Some(SearchScope::Subtree),
        Some(w) => if w == seq!['b', 'a', 's', 'e'] {
            Some(SearchScope::Base)
        } else if w == seq!['o', 'n', 'e'] {
            Some(SearchScope::OneLevel)
        } else if w == seq!['s', 'u', 'b'] {
            Some(SearchScope::Subtree)
        } else {
            None
        },
    }
}

/// The policy that a dereference word denotes; `never` when none is given.
pub open spec fn deref_of(t: Option<Seq<char>>) -> Option<DerefPolicy> {
    match t {
        None => Some(DerefPolicy::Never),
        Some(w) => if w == seq!['n', 'e', 'v', 'e', 'r'] {
            Some(DerefPolicy::Never)
        } else if w == seq!['a', 'l', 'w', 'a', 'y', 's'] {
            Some(DerefPolicy::Always)
        } else if w == seq!['s', 'e', 'a', 'r', 'c', 'h'] {
            Some(DerefPolicy::Searching)
        } else if w == seq!['f', 'i', 'n', 'd'] {
            Some(DerefPolicy::Finding)
        } else {
            None
        },
    }
}

/// Whether `url::Url::parse` accepts the text.
pub uninterp spec fn uri_accepted(s: Seq<char>) -> bool;

/// Relies on url::Url::parse: whether a text is a valid absolute URL
/// depends on the text alone.
#[verifier::external_body]
fn parse_uri(s: &str) -> (r: Option<Url>)
    ensures
        r is Some <==> uri_accepted(s@),
{
    Url::parse(s).ok()
}

/// Reads the scope word.
pub fn parse_scope(token: Option<String>) -> (r: Result<SearchScope, OptionError>)
    ensures
        match scope_of(opt_view(token)) {
            Some(sc) => r == Ok::<SearchScope, OptionError>(sc),
            None => r matches Err(OptionError::UnknownScope(w)) && Some(w@) == opt_view(token),
        },
{
    proof {
        reveal_strlit("base");
        reveal_strlit("one");
        reveal_strlit("sub");
        assert("base"@ =~= seq!['b', 'a', 's', 'e']);
        assert("one"@ =~= seq!['o', 'n', 'e']);
        assert("sub"@ =~= seq!['s', 'u', 'b']);
    }
    match token {
        None => Ok(SearchScope::Subtree),
        Some(w) => {
            if same_text(w.as_str(), "base") {
                Ok(SearchScope::Base)
            } else if same_text(w.as_str(), "one") {
                Ok(SearchScope::OneLevel)
            } else if same_text(w.as_str(), "sub") {
                Ok(SearchScope::Subtree)
            } else {
                Err(OptionError::UnknownScope(w))
            }
        },
    }
}

/// Reads the dereference word.
pub fn parse_deref(token: Option<String>) -> (r: Result<DerefPolicy, OptionError>)
    ensures
        match deref_of(opt_view(token)) {
            Some(d) => r == Ok::<DerefPolicy, OptionError>(d),
            None => r matches Err(OptionError::InvalidDerefAliases(w)) && Some(w@) == opt_view(
                token,
            ),
        },
{
    proof {
        reveal_strlit("never");
        reveal_strlit("always");
        reveal_strlit("search");
        reveal_strlit("find");
        assert("never"@ =~= seq!['n', 'e', 'v', 'e', 'r']);
        assert("always"@ =~= seq!['a', 'l', 'w', 'a', 'y', 's']);
        assert("search"@ =~= seq!['s', 'e', 'a', 'r', 'c', 'h']);
        assert("find"@ =~= seq!['f', 'i', 'n', 'd']);
    }
    match token {
        None => Ok(DerefPolicy::Never),
        Some(w) => {
            if same_text(w.as_str(), "never") {
                Ok(DerefPolicy::Never)
            } else if same_text(w.as_str(), "always") {
                Ok(DerefPolicy::Always)
            } else if same_text(w.as_str(), "search") {
                Ok(DerefPolicy::Searching)
            } else if same_text(w.as_str(), "find") {
                Ok(DerefPolicy::Finding)
            } else {
                Err(OptionError::InvalidDerefAliases(w))
            }
        },
    }
}

/// Pairs the bind DN with the password: both or neither.
pub fn resolve_credentials(binddn: Option<String>, password: Option<String>) -> (r: Result<
    Option<Credentials>,
    OptionError,
>)
    ensures
        match (binddn, password) {
            (Some(d), Some(p)) => r matches Ok(Some(c)) && c.dn == d && c.password == p,
            (None, None) => r matches Ok(None),
            _ => r matches Err(OptionError::PartialCredentials),
        },
{
    match (binddn, password) {
        (Some(d), Some(p)) => Ok(Some(Credentials { dn: d, password: p })),
        (None, None) => Ok(None),
        _ => Err(OptionError::PartialCredentials),
    }
}

/// The text of the server URI: the one given, else the default.
pub open spec fn uri_text(raw: RawOpts) -> Seq<char> {
    match raw.uri {
        Some(u) => u@,
        None => default_uri(),
    }
}

/// Whether the options are accepted, given whether the URI parses.
pub open spec fn accepted(raw: RawOpts, uri_ok: bool) -> bool {
    &&& uri_ok
    &&& scope_of(opt_view(raw.scope)) is Some
    &&& deref_of(opt_view(raw.deref_aliases)) is Some
    &&& (raw.binddn is Some <==> raw.password is Some)
}

/// The error for refused options: the first of URI, scope, dereference
/// word and credentials that is wrong.
pub open spec fn error_matches(e: OptionError, raw: RawOpts, uri_ok: bool) -> bool {
    if !uri_ok {
        e matches OptionError::InvalidUri(t) && t@ == uri_text(raw)
    } else if scope_of(opt_view(raw.scope)) is None {
        e matches OptionError::UnknownScope(w) && Some(w@) == opt_view(raw.scope)
    } else if deref_of(opt_view(raw.deref_aliases)) is None {
        e matches OptionError::InvalidDerefAliases(w) && Some(w@) == opt_view(raw.deref_aliases)
    } else {
        e is PartialCredentials
    }
}

/// The resolved options carry what was given, with the defaults filled in.
pub open spec fn opts_match(o: Opts, raw: RawOpts) -> bool {
    &&& Some(o.search.scope) == scope_of(opt_view(raw.scope))
    &&& Some(o.search.deref_aliases) == deref_of(opt_view(raw.deref_aliases))
    &&& o.search.filter == raw.filter
    &&& o.search.attributes == raw.attributes
    &&& o.search.size_limit == raw.size_limit
    &&& o.search.time_limit == raw.time_limit
    &&& o.search.typesonly == raw.typesonly
    &&& o.search.basedn@ == match raw.basedn {
        Some(b) => b@,
        None => Seq::empty(),
    }
    &&& o.connect.starttls == raw.starttls
    &&& o.connect.connect_timeout == raw.connect_timeout
    &&& match (raw.binddn, raw.password) {
        (Some(d), Some(p)) => o.connect.bind matches Some(c) && c.dn == d && c.password == p,
        _ => o.connect.bind is None,
    }
}

/// The text of the server URI to parse.
fn uri_text_of(uri: &Option<String>) -> (r: String)
    ensures
        r@ == match uri {
            Some(u) => u@,
            None => default_uri(),
        },
{
    match uri {
        Some(u) => u.clone(),
        None => {
            proof {
                reveal_strlit("ldap://localhost:389");
                assert("ldap://localhost:389"@ =~= default_uri());
            }
            "ldap://localhost:389".to_owned()
        },
    }
}

/// Resolves the options, given the server URI as parsed (`None` where it
/// did not parse).
pub fn resolve_opts(raw: RawOpts, uri: Option<Url>) -> (r: Result<Opts, OptionError>)
    ensures
        match r {
            Ok(o) => accepted(raw, uri is Some) && opts_match(o, raw) && uri == Some(o.connect.uri),
            Err(e) => !accepted(raw, uri is Some) && error_matches(e, raw, uri is Some),
        },
{
    let ghost g = raw;
    let RawOpts {
        uri: uri_given,
        binddn,
        password,
        starttls,
        connect_timeout,
        basedn,
        scope,
        size_limit,
        time_limit,
        deref_aliases,
        typesonly,
        filter,
        attributes,
    } = raw;
    let uri = match uri {
        Some(u) => u,
        None => {
            return Err(OptionError::InvalidUri(uri_text_of(&uri_given)));
        },
    };
    let scope = match parse_scope(scope) {
        Ok(s) => s,
        Err(e) => {
            return Err(e);
        },
    };
    let deref_aliases = match parse_deref(deref_aliases) {
        Ok(d) => d,
        Err(e) => {
            return Err(e);
        },
    };
    let bind = match resolve_credentials(binddn, password) {
        Ok(b) => b,
        Err(e) => {
            return Err(e);
        },
    };
    let basedn = match basedn {
        Some(b) => b,
        None => String::new(),
    };
    Ok(
        Opts {
            connect: ConnectOpts { uri, bind, starttls, connect_timeout },
            search: SearchOpts {
                scope,
                filter,
                attributes,
                size_limit,
                time_limit,
                deref_aliases,
                basedn,
                typesonly,
            },
        },
    )
}

/// Resolves the options: parses the server URI (the default when none is
/// given), then checks the scope word, the dereference word and the bind
/// credentials, failing on the first that is wrong.
pub fn extract_opts(raw: RawOpts) -> (r: Result<Opts, OptionError>)
    ensures
        match r {
            Ok(o) => accepted(raw, uri_accepted(uri_text(raw))) && opts_match(o, raw),
            Err(e) => !accepted(raw, uri_accepted(uri_text(raw))) && error_matches(
                e,
                raw,
                uri_accepted(uri_text(raw)),
            ),
        },
{
    let text = uri_text_of(&raw.uri);
    let uri = parse_uri(text.as_str());
    resolve_opts(raw, uri)
}

} // verus!
