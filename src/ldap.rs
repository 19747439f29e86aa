//! The protocol client's request settings, and the decisions taken on the
//! result codes that the server returns.

use std::time::Duration;
use ldap3::{DerefAliases, LdapConnSettings, Scope};
use vstd::prelude::*;
use crate::bridge::{QueryError, SearchEvent};
use crate::options::{ConnectOpts, DerefPolicy, SearchOpts, SearchScope};

verus! {

#[verifier::external_type_specification]
pub struct ExScope(ldap3::Scope);

#[verifier::external_type_specification]
pub struct ExDerefAliases(ldap3::DerefAliases);

#[verifier::external_type_specification]
pub struct ExSearchOptions(ldap3::SearchOptions);

#[verifier::external_type_specification]
#[verifier::external_body]
pub struct ExLdapConnSettings(ldap3::LdapConnSettings);

/// Relies on ldap3's `SearchOptions::new`: every field at its default
/// (never dereference, values returned, no limits).
pub assume_specification[ ldap3::SearchOptions::new ]() -> (r: ldap3::SearchOptions)
    ensures
        r.deref == DerefAliases::Never,
        r.typesonly == false,
        r.timelimit == 0,
        r.sizelimit == 0,
;

/// Relies on ldap3's `SearchOptions::deref`: sets that field alone.
pub assume_specification[ ldap3::SearchOptions::deref ](
    s: ldap3::SearchOptions,
    d: DerefAliases,
) -> (r: ldap3::SearchOptions)
    ensures
        r.deref == d,
        r.typesonly == s.typesonly,
        r.timelimit == s.timelimit,
        r.sizelimit == s.sizelimit,
;

/// Relies on ldap3's `SearchOptions::typesonly`: sets that field alone.
pub assume_specification[ ldap3::SearchOptions::typesonly ](
    s: ldap3::SearchOptions,
    typesonly: bool,
) -> (r: ldap3::SearchOptions)
    ensures
        r.deref == s.deref,
        r.typesonly == typesonly,
        r.timelimit == s.timelimit,
        r.sizelimit == s.sizelimit,
;

/// Relies on ldap3's `SearchOptions::timelimit`: sets that field alone.
pub assume_specification[ ldap3::SearchOptions::timelimit ](
    s: ldap3::SearchOptions,
    timelimit: i32,
) -> (r: ldap3::SearchOptions)
    ensures
        r.deref == s.deref,
        r.typesonly == s.typesonly,
        r.timelimit == timelimit,
        r.sizelimit == s.sizelimit,
;

/// Relies on ldap3's `SearchOptions::sizelimit`: sets that field alone.
pub assume_specification[ ldap3::SearchOptions::sizelimit ](
    s: ldap3::SearchOptions,
    sizelimit: i32,
) -> (r: ldap3::SearchOptions)
    ensures
        r.deref == s.deref,
        r.typesonly == s.typesonly,
        r.timelimit == s.timelimit,
        r.sizelimit == sizelimit,
;

/// Whether connection settings ask for a StartTLS upgrade (the private
/// `starttls` field of ldap3's `LdapConnSettings`, also read by its
/// `starttls()` getter).
pub uninterp spec fn settings_starttls(s: ldap3::LdapConnSettings) -> bool;

/// The connect timeout that connection settings hold (the private
/// `conn_timeout` field of ldap3's `LdapConnSettings`).
pub uninterp spec fn settings_timeout(s: ldap3::LdapConnSettings) -> Option<Duration>;

/// Relies on ldap3's `LdapConnSettings::new`: the derived defaults, so no
/// StartTLS upgrade and no connect timeout.
pub assume_specification[ ldap3::LdapConnSettings::new ]() -> (r: ldap3::LdapConnSettings)
    ensures
        settings_starttls(r) == false,
        settings_timeout(r) == None::<Duration>,
;

/// Relies on ldap3's `LdapConnSettings::set_starttls`: sets the StartTLS
/// flag alone.
pub assume_specification[ ldap3::LdapConnSettings::set_starttls ](
    s: ldap3::LdapConnSettings,
    starttls: bool,
) -> (r: ldap3::LdapConnSettings)
    ensures
        settings_starttls(r) == starttls,
        settings_timeout(r) == settings_timeout(s),
;

/// Relies on ldap3's `LdapConnSettings::set_conn_timeout`: sets the connect
/// timeout alone.
pub assume_specification[ ldap3::LdapConnSettings::set_conn_timeout ](
    s: ldap3::LdapConnSettings,
    timeout: Duration,
) -> (r: ldap3::LdapConnSettings)
    ensures
        settings_starttls(r) == settings_starttls(s),
        settings_timeout(r) == Some(timeout),
;

/// A failure while establishing the connection.
#[derive(Debug, PartialEq, Eq)]
pub enum ConnectionError {
    /// Transport, name resolution, TLS or timeout failure; the cause is kept.
    Network(String),
    /// The server rejected the bind; its diagnostic text is kept.
    AuthFailed(String),
}

/// The protocol client's scope for a search scope.
pub fn ldap_scope(s: SearchScope) -> (r: Scope)
    ensures
        r == match s {
            SearchScope::Base => Scope::Base,
            SearchScope::OneLevel => Scope::OneLevel,
            SearchScope::Subtree => Scope::Subtree,
        },
{
    match s {
        SearchScope::Base => Scope::Base,
        SearchScope::OneLevel => Scope::OneLevel,
        SearchScope::Subtree => Scope::Subtree,
    }
}

pub open spec fn deref_spec(d: DerefPolicy) -> DerefAliases {
    match d {
        DerefPolicy::Never => DerefAliases::Never,
        DerefPolicy::Always => DerefAliases::Always,
        DerefPolicy::Searching => DerefAliases::Searching,
        DerefPolicy::Finding => DerefAliases::Finding,
    }
}

/// The protocol client's dereference setting for a policy.
pub fn ldap_deref(d: DerefPolicy) -> (r: DerefAliases)
    ensures
        r == deref_spec(d),
{
    match d {
        DerefPolicy::Never => DerefAliases::Never,
        DerefPolicy::Always => DerefAliases::Always,
        DerefPolicy::Searching => DerefAliases::Searching,
        DerefPolicy::Finding => DerefAliases::Finding,
    }
}

/// The per-request options of a search: dereference policy, names only,
/// and the limits that were given (none, the protocol's 0, otherwise).
pub fn search_request(opts: &SearchOpts) -> (r: ldap3::SearchOptions)
    ensures
        r.deref == deref_spec(opts.deref_aliases),
        r.typesonly == opts.typesonly,
        r.timelimit == match opts.time_limit {
            Some(t) => t,
            None => 0,
        },
        r.sizelimit == match opts.size_limit {
            Some(n) => n,
            None => 0,
        },
{
    let mut req = ldap3::SearchOptions::new().deref(ldap_deref(opts.deref_aliases)).typesonly(
        opts.typesonly,
    );
    if let Some(t) = opts.time_limit {
        req = req.timelimit(t);
    }
    if let Some(n) = opts.size_limit {
        req = req.sizelimit(n);
    }
    req
}

/// The connection settings: the StartTLS upgrade when asked for, and the
/// connect timeout when one was given.
pub fn connect_settings(opts: &ConnectOpts) -> (r: LdapConnSettings)
    ensures
        settings_starttls(r) == opts.starttls,
        settings_timeout(r) == opts.connect_timeout,
{
    let mut settings = LdapConnSettings::new().set_starttls(opts.starttls);
    if let Some(t) = opts.connect_timeout {
        settings = settings.set_conn_timeout(t);
    }
    settings
}

/// The outcome of a bind from its result code: only 0 is success.
pub fn bind_outcome(rc: u32, text: String) -> (r: Result<(), ConnectionError>)
    ensures
        rc == 0 ==> r is Ok,
        rc != 0 ==> (r matches Err(ConnectionError::AuthFailed(t)) && t == text),
{
    if rc == 0 {
        Ok(())
    } else {
        Err(ConnectionError::AuthFailed(text))
    }
}

/// What the end of a result stream means, from the final result code: only
/// 0 is a clean end; any other code (a limit exceeded, a referral that is
/// not followed, ...) ends the sequence with a failure.
pub fn search_end_event(rc: u32, text: String) -> (r: SearchEvent)
    ensures
        rc == 0 ==> r is Done,
        rc != 0 ==> (r matches SearchEvent::Failed(QueryError::Protocol(t)) && t == text),
{
    if rc == 0 {
        SearchEvent::Done
    } else {
        SearchEvent::Failed(QueryError::Protocol(text))
    }
}

} // verus!
