use std::time::Duration;

use nu_plugin_ldap::commands::Search;
use nu_plugin_ldap::config::Config;
use nu_plugin_ldap::ldap::{
    bind_outcome, connect_settings, ldap_deref, ldap_scope, search_request, ConnectionError,
};
use nu_plugin_ldap::options::{
    extract_opts, parse_deref, parse_scope, resolve_credentials, DerefPolicy, OptionError,
    RawOpts, SearchScope,
};

fn raw() -> RawOpts {
    RawOpts {
        uri: None,
        binddn: None,
        password: None,
        starttls: false,
        connect_timeout: None,
        basedn: None,
        scope: None,
        size_limit: None,
        time_limit: None,
        deref_aliases: None,
        typesonly: false,
        filter: "(uid=user)".to_string(),
        attributes: vec![],
    }
}

#[test]
fn defaults_are_filled_in() {
    let o = extract_opts(raw()).ok().unwrap();
    assert_eq!(o.connect.uri.as_str(), "ldap://localhost:389");
    assert!(o.connect.bind.is_none());
    assert!(!o.connect.starttls);
    assert_eq!(o.search.scope, SearchScope::Subtree);
    assert_eq!(o.search.deref_aliases, DerefPolicy::Never);
    assert_eq!(o.search.basedn, "");
    assert_eq!(o.search.filter, "(uid=user)");
}

#[test]
fn given_options_are_kept() {
    let mut r = raw();
    r.uri = Some("ldaps://ldap.example.com:636".to_string());
    r.binddn = Some("cn=admin,dc=example,dc=com".to_string());
    r.password = Some("SECRET-REDACTED".to_string());
    r.starttls = true;
    r.connect_timeout = Some(Duration::from_secs(5));
    r.basedn = Some("dc=example,dc=com".to_string());
    r.scope = Some("one".to_string());
    r.size_limit = Some(10);
    r.time_limit = Some(30);
    r.deref_aliases = Some("find".to_string());
    r.typesonly = true;
    r.attributes = vec!["cn".to_string(), "mail".to_string()];
    let o = extract_opts(r).ok().unwrap();
    assert_eq!(o.connect.uri.host_str(), Some("ldap.example.com"));
    assert_eq!(o.connect.uri.port(), Some(636));
    let c = o.connect.bind.unwrap();
    assert_eq!(c.dn, "cn=admin,dc=example,dc=com");
    assert_eq!(c.password, "SECRET-REDACTED");
    assert!(o.connect.starttls);
    assert_eq!(o.connect.connect_timeout, Some(Duration::from_secs(5)));
    assert_eq!(o.search.scope, SearchScope::OneLevel);
    assert_eq!(o.search.deref_aliases, DerefPolicy::Finding);
    assert_eq!(o.search.size_limit, Some(10));
    assert_eq!(o.search.time_limit, Some(30));
    assert!(o.search.typesonly);
    assert_eq!(o.search.basedn, "dc=example,dc=com");
    assert_eq!(o.search.attributes, vec!["cn".to_string(), "mail".to_string()]);
}

#[test]
fn invalid_uri_is_refused_first() {
    let mut r = raw();
    r.uri = Some("not a uri".to_string());
    r.scope = Some("everything".to_string());
    assert_eq!(extract_opts(r).err(), Some(OptionError::InvalidUri("not a uri".to_string())));
}

#[test]
fn unknown_scope_is_refused() {
    let mut r = raw();
    r.scope = Some("children".to_string());
    r.deref_aliases = Some("sometimes".to_string());
    assert_eq!(extract_opts(r).err(), Some(OptionError::UnknownScope("children".to_string())));
}

#[test]
fn invalid_deref_is_refused() {
    let mut r = raw();
    r.deref_aliases = Some("sometimes".to_string());
    assert_eq!(
        extract_opts(r).err(),
        Some(OptionError::InvalidDerefAliases("sometimes".to_string()))
    );
}

#[test]
fn partial_credentials_are_refused() {
    let mut r = raw();
    r.binddn = Some("cn=admin".to_string());
    assert_eq!(extract_opts(r).err(), Some(OptionError::PartialCredentials));
    let mut r = raw();
    r.password = Some("pw".to_string());
    assert_eq!(extract_opts(r).err(), Some(OptionError::PartialCredentials));
    assert!(resolve_credentials(None, None).unwrap().is_none());
}

#[test]
fn scope_and_deref_words() {
    assert_eq!(parse_scope(Some("base".to_string())).ok(), Some(SearchScope::Base));
    assert_eq!(parse_scope(Some("one".to_string())).ok(), Some(SearchScope::OneLevel));
    assert_eq!(parse_scope(Some("sub".to_string())).ok(), Some(SearchScope::Subtree));
    assert_eq!(parse_scope(None).ok(), Some(SearchScope::Subtree));
    assert_eq!(
        parse_scope(Some("Base".to_string())).err(),
        Some(OptionError::UnknownScope("Base".to_string()))
    );
    assert_eq!(parse_deref(Some("never".to_string())).ok(), Some(DerefPolicy::Never));
    assert_eq!(parse_deref(Some("always".to_string())).ok(), Some(DerefPolicy::Always));
    assert_eq!(parse_deref(Some("search".to_string())).ok(), Some(DerefPolicy::Searching));
    assert_eq!(parse_deref(Some("find".to_string())).ok(), Some(DerefPolicy::Finding));
    assert_eq!(parse_deref(None).ok(), Some(DerefPolicy::Never));
}

#[test]
fn search_request_carries_the_options() {
    let mut r = raw();
    r.size_limit = Some(7);
    r.deref_aliases = Some("always".to_string());
    r.typesonly = true;
    let o = extract_opts(r).ok().unwrap();
    let req = search_request(&o.search);
    assert_eq!(req.deref, ldap3::DerefAliases::Always);
    assert!(req.typesonly);
    assert_eq!(req.sizelimit, 7);
    assert_eq!(req.timelimit, 0);
    assert_eq!(ldap_scope(SearchScope::OneLevel), ldap3::Scope::OneLevel);
    assert_eq!(ldap_deref(DerefPolicy::Searching), ldap3::DerefAliases::Searching);
}

#[test]
fn bind_result_codes() {
    assert_eq!(bind_outcome(0, String::new()), Ok(()));
    assert_eq!(
        bind_outcome(49, "Invalid credentials".to_string()),
        Err(ConnectionError::AuthFailed("Invalid credentials".to_string()))
    );
}

#[test]
fn command_metadata_and_config() {
    assert_eq!(Search.name(), "ldap search");
    assert_eq!(Search.search_terms(), vec!["ldap", "search", "directory"]);
    let c = Config::new(Duration::from_secs(3));
    assert_eq!(c.timeout, Duration::from_secs(3));
}

#[test]
fn connect_settings_carry_starttls() {
    let mut r = raw();
    r.starttls = true;
    r.connect_timeout = Some(Duration::from_secs(2));
    let o = extract_opts(r).ok().unwrap();
    assert!(connect_settings(&o.connect).starttls());
    let o = extract_opts(raw()).ok().unwrap();
    assert!(!connect_settings(&o.connect).starttls());
}
