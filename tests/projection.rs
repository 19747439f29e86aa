use nu_plugin_ldap::commands::Table;
use nu_plugin_ldap::project::{
    handle_list_item, handle_value, parse_attr_getter, parse_attr_getters, reshape_record,
    AttrGetter, FlatValue, ProjectionError,
};
use nu_plugin_ldap::shape::ShapedRecord;

fn s(x: &str) -> String {
    x.to_string()
}

fn alice() -> ShapedRecord {
    ShapedRecord {
        dn: s("uid=alice,dc=x,dc=com"),
        attrs: vec![
            (s("cn"), vec![s("Alice")]),
            (s("mail"), vec![s("a@x.com"), s("a2@x.com")]),
        ],
        bin_attrs: vec![(s("jpegPhoto"), vec![vec![1, 2, 3]])],
    }
}

fn getters(specs: &[&str]) -> Vec<AttrGetter> {
    parse_attr_getters(specs.iter().map(|x| s(x)).collect())
}

#[test]
fn table_projection_round_trip() {
    let flat = reshape_record(&alice(), &getters(&["dn", "cn", "mail+"]));
    assert_eq!(
        flat.fields,
        vec![
            (s("dn"), FlatValue::Text(s("uid=alice,dc=x,dc=com"))),
            (s("cn"), FlatValue::Text(s("Alice"))),
            (s("mail"), FlatValue::List(vec![s("a@x.com"), s("a2@x.com")])),
        ]
    );
}

#[test]
fn absent_single_valued_attribute_is_empty_string() {
    let flat = reshape_record(&alice(), &getters(&["telephoneNumber"]));
    assert_eq!(flat.fields, vec![(s("telephoneNumber"), FlatValue::Text(s("")))]);
}

#[test]
fn absent_multi_valued_attribute_is_empty_list() {
    let flat = reshape_record(&alice(), &getters(&["memberOf+"]));
    assert_eq!(flat.fields, vec![(s("memberOf"), FlatValue::List(vec![]))]);
}

#[test]
fn single_valued_takes_first_value_in_server_order() {
    let flat = reshape_record(&alice(), &getters(&["mail"]));
    assert_eq!(flat.fields, vec![(s("mail"), FlatValue::Text(s("a@x.com")))]);
}

#[test]
fn binary_attribute_is_not_resolvable() {
    let flat = reshape_record(&alice(), &getters(&["jpegPhoto", "jpegPhoto+"]));
    assert_eq!(flat.fields, vec![(s("jpegPhoto"), FlatValue::List(vec![]))]);
}

#[test]
fn repeated_field_is_replaced_in_place() {
    let flat = reshape_record(&alice(), &getters(&["cn", "dn", "cn+"]));
    assert_eq!(
        flat.fields,
        vec![
            (s("cn"), FlatValue::List(vec![s("Alice")])),
            (s("dn"), FlatValue::Text(s("uid=alice,dc=x,dc=com"))),
        ]
    );
}

#[test]
fn field_specs_parse() {
    assert_eq!(parse_attr_getter(s("dn")), Ok(AttrGetter::Dn));
    assert_eq!(parse_attr_getter(s("mail+")), Ok(AttrGetter::Multivalue(s("mail"))));
    assert_eq!(parse_attr_getter(s("mail++")), Ok(AttrGetter::Multivalue(s("mail"))));
    assert_eq!(parse_attr_getter(s("cn")), Ok(AttrGetter::Single(s("cn"))));
    assert_eq!(parse_attr_getter(s("DN")), Ok(AttrGetter::Single(s("DN"))));
    assert_eq!(parse_attr_getter(s("dn+")), Ok(AttrGetter::Multivalue(s("dn"))));
    assert_eq!(parse_attr_getter(s("")), Ok(AttrGetter::Single(s(""))));
}

#[test]
fn table_command_parses_its_arguments_in_order() {
    let g = Table.getters(vec![s("cn"), s("dn"), s("member+")]);
    assert_eq!(
        g,
        vec![AttrGetter::Single(s("cn")), AttrGetter::Dn, AttrGetter::Multivalue(s("member"))]
    );
    assert_eq!(Table.name(), "ldap table");
}

#[test]
fn materialised_list_is_projected_record_by_record() {
    let mut bob = alice();
    bob.dn = s("uid=bob,dc=x,dc=com");
    bob.attrs = vec![(s("cn"), vec![s("Bob")])];
    let out = handle_value(vec![Ok(alice()), Ok(bob)], &getters(&["cn"]));
    assert_eq!(out.len(), 2);
    assert_eq!(out[0].as_ref().unwrap().fields, vec![(s("cn"), FlatValue::Text(s("Alice")))]);
    assert_eq!(out[1].as_ref().unwrap().fields, vec![(s("cn"), FlatValue::Text(s("Bob")))]);
    assert!(handle_value(vec![], &getters(&["cn"])).is_empty());
}

#[test]
fn malformed_item_in_a_list_fails_alone() {
    let out = handle_value(
        vec![Ok(alice()), Err(ProjectionError::UnsupportedInput), Ok(alice())],
        &getters(&["dn"]),
    );
    assert_eq!(out.len(), 3);
    assert!(out[0].is_ok());
    assert_eq!(out[1], Err(ProjectionError::UnsupportedInput));
    assert_eq!(
        out[2].as_ref().unwrap().fields,
        vec![(s("dn"), FlatValue::Text(s("uid=alice,dc=x,dc=com")))]
    );
}

#[test]
fn streamed_failure_passes_through() {
    let g = getters(&["dn"]);
    let ok = handle_list_item(Ok(alice()), &g).unwrap();
    assert_eq!(ok.fields, vec![(s("dn"), FlatValue::Text(s("uid=alice,dc=x,dc=com")))]);
    assert_eq!(
        handle_list_item(Err(ProjectionError::Upstream(s("boom"))), &g),
        Err(ProjectionError::Upstream(s("boom")))
    );
    assert_eq!(
        handle_list_item(Err(ProjectionError::UnsupportedInput), &g),
        Err(ProjectionError::UnsupportedInput)
    );
}

#[test]
fn no_selectors_give_an_empty_record() {
    let flat = reshape_record(&alice(), &[]);
    assert!(flat.fields.is_empty());
}
