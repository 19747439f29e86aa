//! Flattening shaped records into tables by a list of field selectors.

use vstd::prelude::*;
use crate::shape::ShapedRecord;
use crate::text::{ends_with_char, same_text};

verus! {

/// One field selector: `dn`, a single-valued attribute, or a multi-valued
/// attribute (written with a trailing `+`).
#[derive(Debug, PartialEq, Eq)]
pub enum AttrGetter {
    Dn,
    Single(String),
    Multivalue(String),
}

/// A selector as a mathematical value.
pub enum GetterView {
    Dn,
    Single(Seq<char>),
    Multivalue(Seq<char>),
}

/// The value of one field of a flat record.
#[derive(Debug, PartialEq, Eq)]
pub enum FlatValue {
    Text(String),
    List(Vec<String>),
}

/// A field value as a mathematical value.
pub enum FieldView {
    Text(Seq<char>),
    List(Seq<Seq<char>>),
}

/// A flat record: named fields in the order in which they were first set.
#[derive(Debug, PartialEq, Eq)]
pub struct FlatRecord {
    pub fields: Vec<(String, FlatValue)>,
}

/// Why an item of a projected sequence is not a record.
#[derive(Debug, PartialEq, Eq)]
pub enum ProjectionError {
    /// The item is not a search result record.
    UnsupportedInput,
    /// The item was already a failure upstream; its message is kept.
    Upstream(String),
}

pub open spec fn strings_view(v: Seq<String>) -> Seq<Seq<char>> {
    v.map_values(|s: String| s@)
}

impl View for AttrGetter {
    type V = GetterView;

    open spec fn view(&self) -> GetterView {
        match self {
            AttrGetter::Dn => GetterView::Dn,
            AttrGetter::Single(n) => GetterView::Single(n@),
            AttrGetter::Multivalue(n) => GetterView::Multivalue(n@),
        }
    }
}

impl View for FlatValue {
    type V = FieldView;

    open spec fn view(&self) -> FieldView {
        match self {
            FlatValue::Text(s) => FieldView::Text(s@),
            FlatValue::List(v) => FieldView::List(strings_view(v@)),
        }
    }
}

pub open spec fn fields_view(f: Seq<(String, FlatValue)>) -> Seq<(Seq<char>, FieldView)> {
    f.map_values(|p: (String, FlatValue)| (p.0@, p.1@))
}

impl View for FlatRecord {
    type V = Seq<(Seq<char>, FieldView)>;

    open spec fn view(&self) -> Seq<(Seq<char>, FieldView)> {
        fields_view(self.fields@)
    }
}

pub open spec fn getters_view(g: Seq<AttrGetter>) -> Seq<GetterView> {
    g.map_values(|a: AttrGetter| a@)
}

/// The selector word for the distinguished name.
pub open spec fn dn_word() -> Seq<char> {
    seq!['d', 'n']
}

/// `s` without any of its trailing `c`.
pub open spec fn strip_trailing(s: Seq<char>, c: char) -> Seq<char>
    decreases s.len(),
{
    if s.len() > 0 && s.last() == c {
        strip_trailing(s.drop_last(), c)
    } else {
        s
    }
}

/// The selector that a field specification denotes.
pub open spec fn getter_for(arg: Seq<char>) -> GetterView {
    if arg == dn_word() {
        GetterView::Dn
    } else if arg.len() > 0 && arg.last() == '+' {
        GetterView::Multivalue(strip_trailing(arg, '+'))
    } else {
        GetterView::Single(arg)
    }
}

/// The values of the first text attribute called `name`, if any.
pub open spec fn find_attr(attrs: Seq<(String, Vec<String>)>, name: Seq<char>) -> Option<
    Seq<Seq<char>>,
>
    decreases attrs.len(),
{
    if attrs.len() == 0 {
        None
    } else if attrs[0].0@ == name {
        Some(strings_view(attrs[0].1@))
    } else {
        find_attr(attrs.drop_first(), name)
    }
}

/// The field name and value that selector `g` takes from `rec`.  Binary
/// attributes are never looked at: a selector naming one finds nothing.
pub open spec fn field_for(rec: ShapedRecord, g: GetterView) -> (Seq<char>, FieldView) {
    match g {
        GetterView::Dn => (dn_word(), FieldView::Text(rec.dn@)),
        GetterView::Single(n) => (
            n,
            FieldView::Text(
                match find_attr(rec.attrs@, n) {
                    Some(v) => if v.len() > 0 {
                        v[0]
                    } else {
                        Seq::empty()
                    },
                    None => Seq::empty(),
                },
            ),
        ),
        GetterView::Multivalue(n) => (
            n,
            FieldView::List(
                match find_attr(rec.attrs@, n) {
                    Some(v) => v,
                    None => Seq::empty(),
                },
            ),
        ),
    }
}

/// The position of the last field called `k`, or -1.
pub open spec fn key_index(fields: Seq<(Seq<char>, FieldView)>, k: Seq<char>) -> int
    decreases fields.len(),
{
    if fields.len() == 0 {
        -1
    } else if fields.last().0 == k {
        fields.len() - 1
    } else {
        key_index(fields.drop_last(), k)
    }
}

/// Sets field `k` to `v`: in place where a field of that name exists, else
/// appended.
pub open spec fn put_field(fields: Seq<(Seq<char>, FieldView)>, k: Seq<char>, v: FieldView) -> Seq<
    (Seq<char>, FieldView),
> {
    let i = key_index(fields, k);
    if i >= 0 {
        fields.update(i, (k, v))
    } else {
        fields.push((k, v))
    }
}

/// The flat record that the selectors `gs`, applied in order, make of `rec`.
pub open spec fn flatten(rec: ShapedRecord, gs: Seq<GetterView>) -> Seq<(Seq<char>, FieldView)>
    decreases gs.len(),
{
    if gs.len() == 0 {
        Seq::empty()
    } else {
        let f = field_for(rec, gs.last());
        put_field(flatten(rec, gs.drop_last()), f.0, f.1)
    }
}

/// Relies on str::trim_end_matches: all trailing matches of `c` are removed.
#[verifier::external_body]
fn trim_trailing(s: &str, c: char) -> (r: String)
    ensures
        r@ == strip_trailing(s@, c),
{
    s.trim_end_matches(c).to_string()
}

/// Reads one field specification: `dn`, `name` or `name+`.
pub fn parse_attr_getter(arg: String) -> (r: Result<AttrGetter, ProjectionError>)
    ensures
        r matches Ok(g) && g@ == getter_for(arg@),
{
    proof {
        reveal_strlit("dn");
        assert("dn"@ =~= dn_word());
    }
    if same_text(arg.as_str(), "dn") {
        Ok(AttrGetter::Dn)
    } else if ends_with_char(arg.as_str(), '+') {
        Ok(AttrGetter::Multivalue(trim_trailing(arg.as_str(), '+')))
    } else {
        Ok(AttrGetter::Single(arg))
    }
}

/// Reads a list of field specifications, in order.
pub fn parse_attr_getters(args: Vec<String>) -> (r: Vec<AttrGetter>)
    ensures
        r@.len() == args@.len(),
        forall|i: int| 0 <= i < args@.len() ==> (#[trigger] r@[i])@ == getter_for(args@[i]@),
{
    let ghost orig = args@;
    let mut rest = args;
    let mut rev: Vec<AttrGetter> = Vec::new();
    while rest.len() > 0
        invariant
            rest@.len() + rev@.len() == orig.len(),
            forall|i: int| 0 <= i < rest@.len() ==> rest@[i] == orig[i],
            forall|i: int|
                0 <= i < rev@.len() ==> (#[trigger] rev@[i])@ == getter_for(
                    orig[orig.len() - 1 - i]@,
                ),
        decreases rest.len(),
    {
        let arg = rest.pop().unwrap();
        match parse_attr_getter(arg) {
            Ok(g) => rev.push(g),
            Err(_) => {},
        }
    }
    let mut r: Vec<AttrGetter> = Vec::new();
    while rev.len() > 0
        invariant
            rev@.len() + r@.len() == orig.len(),
            forall|i: int|
                0 <= i < rev@.len() ==> (#[trigger] rev@[i])@ == getter_for(
                    orig[orig.len() - 1 - i]@,
                ),
            forall|i: int| 0 <= i < r@.len() ==> (#[trigger] r@[i])@ == getter_for(orig[i]@),
        decreases rev.len(),
    {
        let g = rev.pop().unwrap();
        r.push(g);
    }
    r
}

/// The position of the first text attribute called `name`.
fn lookup_attr(attrs: &Vec<(String, Vec<String>)>, name: &str) -> (r: Option<usize>)
    ensures
        match r {
            Some(i) => i < attrs@.len() && find_attr(attrs@, name@) == Some(
                strings_view(attrs@[i as int].1@),
            ),
            None => find_attr(attrs@, name@) is None,
        },
{
    let mut i: usize = 0;
    assert(attrs@.skip(0) =~= attrs@);
    while i < attrs.len()
        invariant
            i <= attrs@.len(),
            find_attr(attrs@, name@) == find_attr(attrs@.skip(i as int), name@),
        decreases attrs@.len() - i,
    {
        if same_text(attrs[i].0.as_str(), name) {
            return Some(i);
        }
        assert(attrs@.skip(i as int).drop_first() =~= attrs@.skip(i + 1));
        i = i + 1;
    }
    None
}

/// A copy of a list of strings.
fn copy_strings(v: &Vec<String>) -> (r: Vec<String>)
    ensures
        r@ == v@,
{
    let mut r: Vec<String> = Vec::new();
    let mut i: usize = 0;
    while i < v.len()
        invariant
            i <= v@.len(),
            r@ == v@.take(i as int),
        decreases v@.len() - i,
    {
        r.push(v[i].clone());
        assert(r@ =~= v@.take(i + 1));
        i = i + 1;
    }
    assert(v@.take(i as int) =~= v@);
    r
}

/// The field that selector `g` takes from `rec`.
fn take_field(rec: &ShapedRecord, g: &AttrGetter) -> (r: (String, FlatValue))
    ensures
        (r.0@, r.1@) == field_for(*rec, g@),
{
    match g {
        AttrGetter::Dn => {
            proof {
                reveal_strlit("dn");
                assert("dn"@ =~= dn_word());
            }
            ("dn".to_owned(), FlatValue::Text(rec.dn.clone()))
        },
        AttrGetter::Single(n) => {
            let value = match lookup_attr(&rec.attrs, n.as_str()) {
                Some(i) => {
                    if rec.attrs[i].1.len() > 0 {
                        rec.attrs[i].1[0].clone()
                    } else {
                        String::new()
                    }
                },
                None => String::new(),
            };
            (n.clone(), FlatValue::Text(value))
        },
        AttrGetter::Multivalue(n) => {
            let values = match lookup_attr(&rec.attrs, n.as_str()) {
                Some(i) => copy_strings(&rec.attrs[i].1),
                None => Vec::new(),
            };
            proof {
                assert(strings_view(Seq::<String>::empty()) =~= Seq::<Seq<char>>::empty());
            }
            (n.clone(), FlatValue::List(values))
        },
    }
}

/// Sets field `k` of `fields` to `v`, in place where a field of that name
/// exists, else at the end.
fn set_field(fields: &mut Vec<(String, FlatValue)>, k: String, v: FlatValue)
    ensures
        fields_view(final(fields)@) == put_field(fields_view(old(fields)@), k@, v@),
{
    let ghost fv = fields_view(fields@);
    let mut j: usize = fields.len();
    assert(fv.take(j as int) =~= fv);
    while j > 0 && !same_text(fields[j - 1].0.as_str(), k.as_str())
        invariant
            j <= fields@.len(),
            fv == fields_view(fields@),
            key_index(fv, k@) == key_index(fv.take(j as int), k@),
        decreases j,
    {
        assert(fv.take(j as int).drop_last() =~= fv.take(j - 1));
        j = j - 1;
    }
    if j > 0 {
        fields[j - 1] = (k, v);
        assert(fields_view(fields@) =~= fv.update(j - 1, (k@, v@)));
    } else {
        assert(fv.take(0) =~= Seq::<(Seq<char>, FieldView)>::empty());
        fields.push((k, v));
        assert(fields_view(fields@) =~= fv.push((k@, v@)));
    }
}

/// Flattens one record by the selectors, applied in order.
pub fn reshape_record(record: &ShapedRecord, attr_getters: &[AttrGetter]) -> (r: FlatRecord)
    ensures
        r@ == flatten(*record, getters_view(attr_getters@)),
{
    let ghost gv = getters_view(attr_getters@);
    let mut fields: Vec<(String, FlatValue)> = Vec::new();
    let mut i: usize = 0;
    assert(fields_view(fields@) =~= flatten(*record, gv.take(0)));
    while i < attr_getters.len()
        invariant
            i <= attr_getters@.len(),
            gv == getters_view(attr_getters@),
            fields_view(fields@) == flatten(*record, gv.take(i as int)),
        decreases attr_getters@.len() - i,
    {
        let (k, v) = take_field(record, &attr_getters[i]);
        set_field(&mut fields, k, v);
        assert(gv.take(i + 1).drop_last() =~= gv.take(i as int));
        i = i + 1;
    }
    assert(gv.take(i as int) =~= gv);
    FlatRecord { fields }
}

/// `out` is item `item` projected by the selectors `gs`: a record flattened,
/// a failure unchanged.
pub open spec fn item_projects(
    out: Result<FlatRecord, ProjectionError>,
    item: Result<ShapedRecord, ProjectionError>,
    gs: Seq<GetterView>,
) -> bool {
    match item {
        Ok(rec) => out matches Ok(f) && f@ == flatten(rec, gs),
        Err(e) => out == Err::<FlatRecord, ProjectionError>(e),
    }
}

/// Flattens one item of a streamed sequence: a record is flattened, a
/// failure is handed on as it is.
pub fn handle_list_item(
    item: Result<ShapedRecord, ProjectionError>,
    attr_getters: &[AttrGetter],
) -> (r: Result<FlatRecord, ProjectionError>)
    ensures
        item_projects(r, item, getters_view(attr_getters@)),
{
    match item {
        Ok(rec) => Ok(reshape_record(&rec, attr_getters)),
        Err(e) => Err(e),
    }
}

/// A single-valued selector whose attribute is absent, or has no values,
/// still yields its field, holding the empty string.
pub proof fn lemma_absent_single_is_empty(rec: ShapedRecord, name: Seq<char>)
    requires
        match find_attr(rec.attrs@, name) {
            Some(v) => v.len() == 0,
            None => true,
        },
    ensures
        flatten(rec, seq![GetterView::Single(name)]) == seq![(name, FieldView::Text(Seq::empty()))],
{
    let gs = seq![GetterView::Single(name)];
    assert(gs.drop_last() =~= Seq::<GetterView>::empty());
    assert(flatten(rec, gs.drop_last()) =~= Seq::<(Seq<char>, FieldView)>::empty());
    assert(flatten(rec, gs) =~= seq![(name, FieldView::Text(Seq::empty()))]);
}

/// Flattens a materialised list, one output item per input item, in order:
/// each record is flattened, each failure is handed on in its place.
pub fn handle_value(
    items: Vec<Result<ShapedRecord, ProjectionError>>,
    attr_getters: &[AttrGetter],
) -> (r: Vec<Result<FlatRecord, ProjectionError>>)
    ensures
        r@.len() == items@.len(),
        forall|i: int|
            0 <= i < items@.len() ==> item_projects(#[trigger] r@[i], items@[i], getters_view(attr_getters@)),
{
    let ghost orig = items@;
    let ghost gv = getters_view(attr_getters@);
    let mut rest = items;
    let mut rev: Vec<Result<FlatRecord, ProjectionError>> = Vec::new();
    while rest.len() > 0
        invariant
            rest@.len() + rev@.len() == orig.len(),
            forall|i: int| 0 <= i < rest@.len() ==> rest@[i] == orig[i],
            gv == getters_view(attr_getters@),
            forall|i: int|
                0 <= i < rev@.len() ==> item_projects(
                    #[trigger] rev@[i],
                    orig[orig.len() - 1 - i],
                    gv,
                ),
        decreases rest.len(),
    {
        let item = rest.pop().unwrap();
        rev.push(handle_list_item(item, attr_getters));
    }
    let mut r: Vec<Result<FlatRecord, ProjectionError>> = Vec::new();
    while rev.len() > 0
        invariant
            rev@.len() + r@.len() == orig.len(),
            forall|i: int|
                0 <= i < rev@.len() ==> item_projects(
                    #[trigger] rev@[i],
                    orig[orig.len() - 1 - i],
                    gv,
                ),
            forall|i: int| 0 <= i < r@.len() ==> item_projects(#[trigger] r@[i], orig[i], gv),
        decreases rev.len(),
    {
        let x = rev.pop().unwrap();
        r.push(x);
    }
    r
}

} // verus!
