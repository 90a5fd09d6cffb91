use vstd::prelude::*;

verus! {

#[verifier::external_type_specification]
#[verifier::external_body]
pub struct ExTomlValue(toml::Value);

#[verifier::external_type_specification]
#[verifier::external_body]
#[verifier::reject_recursive_types(K)]
#[verifier::reject_recursive_types(V)]
pub struct ExTomlMap<K, V>(toml::map::Map<K, V>);

/// What a TOML value is, as far as a manifest is concerned.
pub enum TomlShape {
    Str(Seq<char>),
    Bool(bool),
    Array(Seq<TomlShape>),
    Table(Map<Seq<char>, TomlShape>),
    /// An integer, a float or a date-time.
    Other,
}

/// The document that the TOML parser reads from a text, if it accepts it.
pub uninterp spec fn toml_doc(text: Seq<char>) -> Option<Map<Seq<char>, TomlShape>>;

/// The parser's message for a text that it rejects.
pub uninterp spec fn toml_diagnostic(text: Seq<char>) -> Seq<char>;

/// The keys of a parsed table and the shapes of their values.
pub uninterp spec fn table_shape(t: toml::Table) -> Map<Seq<char>, TomlShape>;

/// The shape of a parsed value.
pub uninterp spec fn value_shape(v: toml::Value) -> TomlShape;

/// Relies on toml's `FromStr for Table` (toml::from_str): a table exactly when
/// the text is a TOML document, the document depending on the text alone; the
/// error's message otherwise. An empty text is the empty document.
#[verifier::external_body]
pub(crate) fn parse_table(text: &str) -> (r: Result<toml::Table, String>)
    ensures
        r is Ok == toml_doc(text@) is Some,
        r is Ok ==> toml_doc(text@) == Some(table_shape(r->Ok_0)),
        r is Err ==> r->Err_0@ == toml_diagnostic(text@),
        text@.len() == 0 ==> r is Ok && table_shape(r->Ok_0).dom() == Set::<Seq<char>>::empty(),
{
    match text.parse::<toml::Table>() {
        Ok(t) => Ok(t),
        Err(e) => Err(e.to_string()),
    }
}

/// Relies on toml::map::Map::get: the value stored under a key, if any.
#[verifier::external_body]
pub(crate) fn table_get<'a>(t: &'a toml::Table, key: &str) -> (r: Option<&'a toml::Value>)
    ensures
        r is Some == table_shape(*t).contains_key(key@),
        r is Some ==> value_shape(*r->Some_0) == table_shape(*t)[key@],
{
    t.get(key)
}

/// Relies on toml::Value::as_array: the elements of an array value.
#[verifier::external_body]
pub(crate) fn value_as_array(v: &toml::Value) -> (r: Option<&Vec<toml::Value>>)
    ensures
        r is Some == value_shape(*v) is Array,
        r is Some ==> r->Some_0@.map_values(|x: toml::Value| value_shape(x)) == value_shape(
            *v,
        )->Array_0,
{
    v.as_array()
}

/// Relies on toml::Value::as_table: the entries of a table value.
#[verifier::external_body]
pub(crate) fn value_as_table(v: &toml::Value) -> (r: Option<&toml::Table>)
    ensures
        r is Some == value_shape(*v) is Table,
        r is Some ==> table_shape(*r->Some_0) == value_shape(*v)->Table_0,
{
    v.as_table()
}

/// Relies on toml::Value::as_str: the text of a string value.
#[verifier::external_body]
pub(crate) fn value_as_str(v: &toml::Value) -> (r: Option<&str>)
    ensures
        r is Some == value_shape(*v) is Str,
        r is Some ==> r->Some_0@ == value_shape(*v)->Str_0,
{
    v.as_str()
}

/// Relies on toml::Value::as_bool: the truth value of a boolean value.
#[verifier::external_body]
pub(crate) fn value_as_bool(v: &toml::Value) -> (r: Option<bool>)
    ensures
        r is Some == value_shape(*v) is Bool,
        r is Some ==> r->Some_0 == value_shape(*v)->Bool_0,
{
    v.as_bool()
}

} // verus!
