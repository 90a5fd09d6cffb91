use vstd::prelude::*;

use crate::toml_doc::{
    parse_table, table_get, table_shape, toml_diagnostic, toml_doc, value_as_array,
    value_as_bool, value_as_str, value_as_table, value_shape, TomlShape,
};

verus! {

/// One link directive: a path inside the settings directory, a path inside the
/// home directory, and whether an existing destination is replaced.
#[derive(Debug)]
pub struct ManifestItem {
    pub source: String,
    pub destination: String,
    pub force: bool,
}

/// The ordered list of link directives read from `manifest.toml`.
#[derive(Debug)]
pub struct Manifest {
    pub manifest_items: Vec<ManifestItem>,
}

/// What a lookup of one key in a TOML table found.
#[derive(Debug)]
pub enum RawField<T> {
    /// The key is absent.
    Missing,
    /// The key holds a value of the expected type.
    Present(T),
    /// The key holds a value of another type.
    WrongType,
}

/// The three fields of one manifest entry, as found in the document.
#[derive(Debug)]
pub struct RawItem {
    pub source: RawField<String>,
    pub destination: RawField<String>,
    pub force: RawField<bool>,
}

/// What the document holds under `manifest_items`: an array whose elements
/// are tables (`Present`) or values of another type (`WrongType`).
#[derive(Debug)]
pub struct RawManifest {
    pub manifest_items: RawField<Vec<RawField<RawItem>>>,
}

/// A field of a manifest entry.
#[derive(PartialEq, Eq, Structural, Clone, Copy, Debug)]
pub enum FieldName {
    Source,
    Destination,
    Force,
}

/// Why a manifest text does not describe a manifest.
#[derive(Debug)]
pub enum ManifestError {
    /// The text is not TOML; the parser's diagnostic.
    Syntax(String),
    /// The document has no `manifest_items` key.
    MissingItems,
    /// `manifest_items` is not an array.
    ItemsNotArray,
    /// The entry at this position is not a table.
    ItemNotTable(usize),
    /// The entry at this position lacks a required field.
    MissingField(usize, FieldName),
    /// The entry at this position holds a field of the wrong type.
    WrongFieldType(usize, FieldName),
}

/// A manifest item as values.
pub struct ItemSpec {
    pub source: Seq<char>,
    pub destination: Seq<char>,
    pub force: bool,
}

impl View for ManifestItem {
    type V = ItemSpec;

    open spec fn view(&self) -> ItemSpec {
        ItemSpec { source: self.source@, destination: self.destination@, force: self.force }
    }
}

/// The fields of one manifest entry as values.
pub struct RawItemSpec {
    pub source: RawField<Seq<char>>,
    pub destination: RawField<Seq<char>>,
    pub force: RawField<bool>,
}

/// A string field seen as characters.
pub open spec fn text_field(f: RawField<String>) -> RawField<Seq<char>> {
    match f {
        RawField::Present(s) => RawField::Present(s@),
        RawField::Missing => RawField::Missing,
        RawField::WrongType => RawField::WrongType,
    }
}

impl View for RawItem {
    type V = RawItemSpec;

    open spec fn view(&self) -> RawItemSpec {
        RawItemSpec {
            source: text_field(self.source),
            destination: text_field(self.destination),
            force: self.force,
        }
    }
}

/// One element of `manifest_items` as values.
pub open spec fn entry_view(e: RawField<RawItem>) -> RawField<RawItemSpec> {
    match e {
        RawField::Present(raw) => RawField::Present(raw@),
        RawField::Missing => RawField::Missing,
        RawField::WrongType => RawField::WrongType,
    }
}

impl View for RawManifest {
    type V = RawField<Seq<RawField<RawItemSpec>>>;

    open spec fn view(&self) -> RawField<Seq<RawField<RawItemSpec>>> {
        match self.manifest_items {
            RawField::Present(entries) => RawField::Present(
                entries@.map_values(|e: RawField<RawItem>| entry_view(e)),
            ),
            RawField::Missing => RawField::Missing,
            RawField::WrongType => RawField::WrongType,
        }
    }
}

/// What a table holds under `key`, read as a string field.
pub open spec fn str_key(t: Map<Seq<char>, TomlShape>, key: Seq<char>) -> RawField<Seq<char>> {
    if !t.contains_key(key) {
        RawField::Missing
    } else {
        match t[key] {
            TomlShape::Str(s) => RawField::Present(s),
            _ => RawField::WrongType,
        }
    }
}

/// What a table holds under `key`, read as a boolean field.
pub open spec fn bool_key(t: Map<Seq<char>, TomlShape>, key: Seq<char>) -> RawField<bool> {
    if !t.contains_key(key) {
        RawField::Missing
    } else {
        match t[key] {
            TomlShape::Bool(b) => RawField::Present(b),
            _ => RawField::WrongType,
        }
    }
}

/// One element of `manifest_items`: a table's `source`, `destination` and
/// `force` keys, or a value of another type.
pub open spec fn entry_of_shape(v: TomlShape) -> RawField<RawItemSpec> {
    match v {
        TomlShape::Table(t) => RawField::Present(
            RawItemSpec {
                source: str_key(t, "source"@),
                destination: str_key(t, "destination"@),
                force: bool_key(t, "force"@),
            },
        ),
        _ => RawField::WrongType,
    }
}

/// What a document holds under `manifest_items`, element by element.
pub open spec fn raw_of_doc(doc: Map<Seq<char>, TomlShape>) -> RawField<Seq<RawField<RawItemSpec>>> {
    if !doc.contains_key("manifest_items"@) {
        RawField::Missing
    } else {
        match doc["manifest_items"@] {
            TomlShape::Array(values) => RawField::Present(
                values.map_values(|v: TomlShape| entry_of_shape(v)),
            ),
            _ => RawField::WrongType,
        }
    }
}

/// The required string field `name` of entry `index`.
pub open spec fn required_str(f: RawField<Seq<char>>, index: int, name: FieldName) -> Result<Seq<char>, ManifestError> {
    match f {
        RawField::Present(s) => Ok(s),
        RawField::Missing => Err(ManifestError::MissingField(index as usize, name)),
        RawField::WrongType => Err(ManifestError::WrongFieldType(index as usize, name)),
    }
}

/// The optional `force` flag of entry `index`: absent means `false`.
pub open spec fn optional_force(f: RawField<bool>, index: int) -> Result<bool, ManifestError> {
    match f {
        RawField::Present(b) => Ok(b),
        RawField::Missing => Ok(false),
        RawField::WrongType => Err(ManifestError::WrongFieldType(index as usize, FieldName::Force)),
    }
}

/// The item that entry `index` describes, or the first problem with it, the
/// fields taken in the order source, destination, force.
pub open spec fn item_of(raw: RawItemSpec, index: int) -> Result<ItemSpec, ManifestError> {
    match required_str(raw.source, index, FieldName::Source) {
        Err(e) => Err(e),
        Ok(source) => match required_str(raw.destination, index, FieldName::Destination) {
            Err(e) => Err(e),
            Ok(destination) => match optional_force(raw.force, index) {
                Err(e) => Err(e),
                Ok(force) => Ok(ItemSpec { source, destination, force }),
            },
        },
    }
}

/// The item of one array element at position `index`.
pub open spec fn entry_of(entry: RawField<RawItemSpec>, index: int) -> Result<ItemSpec, ManifestError> {
    match entry {
        RawField::Present(raw) => item_of(raw, index),
        _ => Err(ManifestError::ItemNotTable(index as usize)),
    }
}

/// The items of a sequence of entries, or the problem with the first entry
/// that has one.
pub open spec fn items_of(entries: Seq<RawField<RawItemSpec>>) -> Result<Seq<ItemSpec>, ManifestError>
    decreases entries.len(),
{
    if entries.len() == 0 {
        Ok(Seq::empty())
    } else {
        match items_of(entries.drop_last()) {
            Err(e) => Err(e),
            Ok(done) => match entry_of(entries.last(), entries.len() - 1) {
                Err(e) => Err(e),
                Ok(item) => Ok(done.push(item)),
            },
        }
    }
}

/// The manifest that what a document holds under `manifest_items` describes,
/// as its sequence of items.
pub open spec fn manifest_of(raw: RawField<Seq<RawField<RawItemSpec>>>) -> Result<Seq<ItemSpec>, ManifestError> {
    match raw {
        RawField::Present(entries) => items_of(entries),
        RawField::Missing => Err(ManifestError::MissingItems),
        RawField::WrongType => Err(ManifestError::ItemsNotArray),
    }
}

/// The manifest that a TOML document describes.
pub open spec fn manifest_of_doc(doc: Map<Seq<char>, TomlShape>) -> Result<Seq<ItemSpec>, ManifestError> {
    manifest_of(raw_of_doc(doc))
}

/// A decoding result seen as its sequence of items.
pub open spec fn items_view(r: Result<Manifest, ManifestError>) -> Result<Seq<ItemSpec>, ManifestError> {
    match r {
        Ok(m) => Ok(m.manifest_items@.map_values(|i: ManifestItem| i@)),
        Err(e) => Err(e),
    }
}

/// One item's decoding result seen as values.
pub open spec fn item_view(r: Result<ManifestItem, ManifestError>) -> Result<ItemSpec, ManifestError> {
    match r {
        Ok(i) => Ok(i@),
        Err(e) => Err(e),
    }
}

/// Once a prefix of the entries fails, every longer prefix fails the same way.
proof fn lemma_error_persists(entries: Seq<RawField<RawItemSpec>>, k: int, j: int)
    requires
        0 <= k <= j <= entries.len(),
        items_of(entries.take(k)) is Err,
    ensures
        items_of(entries.take(j)) == items_of(entries.take(k)),
    decreases j - k,
{
    if j > k {
        lemma_error_persists(entries, k, j - 1);
        assert(entries.take(j).drop_last() =~= entries.take(j - 1));
    }
}

/// Decoded entries give one item each, in order: item `i` is what entry `i`
/// describes.
pub proof fn lemma_items_follow_entries(entries: Seq<RawField<RawItemSpec>>)
    requires
        items_of(entries) is Ok,
    ensures
        items_of(entries)->Ok_0.len() == entries.len(),
        forall|i: int|
            0 <= i < entries.len() ==> entry_of(#[trigger] entries[i], i) == Ok::<
                ItemSpec,
                ManifestError,
            >(items_of(entries)->Ok_0[i]),
    decreases entries.len(),
{
    if entries.len() > 0 {
        let prefix = entries.drop_last();
        lemma_items_follow_entries(prefix);
        assert forall|i: int| 0 <= i < entries.len() implies entry_of(#[trigger] entries[i], i)
            == Ok::<ItemSpec, ManifestError>(items_of(entries)->Ok_0[i]) by {
            if i < prefix.len() {
                assert(prefix[i] == entries[i]);
            }
        }
    }
}

/// An item is what a table of `manifest_items` lists: its `source` and
/// `destination` strings, and its `force` flag or `false` where it has none.
pub open spec fn lists_item(table: TomlShape, item: ItemSpec) -> bool {
    &&& table is Table
    &&& str_key(table->Table_0, "source"@) == RawField::Present(item.source)
    &&& str_key(table->Table_0, "destination"@) == RawField::Present(item.destination)
    &&& bool_key(table->Table_0, "force"@) == RawField::Present(item.force) || (bool_key(
        table->Table_0,
        "force"@,
    ) is Missing && !item.force)
}

/// A document that decodes gives one item per table of its `manifest_items`
/// array, in the array's order, each item what its table lists. A table is a
/// map from keys to values, so the order of its fields plays no part.
pub proof fn lemma_items_follow_tables(doc: Map<Seq<char>, TomlShape>)
    requires
        manifest_of_doc(doc) is Ok,
    ensures
        doc.contains_key("manifest_items"@),
        doc["manifest_items"@] is Array,
        manifest_of_doc(doc)->Ok_0.len() == doc["manifest_items"@]->Array_0.len(),
        forall|i: int|
            0 <= i < manifest_of_doc(doc)->Ok_0.len() ==> lists_item(
                doc["manifest_items"@]->Array_0[i],
                #[trigger] manifest_of_doc(doc)->Ok_0[i],
            ),
{
    let values = doc["manifest_items"@]->Array_0;
    let entries = values.map_values(|v: TomlShape| entry_of_shape(v));
    lemma_items_follow_entries(entries);
    let items = manifest_of_doc(doc)->Ok_0;
    assert forall|i: int| 0 <= i < items.len() implies lists_item(values[i], #[trigger] items[i]) by {
        assert(entries[i] == entry_of_shape(values[i]));
        assert(entry_of(entries[i], i) == Ok::<ItemSpec, ManifestError>(items[i]));
    }
}

/// A document with a table in `manifest_items` that lacks `source` or
/// `destination` (or both) does not describe a manifest.
pub proof fn lemma_missing_required_field_fails(doc: Map<Seq<char>, TomlShape>, k: int)
    requires
        doc.contains_key("manifest_items"@),
        doc["manifest_items"@] matches TomlShape::Array(values) && 0 <= k < values.len() && (
        values[k] matches TomlShape::Table(t) && (!t.contains_key("source"@) || !t.contains_key(
            "destination"@,
        ))),
    ensures
        manifest_of_doc(doc) is Err,
{
    if manifest_of_doc(doc) is Ok {
        let values = doc["manifest_items"@]->Array_0;
        let entries = values.map_values(|v: TomlShape| entry_of_shape(v));
        lemma_items_follow_entries(entries);
        assert(entries[k] == entry_of_shape(values[k]));
    }
}

/// A table in `manifest_items` without `force` gives an item with `force`
/// set to `false`.
pub proof fn lemma_force_defaults_to_false(doc: Map<Seq<char>, TomlShape>, k: int)
    requires
        manifest_of_doc(doc) is Ok,
        0 <= k < manifest_of_doc(doc)->Ok_0.len(),
        doc["manifest_items"@]->Array_0[k] matches TomlShape::Table(t) && !t.contains_key(
            "force"@,
        ),
    ensures
        !manifest_of_doc(doc)->Ok_0[k].force,
{
    lemma_items_follow_tables(doc);
}

fn required_string(f: &RawField<String>, index: usize, name: FieldName) -> (r: Result<String, ManifestError>)
    ensures
        match r {
            Ok(s) => required_str(text_field(*f), index as int, name) == Ok::<
                Seq<char>,
                ManifestError,
            >(s@),
            Err(e) => required_str(text_field(*f), index as int, name) == Err::<
                Seq<char>,
                ManifestError,
            >(e),
        },
{
    match f {
        RawField::Present(s) => Ok(s.clone()),
        RawField::Missing => Err(ManifestError::MissingField(index, name)),
        RawField::WrongType => Err(ManifestError::WrongFieldType(index, name)),
    }
}

/// Builds the item that one entry describes: `source` and `destination` are
/// required strings, `force` an optional boolean that defaults to `false`.
pub fn decode_item(raw: &RawItem, index: usize) -> (r: Result<ManifestItem, ManifestError>)
    ensures
        item_view(r) == item_of(raw@, index as int),
{
    let source = match required_string(&raw.source, index, FieldName::Source) {
        Ok(s) => s,
        Err(e) => return Err(e),
    };
    let destination = match required_string(&raw.destination, index, FieldName::Destination) {
        Ok(s) => s,
        Err(e) => return Err(e),
    };
    let force = match raw.force {
        RawField::Present(b) => b,
        RawField::Missing => false,
        RawField::WrongType => return Err(ManifestError::WrongFieldType(index, FieldName::Force)),
    };
    Ok(ManifestItem { source, destination, force })
}

/// Builds the items of a sequence of entries, in order; fails with the
/// problem of the first entry that has one.
fn decode_entries(entries: &Vec<RawField<RawItem>>) -> (r: Result<Manifest, ManifestError>)
    ensures
        items_view(r) == items_of(entries@.map_values(|e: RawField<RawItem>| entry_view(e))),
{
    let ghost views = entries@.map_values(|e: RawField<RawItem>| entry_view(e));
    let mut items: Vec<ManifestItem> = Vec::new();
    let mut i: usize = 0;
    assert(items@.map_values(|m: ManifestItem| m@) =~= Seq::<ItemSpec>::empty());
    assert(views.take(0) =~= Seq::<RawField<RawItemSpec>>::empty());
    while i < entries.len()
        invariant
            i <= entries@.len(),
            views == entries@.map_values(|e: RawField<RawItem>| entry_view(e)),
            items_of(views.take(i as int)) == Ok::<Seq<ItemSpec>, ManifestError>(
                items@.map_values(|m: ManifestItem| m@),
            ),
        decreases entries@.len() - i,
    {
        proof {
            assert(views.take(i as int + 1).drop_last() =~= views.take(i as int));
            assert(views.take(i as int + 1).last() == entry_view(entries@[i as int]));
        }
        let item = match &entries[i] {
            RawField::Present(raw_item) => decode_item(raw_item, i),
            _ => Err(ManifestError::ItemNotTable(i)),
        };
        assert(item_view(item) == entry_of(entry_view(entries@[i as int]), i as int));
        match item {
            Ok(item) => {
                let ghost before = items@;
                items.push(item);
                assert(items@.map_values(|m: ManifestItem| m@) =~= before.map_values(
                    |m: ManifestItem| m@,
                ).push(item@));
            },
            Err(e) => {
                proof {
                    lemma_error_persists(views, i as int + 1, views.len() as int);
                    assert(views.take(views.len() as int) =~= views);
                }
                return Err(e);
            },
        }
        i = i + 1;
    }
    assert(views.take(views.len() as int) =~= views);
    Ok(Manifest { manifest_items: items })
}

/// Builds the manifest that a document describes, item by item in document
/// order; fails with the problem of the first entry that has one.
pub fn decode_manifest(raw: &RawManifest) -> (r: Result<Manifest, ManifestError>)
    ensures
        items_view(r) == manifest_of(raw@),
{
    match &raw.manifest_items {
        RawField::Present(entries) => decode_entries(entries),
        RawField::Missing => Err(ManifestError::MissingItems),
        RawField::WrongType => Err(ManifestError::ItemsNotArray),
    }
}

/// Looks up a string field of an entry.
fn string_field(t: &toml::Table, key: &str) -> (r: RawField<String>)
    ensures
        text_field(r) == str_key(table_shape(*t), key@),
{
    match table_get(t, key) {
        None => RawField::Missing,
        Some(v) => match value_as_str(v) {
            Some(s) => RawField::Present(s.to_owned()),
            None => RawField::WrongType,
        },
    }
}

/// Looks up a boolean field of an entry.
fn bool_field(t: &toml::Table, key: &str) -> (r: RawField<bool>)
    ensures
        r == bool_key(table_shape(*t), key@),
{
    match table_get(t, key) {
        None => RawField::Missing,
        Some(v) => match value_as_bool(v) {
            Some(b) => RawField::Present(b),
            None => RawField::WrongType,
        },
    }
}

/// Reads the fields of one element of `manifest_items`.
fn raw_entry(v: &toml::Value) -> (r: RawField<RawItem>)
    ensures
        entry_view(r) == entry_of_shape(value_shape(*v)),
{
    match value_as_table(v) {
        None => RawField::WrongType,
        Some(t) => RawField::Present(
            RawItem {
                source: string_field(t, "source"),
                destination: string_field(t, "destination"),
                force: bool_field(t, "force"),
            },
        ),
    }
}

/// Reads from a parsed document what a manifest is built from: the elements
/// of its `manifest_items` array, one for one and in order.
fn read_raw_manifest(doc: &toml::Table) -> (r: RawManifest)
    ensures
        r@ == raw_of_doc(table_shape(*doc)),
{
    match table_get(doc, "manifest_items") {
        None => RawManifest { manifest_items: RawField::Missing },
        Some(v) => match value_as_array(v) {
            None => RawManifest { manifest_items: RawField::WrongType },
            Some(values) => {
                let ghost shapes = values@.map_values(|x: toml::Value| value_shape(x));
                let mut entries: Vec<RawField<RawItem>> = Vec::new();
                let mut i: usize = 0;
                while i < values.len()
                    invariant
                        i <= values@.len(),
                        shapes == values@.map_values(|x: toml::Value| value_shape(x)),
                        entries@.len() == i,
                        forall|j: int|
                            0 <= j < i ==> entry_view(#[trigger] entries@[j]) == entry_of_shape(
                                shapes[j],
                            ),
                    decreases values@.len() - i,
                {
                    entries.push(raw_entry(&values[i]));
                    i = i + 1;
                }
                let r = RawManifest { manifest_items: RawField::Present(entries) };
                assert(entries@.map_values(|e: RawField<RawItem>| entry_view(e)) =~= shapes.map_values(
                    |s: TomlShape| entry_of_shape(s),
                ));
                r
            },
        },
    }
}

/// Parses a manifest text: a TOML document whose `manifest_items` array holds
/// one table per item. Fails with `Syntax`, carrying the parser's message,
/// exactly when the text is not TOML; otherwise gives what the document
/// describes.
pub fn red_manifesto(manifest_content: String) -> (r: Result<Manifest, ManifestError>)
    ensures
        (r is Err && r->Err_0 is Syntax) == (toml_doc(manifest_content@) is None),
        r matches Err(ManifestError::Syntax(m)) ==> m@ == toml_diagnostic(manifest_content@),
        toml_doc(manifest_content@) matches Some(doc) ==> items_view(r) == manifest_of_doc(doc),
        manifest_content@.len() == 0 ==> r matches Err(ManifestError::MissingItems),
{
    match parse_table(manifest_content.as_str()) {
        Err(message) => Err(ManifestError::Syntax(message)),
        Ok(doc) => {
            let raw = read_raw_manifest(&doc);
            let r = decode_manifest(&raw);
            proof {
                lemma_decoding_never_syntax(raw@);
            }
            r
        },
    }
}

/// Decoding what a document holds never reports a syntax error.
proof fn lemma_decoding_never_syntax(raw: RawField<Seq<RawField<RawItemSpec>>>)
    ensures
        !(manifest_of(raw) matches Err(ManifestError::Syntax(_))),
{
    match raw {
        RawField::Present(entries) => lemma_items_never_syntax(entries),
        _ => {},
    }
}

proof fn lemma_items_never_syntax(entries: Seq<RawField<RawItemSpec>>)
    ensures
        !(items_of(entries) matches Err(ManifestError::Syntax(_))),
    decreases entries.len(),
{
    if entries.len() > 0 {
        lemma_items_never_syntax(entries.drop_last());
    }
}

} // verus!
