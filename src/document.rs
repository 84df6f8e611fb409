//! The edit-preserving TOML document, held through `toml_edit`.
//!
//! The document is opaque to the verifier. Three names describe what the
//! library reads from it: the order of its top-level entries, which of them
//! are tables, and the arrays that those entries hold under their keys.
use vstd::prelude::*;
use crate::text::{same_text, strings_view, text_view};

verus! {

#[verifier::external_type_specification]
#[verifier::external_body]
pub struct ExDocumentMut(toml_edit::DocumentMut);

#[verifier::external_type_specification]
#[verifier::external_body]
pub struct ExTomlError(toml_edit::TomlError);

/// The elements of an array: `Some(text)` for each string element, `None`
/// for an element of any other kind.
pub type ArrayItems = Seq<Option<Seq<char>>>;

/// The text is a TOML document.
pub uninterp spec fn is_toml(text: Seq<char>) -> bool;

/// The document written out as TOML text.
pub uninterp spec fn toml_text(d: toml_edit::DocumentMut) -> Seq<char>;

/// The names of the visible top-level entries of the document, in the order
/// in which the document's root table holds them.
pub uninterp spec fn command_order(d: toml_edit::DocumentMut) -> Seq<Seq<char>>;

/// The visible top-level entries whose value is a table, standard or inline.
pub uninterp spec fn command_tables(d: toml_edit::DocumentMut) -> Set<Seq<char>>;

/// For each visible top-level entry `c` and key `f` such that the entry's
/// value holds under `f` an array, the elements of that array, keyed by `(c, f)`.
pub uninterp spec fn field_arrays(d: toml_edit::DocumentMut) -> Map<(Seq<char>, Seq<char>), ArrayItems>;

/// What a document always satisfies: each entry name occurs once, and the
/// tables and arrays belong to entries of the document.
pub open spec fn doc_consistent(d: toml_edit::DocumentMut) -> bool {
    &&& command_order(d).no_duplicates()
    &&& forall|c: Seq<char>| #[trigger] command_tables(d).contains(c) ==> command_order(d).contains(c)
    &&& forall|key: (Seq<char>, Seq<char>)|
        #[trigger] field_arrays(d).contains_key(key) ==> command_order(d).contains(key.0)
}

/// The arrays that remain once the entry `c` is gone.
pub open spec fn without_entry(
    arrays: Map<(Seq<char>, Seq<char>), ArrayItems>,
    c: Seq<char>,
) -> Map<(Seq<char>, Seq<char>), ArrayItems> {
    Map::new(
        |key: (Seq<char>, Seq<char>)| arrays.contains_key(key) && key.0 != c,
        |key: (Seq<char>, Seq<char>)| arrays[key],
    )
}

/// The view of the elements of an array read out of the document.
pub open spec fn items_view(v: Seq<Option<String>>) -> ArrayItems {
    v.map_values(|o: Option<String>|
        match o {
            Some(s) => Some(s@),
            None => None,
        })
}

/// An element that removing the string `t` leaves in place: anything but
/// the string `t` itself.
pub open spec fn keeps(o: Option<Seq<char>>, t: Seq<char>) -> bool {
    o != Some(t)
}

/// The names other than `c`.
pub open spec fn other_than(c: Seq<char>) -> spec_fn(Seq<char>) -> bool {
    |n: Seq<char>| n != c
}

/// The elements that removing the string `t` leaves in place.
pub open spec fn kept_by(t: Seq<char>) -> spec_fn(Option<Seq<char>>) -> bool {
    |o: Option<Seq<char>>| keeps(o, t)
}

/// Whether an element whose string content is `text` (`None` for a
/// non-string) stays when the string `t` is removed.
pub fn keeps_tag(text: Option<&str>, t: &str) -> (r: bool)
    ensures
        r == keeps(text_view(text), t@),
{
    match text {
        Some(s) => !same_text(s, t),
        None => true,
    }
}

/// Relies on `DocumentMut::from_str`: parses TOML text into an editable
/// document. Whether it succeeds depends on the text alone; the root table
/// of the result is an `IndexMap`, whose keys are distinct.
#[verifier::external_body]
pub(crate) fn parse_document(text: &str) -> (r: Result<toml_edit::DocumentMut, toml_edit::TomlError>)
    ensures
        r is Ok <==> is_toml(text@),
        r is Ok ==> doc_consistent(r->Ok_0),
{
    text.parse::<toml_edit::DocumentMut>()
}

/// Relies on the `Display` impl of `DocumentMut`: the document as TOML text.
#[verifier::external_body]
pub(crate) fn render(d: &toml_edit::DocumentMut) -> (r: String)
    ensures
        r@ == toml_text(*d),
{
    d.to_string()
}

/// Relies on `Table::contains_key` of the root table: true exactly for the
/// visible top-level entries.
#[verifier::external_body]
pub(crate) fn has_command(d: &toml_edit::DocumentMut, k: &str) -> (r: bool)
    ensures
        r == command_order(*d).contains(k@),
{
    d.contains_key(k)
}

/// Relies on `Table::iter` of the root table: the visible top-level keys,
/// in the table's order.
#[verifier::external_body]
pub(crate) fn command_names(d: &toml_edit::DocumentMut) -> (r: Vec<String>)
    ensures
        strings_view(r@) == command_order(*d),
{
    d.iter().map(|(k, _)| k.to_string()).collect()
}

/// Relies on `Table::get`, `Item::get`, `Item::as_array`, `Array::iter` and
/// `Value::as_str`: reads the array that the entry `k` holds under `f`.
#[verifier::external_body]
pub(crate) fn read_array(d: &toml_edit::DocumentMut, k: &str, f: &str) -> (r: Option<Vec<Option<String>>>)
    ensures
        match r {
            Some(v) => field_arrays(*d).contains_key((k@, f@)) && field_arrays(*d)[(k@, f@)] == items_view(v@),
            None => !field_arrays(*d).contains_key((k@, f@)),
        },
{
    d.get(k).and_then(|item| item.get(f)).and_then(|a| a.as_array()).map(
        |a| a.iter().map(|v| v.as_str().map(|s| s.to_string())).collect(),
    )
}

/// Relies on `Item::get_mut`, `Item::as_array_mut` and `Array::push`: appends
/// the string `t` to the end of the array that the entry `k` holds under `f`.
#[verifier::external_body]
pub(crate) fn push_string(d: &mut toml_edit::DocumentMut, k: &str, f: &str, t: &str)
    requires
        field_arrays(*old(d)).contains_key((k@, f@)),
    ensures
        command_order(*final(d)) == command_order(*old(d)),
        command_tables(*final(d)) == command_tables(*old(d)),
        field_arrays(*final(d)) == field_arrays(*old(d)).insert(
            (k@, f@),
            field_arrays(*old(d))[(k@, f@)].push(Some(t@)),
        ),
{
    d.get_mut(k).and_then(|item| item.get_mut(f)).and_then(|a| a.as_array_mut()).map(
        |a| a.push(t),
    );
}

/// Relies on `Array::retain`: drops from the array that the entry `k` holds
/// under `f` each element that `keeps_tag` rejects, keeping the others in order.
#[verifier::external_body]
pub(crate) fn retain_strings(d: &mut toml_edit::DocumentMut, k: &str, f: &str, t: &str)
    requires
        field_arrays(*old(d)).contains_key((k@, f@)),
    ensures
        command_order(*final(d)) == command_order(*old(d)),
        command_tables(*final(d)) == command_tables(*old(d)),
        field_arrays(*final(d)) == field_arrays(*old(d)).insert(
            (k@, f@),
            field_arrays(*old(d))[(k@, f@)].filter(kept_by(t@)),
        ),
{
    d.get_mut(k).and_then(|item| item.get_mut(f)).and_then(|a| a.as_array_mut()).map(
        |a| a.retain(|v| keeps_tag(v.as_str(), t)),
    );
}

/// Relies on `Table::remove` and `Table::insert` of the root table: `k`
/// becomes the last entry, an empty table. The removal first drops any
/// hidden (empty) slot of that name, which `insert` would otherwise reuse in
/// place.
#[verifier::external_body]
pub(crate) fn insert_table(d: &mut toml_edit::DocumentMut, k: &str)
    requires
        !command_order(*old(d)).contains(k@),
    ensures
        command_order(*final(d)) == command_order(*old(d)).push(k@),
        command_tables(*final(d)) == command_tables(*old(d)).insert(k@),
        field_arrays(*final(d)) == field_arrays(*old(d)),
{
    d.remove(k);
    d.insert(k, toml_edit::Item::Table(toml_edit::Table::new()));
}

/// Relies on `Item::as_table_like_mut` and `TableLike::insert`: the table of
/// the entry `k` holds an empty array under `f`.
#[verifier::external_body]
pub(crate) fn insert_array(d: &mut toml_edit::DocumentMut, k: &str, f: &str)
    requires
        command_tables(*old(d)).contains(k@),
    ensures
        command_order(*final(d)) == command_order(*old(d)),
        command_tables(*final(d)) == command_tables(*old(d)),
        field_arrays(*final(d)) == field_arrays(*old(d)).insert((k@, f@), Seq::empty()),
{
    d.get_mut(k).and_then(|item| item.as_table_like_mut()).map(
        |t| t.insert(f, toml_edit::value(toml_edit::Array::new())),
    );
}

/// Relies on `Table::remove` of the root table, which keeps the order of the
/// other entries.
#[verifier::external_body]
pub(crate) fn remove_command(d: &mut toml_edit::DocumentMut, k: &str)
    ensures
        command_order(*final(d)) == command_order(*old(d)).filter(other_than(k@)),
        command_tables(*final(d)) == command_tables(*old(d)).remove(k@),
        field_arrays(*final(d)) == without_entry(field_arrays(*old(d)), k@),
{
    d.remove(k);
}

} // verus!
