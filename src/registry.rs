//! The registry: commands and their tags, read from and written to the
//! document, with the add, modify, delete, show and search operations.
use vstd::prelude::*;
use crate::document::{
    command_names, command_order, command_tables, doc_consistent, field_arrays, has_command,
    insert_array, insert_table, is_toml, items_view, keeps_tag, kept_by, other_than,
    parse_document, push_string, read_array, remove_command, render, retain_strings, toml_text,
    without_entry, ArrayItems,
};
use crate::error::Error;
use crate::text::{contains_text, has_substring, strings_view, text_view};

verus! {

/// The tags of one command: `Some(text)` for each string element of its
/// `tags` array, `None` for an element of any other kind.
pub type TagList = ArrayItems;

/// The key under which a command's entry holds its tags.
pub open spec fn tags_key() -> Seq<char> {
    "tags"@
}

/// What the registry holds: its commands in document order, which of them
/// are tables, and the arrays that the entries hold, keyed by
/// (command, key).
pub struct RegistryModel {
    pub order: Seq<Seq<char>>,
    pub tables: Set<Seq<char>>,
    pub arrays: Map<(Seq<char>, Seq<char>), ArrayItems>,
}

impl RegistryModel {
    /// Each command occurs once, and tables and arrays belong to commands.
    pub open spec fn wf(self) -> bool {
        &&& self.order.no_duplicates()
        &&& forall|c: Seq<char>| #[trigger] self.tables.contains(c) ==> self.order.contains(c)
        &&& forall|key: (Seq<char>, Seq<char>)| #[trigger] self.arrays.contains_key(key) ==> self.order.contains(key.0)
    }

    pub open spec fn has(self, c: Seq<char>) -> bool {
        self.order.contains(c)
    }

    /// The tags of `c`, or `None` where `c` has no `tags` array.
    pub open spec fn tags(self, c: Seq<char>) -> Option<TagList> {
        if self.arrays.contains_key((c, tags_key())) {
            Some(self.arrays[(c, tags_key())])
        } else {
            None
        }
    }

    /// Whether some tag of `c` contains `sub`.
    pub open spec fn matches(self, c: Seq<char>, sub: Seq<char>) -> bool {
        self.tags(c) is Some && some_contains(self.tags(c).unwrap(), sub)
    }

    /// The commands that `matches` accepts, in document order.
    pub open spec fn hits(self, sub: Seq<char>) -> Seq<Seq<char>> {
        self.order.filter(|c: Seq<char>| self.matches(c, sub))
    }

    pub open spec fn with_tags(self, c: Seq<char>, ts: TagList) -> RegistryModel {
        RegistryModel { arrays: self.arrays.insert((c, tags_key()), ts), ..self }
    }
}

/// Some string element of the list contains `sub`.
pub open spec fn some_contains(ts: TagList, sub: Seq<char>) -> bool {
    exists|i: int| 0 <= i < ts.len() && (#[trigger] ts[i]) is Some && has_substring(ts[i].unwrap(), sub)
}

/// Some tag of the list is the string `t`.
pub open spec fn holds_tag(ts: TagList, t: Seq<char>) -> bool {
    exists|i: int| 0 <= i < ts.len() && #[trigger] ts[i] == Some(t)
}

/// Every element of the list is a string.
pub open spec fn all_text(ts: TagList) -> bool {
    forall|i: int| 0 <= i < ts.len() ==> (#[trigger] ts[i]) is Some
}

/// The texts of a list whose elements are all strings.
pub open spec fn texts(ts: TagList) -> Seq<Seq<char>> {
    ts.map_values(|o: Option<Seq<char>>| o.unwrap())
}

/// `Add(c, t)`: a new command gets `tags = [t]`; an existing one gets `t`
/// appended unless it already has it.
pub open spec fn add_spec(m: RegistryModel, c: Seq<char>, t: Seq<char>) -> Result<RegistryModel, Error> {
    if m.has(c) {
        match m.tags(c) {
            None => Err(Error::Internal),
            Some(ts) => if holds_tag(ts, t) {
                Err(Error::DuplicateTag)
            } else {
                Ok(m.with_tags(c, ts.push(Some(t))))
            },
        }
    } else {
        Ok(
            RegistryModel {
                order: m.order.push(c),
                tables: m.tables.insert(c),
                arrays: m.arrays.insert((c, tags_key()), seq![Some(t)]),
            },
        )
    }
}

/// `Modify(c, t)`: appends `t` to an existing command, duplicate or not.
pub open spec fn modify_spec(m: RegistryModel, c: Seq<char>, t: Seq<char>) -> Result<RegistryModel, Error> {
    if !m.has(c) {
        Err(Error::CommandNotFound)
    } else {
        match m.tags(c) {
            None => Err(Error::Internal),
            Some(ts) => Ok(m.with_tags(c, ts.push(Some(t)))),
        }
    }
}

/// `Delete(c)` removes the command and leaves an absent one as it is;
/// `Delete(c, t)` removes every tag of `c` equal to `t` and keeps the others
/// in order.
pub open spec fn delete_spec(m: RegistryModel, c: Seq<char>, t: Option<Seq<char>>) -> Result<RegistryModel, Error> {
    match t {
        None => if m.has(c) {
            Ok(
                RegistryModel {
                    order: m.order.filter(other_than(c)),
                    tables: m.tables.remove(c),
                    arrays: without_entry(m.arrays, c),
                },
            )
        } else {
            Ok(m)
        },
        Some(t) => match m.tags(c) {
            None => Err(Error::Internal),
            Some(ts) => Ok(m.with_tags(c, ts.filter(kept_by(t)))),
        },
    }
}

/// `Show(c)`: the tags of `c` in order, or nothing where `c` is absent.
pub open spec fn show_spec(m: RegistryModel, c: Seq<char>) -> Result<Option<Seq<Seq<char>>>, Error> {
    if !m.has(c) {
        Ok(None)
    } else {
        match m.tags(c) {
            None => Err(Error::Internal),
            Some(ts) => if all_text(ts) {
                Ok(Some(texts(ts)))
            } else {
                Err(Error::Internal)
            },
        }
    }
}

/// `Search(sub)`: each matching command with all its tags, in document order.
pub open spec fn search_spec(m: RegistryModel, sub: Seq<char>) -> Result<Seq<(Seq<char>, Seq<Seq<char>>)>, Error> {
    let hits = m.hits(sub);
    if hits.len() == 0 {
        Err(Error::TagNotFound)
    } else if exists|i: int| 0 <= i < hits.len() && !all_text(#[trigger] m.tags(hits[i]).unwrap()) {
        Err(Error::Internal)
    } else {
        Ok(hits.map_values(|c: Seq<char>| (c, texts(m.tags(c).unwrap()))))
    }
}

/// One command found by a search, with all of its tags.
pub struct Match {
    pub command: String,
    pub tags: Vec<String>,
}

impl View for Match {
    type V = (Seq<char>, Seq<Seq<char>>);

    open spec fn view(&self) -> (Seq<char>, Seq<Seq<char>>) {
        (self.command@, strings_view(self.tags@))
    }
}

pub open spec fn matches_view(v: Seq<Match>) -> Seq<(Seq<char>, Seq<Seq<char>>)> {
    v.map_values(|m: Match| m@)
}

/// A loaded database.
pub struct Registry {
    doc: toml_edit::DocumentMut,
}

impl View for Registry {
    type V = RegistryModel;

    closed spec fn view(&self) -> RegistryModel {
        RegistryModel {
            order: command_order(self.doc),
            tables: command_tables(self.doc),
            arrays: field_arrays(self.doc),
        }
    }
}

impl Registry {
    /// The registry written out as database text.
    pub closed spec fn text(&self) -> Seq<char> {
        toml_text(self.doc)
    }
}

pub open spec fn show_view(r: Result<Option<Vec<String>>, Error>) -> Result<Option<Seq<Seq<char>>>, Error> {
    match r {
        Ok(Some(v)) => Ok(Some(strings_view(v@))),
        Ok(None) => Ok(None),
        Err(e) => Err(e),
    }
}

pub open spec fn search_view(r: Result<Vec<Match>, Error>) -> Result<Seq<(Seq<char>, Seq<Seq<char>>)>, Error> {
    match r {
        Ok(v) => Ok(matches_view(v@)),
        Err(e) => Err(e),
    }
}

/// How a mutation leaves the registry: the model that the operation's spec
/// gives on success, and the registry untouched on failure.
pub open spec fn mutated(
    before: Registry,
    after: Registry,
    r: Result<(), Error>,
    expected: Result<RegistryModel, Error>,
) -> bool {
    match expected {
        Ok(m) => r is Ok && after@ == m,
        Err(e) => r == Err::<(), Error>(e) && after == before,
    }
}

/// The element of a tag list as optional text.
fn element_text(e: &Option<String>) -> (r: Option<&str>)
    ensures
        text_view(r) == match e {
            Some(s) => Some(s@),
            None => None,
        },
{
    match e {
        Some(s) => Some(s.as_str()),
        None => None,
    }
}

/// Whether the list already holds `t`.
fn holds_tag_in(ts: &Vec<Option<String>>, t: &str) -> (r: bool)
    ensures
        r == holds_tag(items_view(ts@), t@),
{
    let ghost v = items_view(ts@);
    let mut i: usize = 0;
    while i < ts.len()
        invariant
            i <= ts.len(),
            v == items_view(ts@),
            forall|k: int| 0 <= k < i ==> #[trigger] v[k] != Some(t@),
        decreases ts.len() - i,
    {
        if !keeps_tag(element_text(&ts[i]), t) {
            assert(v[i as int] == Some(t@));
            return true;
        }
        i = i + 1;
    }
    false
}

/// Whether some string element of the list contains `sub`.
fn any_contains(ts: &Vec<Option<String>>, sub: &str) -> (r: bool)
    ensures
        r == some_contains(items_view(ts@), sub@),
{
    let ghost v = items_view(ts@);
    let mut i: usize = 0;
    while i < ts.len()
        invariant
            i <= ts.len(),
            v == items_view(ts@),
            forall|k: int| 0 <= k < i ==> !((#[trigger] v[k]) is Some && has_substring(v[k].unwrap(), sub@)),
        decreases ts.len() - i,
    {
        match &ts[i] {
            Some(s) => {
                if contains_text(s.as_str(), sub) {
                    assert(v[i as int] is Some);
                    return true;
                }
            },
            None => {},
        }
        i = i + 1;
    }
    false
}

/// The texts of the list, or `None` where some element is not a string.
fn tag_texts(ts: &Vec<Option<String>>) -> (r: Option<Vec<String>>)
    ensures
        match r {
            Some(out) => all_text(items_view(ts@)) && strings_view(out@) == texts(items_view(ts@)),
            None => !all_text(items_view(ts@)),
        },
{
    let ghost v = items_view(ts@);
    let mut out: Vec<String> = Vec::new();
    let mut i: usize = 0;
    while i < ts.len()
        invariant
            i <= ts.len(),
            v == items_view(ts@),
            forall|k: int| 0 <= k < i ==> (#[trigger] v[k]) is Some,
            strings_view(out@) == texts(v).take(i as int),
        decreases ts.len() - i,
    {
        match &ts[i] {
            Some(s) => {
                let ghost before = out@;
                assert(v[i as int] == Some(s@));
                assert(texts(v)[i as int] == s@);
                out.push(s.clone());
                assert(strings_view(out@) =~= strings_view(before).push(s@));
                assert(strings_view(out@) =~= texts(v).take(i + 1));
            },
            None => {
                assert(v[i as int] is None);
                return None;
            },
        }
        i = i + 1;
    }
    assert(texts(v).take(i as int) =~= texts(v));
    Some(out)
}

/// Filtering a list without duplicates gives a list without duplicates.
pub proof fn lemma_filter_no_duplicates(s: Seq<Seq<char>>, p: spec_fn(Seq<char>) -> bool)
    requires
        s.no_duplicates(),
    ensures
        s.filter(p).no_duplicates(),
    decreases s.len(),
{
    reveal(Seq::filter);
    if s.len() > 0 {
        let init = s.drop_last();
        assert(init.no_duplicates());
        lemma_filter_no_duplicates(init, p);
        if p(s.last()) {
            let f = init.filter(p);
            if f.contains(s.last()) {
                init.lemma_filter_contains_rev(p, s.last());
                let j = choose|j: int| 0 <= j < init.len() && init[j] == s.last();
                assert(s[j] == s[s.len() - 1]);
            }
            assert forall|i: int, j: int| 0 <= i < j < f.push(s.last()).len() implies f.push(s.last())[i]
                != f.push(s.last())[j] by {
                if j == f.len() {
                    assert(f.contains(f[i]));
                }
            }
        }
    }
}

/// Removing a command keeps the registry well formed.
proof fn lemma_remove_keeps_wf(m: RegistryModel, c: Seq<char>)
    requires
        m.wf(),
    ensures
        (RegistryModel {
            order: m.order.filter(other_than(c)),
            tables: m.tables.remove(c),
            arrays: without_entry(m.arrays, c),
        }).wf(),
{
    broadcast use vstd::seq_lib::group_filter_ensures;

    lemma_filter_no_duplicates(m.order, other_than(c));
    let f = m.order.filter(other_than(c));
    assert forall|x: Seq<char>| #[trigger] m.tables.remove(c).contains(x) implies f.contains(x) by {
        let j = choose|j: int| 0 <= j < m.order.len() && m.order[j] == x;
        m.order.lemma_filter_contains(other_than(c), j);
    }
    assert forall|key: (Seq<char>, Seq<char>)| #[trigger] without_entry(m.arrays, c).contains_key(key) implies f.contains(
        key.0,
    ) by {
        let j = choose|j: int| 0 <= j < m.order.len() && m.order[j] == key.0;
        m.order.lemma_filter_contains(other_than(c), j);
    }
}

impl Registry {
    /// Parses database text into a registry. It succeeds exactly on TOML
    /// text; otherwise the error is `ParseError`.
    pub fn load(text: &str) -> (r: Result<Registry, Error>)
        ensures
            r is Ok <==> is_toml(text@),
            r is Err ==> r == Err::<Registry, Error>(Error::ParseError),
            r is Ok ==> r->Ok_0@.wf(),
    {
        match parse_document(text) {
            Ok(doc) => {
                assert(doc_consistent(doc));
                Ok(Registry { doc })
            },
            Err(_) => Err(Error::ParseError),
        }
    }

    /// The registry as database text.
    pub fn to_text(&self) -> (r: String)
        ensures
            r@ == self.text(),
    {
        render(&self.doc)
    }

    /// Whether `command` is in the registry.
    pub fn contains(&self, command: &str) -> (r: bool)
        ensures
            r == self@.has(command@),
    {
        has_command(&self.doc, command)
    }

    /// Adds the tag `tag` to `command`, creating the command where it is new.
    pub fn add(&mut self, command: &str, tag: &str) -> (r: Result<(), Error>)
        ensures
            mutated(*old(self), *final(self), r, add_spec(old(self)@, command@, tag@)),
            old(self)@.wf() ==> final(self)@.wf(),
    {
        let ghost before = self@;
        if has_command(&self.doc, command) {
            match read_array(&self.doc, command, "tags") {
                None => Err(Error::Internal),
                Some(ts) => {
                    if holds_tag_in(&ts, tag) {
                        Err(Error::DuplicateTag)
                    } else {
                        push_string(&mut self.doc, command, "tags", tag);
                        assert(self@ =~= before.with_tags(command@, items_view(ts@).push(Some(tag@))));
                        Ok(())
                    }
                },
            }
        } else {
            insert_table(&mut self.doc, command);
            insert_array(&mut self.doc, command, "tags");
            push_string(&mut self.doc, command, "tags", tag);
            assert(Seq::<Option<Seq<char>>>::empty().push(Some(tag@)) =~= seq![Some(tag@)]);
            assert(self@.arrays =~= before.arrays.insert((command@, tags_key()), seq![Some(tag@)]));
            proof {
                if before.wf() {
                    assert forall|x: Seq<char>| #[trigger] self@.tables.contains(x) implies self@.order.contains(x) by {
                        if x != command@ {
                            let j = choose|j: int| 0 <= j < before.order.len() && before.order[j] == x;
                            assert(self@.order[j] == x);
                        } else {
                            assert(self@.order[before.order.len() as int] == x);
                        }
                    }
                    assert forall|key: (Seq<char>, Seq<char>)| #[trigger] self@.arrays.contains_key(key) implies self@.order.contains(
                        key.0,
                    ) by {
                        if key.0 != command@ {
                            assert(before.arrays.contains_key(key));
                            let j = choose|j: int| 0 <= j < before.order.len() && before.order[j] == key.0;
                            assert(self@.order[j] == key.0);
                        } else {
                            assert(self@.order[before.order.len() as int] == key.0);
                        }
                    }
                }
            }
            Ok(())
        }
    }

    /// Appends `tag` to an existing `command`, without the duplicate check of `add`.
    pub fn modify(&mut self, command: &str, tag: &str) -> (r: Result<(), Error>)
        ensures
            mutated(*old(self), *final(self), r, modify_spec(old(self)@, command@, tag@)),
            old(self)@.wf() ==> final(self)@.wf(),
    {
        let ghost before = self@;
        if !has_command(&self.doc, command) {
            return Err(Error::CommandNotFound);
        }
        match read_array(&self.doc, command, "tags") {
            None => Err(Error::Internal),
            Some(ts) => {
                push_string(&mut self.doc, command, "tags", tag);
                assert(self@ =~= before.with_tags(command@, items_view(ts@).push(Some(tag@))));
                Ok(())
            },
        }
    }

    /// Removes `command` entirely, or, with a tag, every tag of it equal to
    /// `tag`. Deleting a command that is not there changes nothing.
    pub fn delete(&mut self, command: &str, tag: Option<&str>) -> (r: Result<(), Error>)
        ensures
            mutated(*old(self), *final(self), r, delete_spec(old(self)@, command@, text_view(tag))),
            tag is None && !old(self)@.has(command@) ==> *final(self) == *old(self),
            old(self)@.wf() ==> final(self)@.wf(),
    {
        let ghost before = self@;
        match tag {
            None => {
                if has_command(&self.doc, command) {
                    remove_command(&mut self.doc, command);
                    proof {
                        if before.wf() {
                            lemma_remove_keeps_wf(before, command@);
                        }
                    }
                }
                Ok(())
            },
            Some(t) => match read_array(&self.doc, command, "tags") {
                None => Err(Error::Internal),
                Some(ts) => {
                    retain_strings(&mut self.doc, command, "tags", t);
                    assert(self@ =~= before.with_tags(command@, items_view(ts@).filter(kept_by(t@))));
                    Ok(())
                },
            },
        }
    }

    /// The tags of `command` in order; `None` where the command is absent.
    pub fn show(&self, command: &str) -> (r: Result<Option<Vec<String>>, Error>)
        ensures
            show_view(r) == show_spec(self@, command@),
    {
        if !has_command(&self.doc, command) {
            return Ok(None);
        }
        match read_array(&self.doc, command, "tags") {
            None => Err(Error::Internal),
            Some(ts) => match tag_texts(&ts) {
                Some(v) => Ok(Some(v)),
                None => Err(Error::Internal),
            },
        }
    }

    /// The commands having a tag that contains `sub`, each with all its tags,
    /// in document order.
    pub fn search(&self, sub: &str) -> (r: Result<Vec<Match>, Error>)
        ensures
            search_view(r) == search_spec(self@, sub@),
    {
        let ghost m = self@;
        let ghost p = |c: Seq<char>| m.matches(c, sub@);
        let ghost f = |c: Seq<char>| (c, texts(m.tags(c).unwrap()));
        let names = command_names(&self.doc);
        let mut out: Vec<Match> = Vec::new();
        let mut i: usize = 0;
        while i < names.len()
            invariant
                m == self@,
                strings_view(names@) == m.order,
                i <= names.len(),
                p == (|c: Seq<char>| m.matches(c, sub@)),
                f == (|c: Seq<char>| (c, texts(m.tags(c).unwrap()))),
                matches_view(out@) == m.order.take(i as int).filter(p).map_values(f),
                forall|k: int| 0 <= k < m.order.take(i as int).filter(p).len()
                    ==> all_text(#[trigger] m.tags(m.order.take(i as int).filter(p)[k]).unwrap()),
            decreases names.len() - i,
        {
            let ghost prefix = m.order.take(i as int);
            let ghost c = m.order[i as int];
            assert(m.order.take(i + 1) =~= prefix.push(c));
            proof {
                prefix.lemma_filter_push(c, p);
            }
            let name = &names[i];
            assert(name@ == c);
            match read_array(&self.doc, name.as_str(), "tags") {
                Some(ts) => {
                    if any_contains(&ts, sub) {
                        match tag_texts(&ts) {
                            Some(v) => {
                                let ghost before = out@;
                                out.push(Match { command: name.clone(), tags: v });
                                assert(matches_view(out@) =~= matches_view(before).push(f(c)));
                                assert(prefix.push(c).filter(p).map_values(f) =~= prefix.filter(p).map_values(f).push(f(c)));
                            },
                            None => {
                                proof {
                                    let rest = m.order.skip(i + 1);
                                    assert(m.order =~= prefix.push(c) + rest);
                                    Seq::filter_distributes_over_add(prefix.push(c), rest, p);
                                    let idx = prefix.filter(p).len() as int;
                                    assert(m.hits(sub@)[idx] == c);
                                }
                                return Err(Error::Internal);
                            },
                        }
                    } else {
                        assert(!p(c));
                    }
                },
                None => {
                    assert(!p(c));
                },
            }
            i = i + 1;
        }
        assert(m.order.take(i as int) =~= m.order);
        assert(m.hits(sub@) == m.order.filter(p));
        if out.len() == 0 {
            return Err(Error::TagNotFound);
        }
        Ok(out)
    }
}

} // verus!
