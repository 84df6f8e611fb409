//! Laws that relate the registry operations to one another.
use vstd::prelude::*;
use crate::document::{kept_by, other_than};
use crate::error::Error;
use crate::registry::{
    add_spec, all_text, delete_spec, holds_tag, lemma_filter_no_duplicates, modify_spec,
    search_spec, show_spec, texts, RegistryModel, TagList,
};

verus! {

broadcast use vstd::seq_lib::group_filter_ensures;

/// Adding a tag to a command that is not yet in the database creates the
/// command with exactly that one tag, as its last entry.
pub proof fn add_creates_command(m: RegistryModel, c: Seq<char>, t: Seq<char>)
    requires
        !m.has(c),
    ensures
        add_spec(m, c, t) is Ok,
        add_spec(m, c, t)->Ok_0.tags(c) == Some(seq![Some(t)]),
        add_spec(m, c, t)->Ok_0.order == m.order.push(c),
{
}

/// Adding the same tag to the same command a second time fails with
/// `DuplicateTag`; the operation then leaves the registry as it was.
pub proof fn add_twice_is_duplicate(m: RegistryModel, c: Seq<char>, t: Seq<char>)
    requires
        add_spec(m, c, t) is Ok,
    ensures
        add_spec(add_spec(m, c, t)->Ok_0, c, t) == Err::<RegistryModel, Error>(Error::DuplicateTag),
{
    let m1 = add_spec(m, c, t)->Ok_0;
    if !m.has(c) {
        assert(m1.order[m.order.len() as int] == c);
    }
    assert(m1.has(c));
    let ts = m1.tags(c).unwrap();
    assert(ts[ts.len() - 1] == Some(t));
    assert(holds_tag(ts, t));
}

/// Deleting a command after adding a tag to it removes the command
/// entirely, and showing it afterwards yields nothing.
pub proof fn delete_after_add_removes(m: RegistryModel, c: Seq<char>, t: Seq<char>)
    requires
        add_spec(m, c, t) is Ok,
    ensures
        delete_spec(add_spec(m, c, t)->Ok_0, c, None) is Ok,
        !delete_spec(add_spec(m, c, t)->Ok_0, c, None)->Ok_0.has(c),
        delete_spec(add_spec(m, c, t)->Ok_0, c, None)->Ok_0.tags(c) is None,
        show_spec(delete_spec(add_spec(m, c, t)->Ok_0, c, None)->Ok_0, c) == Ok::<
            Option<Seq<Seq<char>>>,
            Error,
        >(None),
{
    let m1 = add_spec(m, c, t)->Ok_0;
    if !m.has(c) {
        assert(m1.order[m.order.len() as int] == c);
    }
    assert(m1.has(c));
    let m2 = delete_spec(m1, c, None)->Ok_0;
    assert forall|i: int| 0 <= i < m2.order.len() implies m2.order[i] != c by {
        m1.order.lemma_filter_pred(other_than(c), i);
    }
}

/// Deleting a command that is not in the database leaves it as it was.
pub proof fn delete_absent_changes_nothing(m: RegistryModel, c: Seq<char>)
    requires
        !m.has(c),
    ensures
        delete_spec(m, c, None) == Ok::<RegistryModel, Error>(m),
{
}

/// Deleting one tag of a command removes every copy of that tag and
/// nothing else: the remaining tags keep their order and values, and the
/// other commands are untouched.
pub proof fn delete_tag_keeps_others(m: RegistryModel, c: Seq<char>, t: Seq<char>)
    requires
        m.tags(c) is Some,
    ensures
        delete_spec(m, c, Some(t)) is Ok,
        delete_spec(m, c, Some(t))->Ok_0.tags(c) == Some(m.tags(c).unwrap().filter(kept_by(t))),
        !holds_tag(delete_spec(m, c, Some(t))->Ok_0.tags(c).unwrap(), t),
        delete_spec(m, c, Some(t))->Ok_0.order == m.order,
        forall|n: Seq<char>| n != c ==> #[trigger] delete_spec(m, c, Some(t))->Ok_0.tags(n) == m.tags(n),
{
    let kept: TagList = m.tags(c).unwrap().filter(kept_by(t));
    assert forall|i: int| 0 <= i < kept.len() implies #[trigger] kept[i] != Some(t) by {
        m.tags(c).unwrap().lemma_filter_pred(kept_by(t), i);
    }
}

/// Modifying a command that is not in the database fails with
/// `CommandNotFound`; the operation then leaves the registry as it was.
pub proof fn modify_absent_fails(m: RegistryModel, c: Seq<char>, t: Seq<char>)
    requires
        !m.has(c),
    ensures
        modify_spec(m, c, t) == Err::<RegistryModel, Error>(Error::CommandNotFound),
{
}

/// Where some command has a tag containing `sub` and every such command's
/// tags are all strings, a search succeeds and returns exactly the commands
/// having a tag that contains `sub`, each once, in document order, each with
/// all of its tags.
pub proof fn search_is_exact(m: RegistryModel, sub: Seq<char>)
    requires
        m.wf(),
        exists|c: Seq<char>| m.order.contains(c) && #[trigger] m.matches(c, sub),
        forall|c: Seq<char>| m.order.contains(c) && #[trigger] m.matches(c, sub) ==> all_text(m.tags(c).unwrap()),
    ensures
        search_spec(m, sub) is Ok,
        forall|c: Seq<char>|
            (exists|i: int| 0 <= i < search_spec(m, sub)->Ok_0.len() && #[trigger] search_spec(m, sub)->Ok_0[i].0 == c)
                <==> (m.order.contains(c) && m.matches(c, sub)),
        forall|i: int, j: int|
            0 <= i < j < search_spec(m, sub)->Ok_0.len() ==> search_spec(m, sub)->Ok_0[i].0 != search_spec(m, sub)->Ok_0[j].0,
        forall|i: int|
            0 <= i < search_spec(m, sub)->Ok_0.len() ==> #[trigger] search_spec(m, sub)->Ok_0[i].1 == texts(
                m.tags(search_spec(m, sub)->Ok_0[i].0).unwrap(),
            ),
{
    let p = |n: Seq<char>| m.matches(n, sub);
    let hits = m.hits(sub);
    assert(hits == m.order.filter(p));
    let c0 = choose|c: Seq<char>| m.order.contains(c) && #[trigger] m.matches(c, sub);
    let j0 = choose|j: int| 0 <= j < m.order.len() && m.order[j] == c0;
    m.order.lemma_filter_contains(p, j0);
    assert(hits.len() > 0);
    assert forall|i: int| 0 <= i < hits.len() implies all_text(#[trigger] m.tags(hits[i]).unwrap()) by {
        m.order.lemma_filter_pred(p, i);
        assert(hits.contains(hits[i]));
        m.order.lemma_filter_contains_rev(p, hits[i]);
    }
    let r = search_spec(m, sub)->Ok_0;
    lemma_filter_no_duplicates(m.order, p);
    assert forall|c: Seq<char>|
        (exists|i: int| 0 <= i < r.len() && #[trigger] r[i].0 == c) <==> (m.order.contains(c) && m.matches(c, sub)) by {
        if exists|i: int| 0 <= i < r.len() && #[trigger] r[i].0 == c {
            let i = choose|i: int| 0 <= i < r.len() && #[trigger] r[i].0 == c;
            assert(r[i].0 == hits[i]);
            assert(hits.contains(c));
            m.order.lemma_filter_contains_rev(p, c);
            m.order.lemma_filter_pred(p, i);
        }
        if m.order.contains(c) && m.matches(c, sub) {
            let j = choose|j: int| 0 <= j < m.order.len() && m.order[j] == c;
            m.order.lemma_filter_contains(p, j);
            let k = choose|k: int| 0 <= k < hits.len() && hits[k] == c;
            assert(r[k].0 == c);
        }
    }
    assert forall|i: int, j: int| 0 <= i < j < r.len() implies r[i].0 != r[j].0 by {
        assert(r[i].0 == hits[i] && r[j].0 == hits[j]);
    }
}

} // verus!
