//! Automation: routing one entity's control output to parameters of others.
use crate::uid::Uid;
use std::collections::HashMap;
use vstd::prelude::*;

verus! {

broadcast use vstd::std_specs::hash::group_hash_axioms;

/// A human-readable description of the parameter being controlled. Not suitable
/// for end-user viewing, but it's good for debugging.
#[derive(Debug)]
pub struct ControlName(pub String);

/// A zero-based index of the entity parameter being controlled. The index is
/// specific to the entity type.
#[derive(Debug, Clone, Copy, PartialEq, Eq, Structural, Hash)]
pub struct ControlIndex(pub usize);

impl core::ops::Add<usize> for ControlIndex {
    type Output = Self;

    fn add(self, rhs: usize) -> (r: Self) {
        Self(self.0 + rhs)
    }
}

impl vstd::std_specs::ops::AddSpecImpl<usize> for ControlIndex {
    open spec fn obeys_add_spec() -> bool {
        true
    }

    open spec fn add_req(self, rhs: usize) -> bool {
        self.0 + rhs <= usize::MAX
    }

    open spec fn add_spec(self, rhs: usize) -> ControlIndex {
        ControlIndex((self.0 + rhs) as usize)
    }
}

/// Holds of every link except one to `target`'s parameter `index`.
pub open spec fn link_differs(target: Uid, index: ControlIndex) -> spec_fn((Uid, ControlIndex)) -> bool {
    |link: (Uid, ControlIndex)| !(link.0 == target && link.1 == index)
}

/// The links registered for `source` in `links`, or none.
pub open spec fn links_or_empty(
    links: Map<usize, Seq<(Uid, ControlIndex)>>,
    source: Uid,
) -> Seq<(Uid, ControlIndex)> {
    if links.contains_key(source.0) {
        links[source.0]
    } else {
        Seq::empty()
    }
}

/// Routes automation control events.
///
/// An entity that produces control events can be linked to one or more
/// parameters of other entities. When the source's value changes, each linked
/// target is told the new value.
#[derive(Debug)]
pub struct ControlRouter {
    uid_to_control: HashMap<usize, Vec<(Uid, ControlIndex)>>,
}

impl Default for ControlRouter {
    fn default() -> (r: Self)
        ensures
            r.links() == Map::<usize, Seq<(Uid, ControlIndex)>>::empty(),
    {
        let r = ControlRouter { uid_to_control: HashMap::new() };
        assert(r.links() =~= Map::<usize, Seq<(Uid, ControlIndex)>>::empty());
        r
    }
}

impl ControlRouter {
    /// For each source number with an entry, the links in the order they were made.
    pub closed spec fn links(&self) -> Map<usize, Seq<(Uid, ControlIndex)>> {
        self.uid_to_control@.map_values(|v: Vec<(Uid, ControlIndex)>| v@)
    }

    /// Takes the entry for `source` out of the map, or an empty one.
    fn take_entry(&mut self, source: Uid) -> (r: Vec<(Uid, ControlIndex)>)
        ensures
            r@ == links_or_empty(old(self).links(), source),
            final(self).links() == old(self).links().remove(source.0),
    {
        let r = match self.uid_to_control.remove(&source.0) {
            Some(v) => v,
            None => Vec::new(),
        };
        assert(self.links() =~= old(self).links().remove(source.0));
        r
    }

    /// Registers a link between a source entity and a controllable parameter
    /// of a target entity.
    pub fn link_control(&mut self, source_uid: Uid, target_uid: Uid, control_index: ControlIndex)
        ensures
            final(self).links() == old(self).links().insert(
                source_uid.0,
                links_or_empty(old(self).links(), source_uid).push((target_uid, control_index)),
            ),
    {
        let mut links = self.take_entry(source_uid);
        links.push((target_uid, control_index));
        let ghost mid = self.uid_to_control@;
        self.uid_to_control.insert(source_uid.0, links);
        proof {
            lemma_links_insert(mid, source_uid.0, links);
        }
        assert(self.links() =~= old(self).links().insert(
            source_uid.0,
            links_or_empty(old(self).links(), source_uid).push((target_uid, control_index)),
        ));
    }

    /// Removes every control link matching the source/target [Uid] and
    /// [ControlIndex]. The source keeps an entry, empty if nothing is left.
    pub fn unlink_control(&mut self, source_uid: Uid, target_uid: Uid, control_index: ControlIndex)
        ensures
            final(self).links() == old(self).links().insert(
                source_uid.0,
                links_or_empty(old(self).links(), source_uid).filter(
                    link_differs(target_uid, control_index),
                ),
            ),
    {
        let links = self.take_entry(source_uid);
        let ghost pred = link_differs(target_uid, control_index);
        let mut kept: Vec<(Uid, ControlIndex)> = Vec::new();
        let n = links.len();
        let mut i: usize = 0;
        while i < n
            invariant
                n == links@.len(),
                i <= n,
                pred == link_differs(target_uid, control_index),
                kept@ == links@.take(i as int).filter(pred),
            decreases n - i,
        {
            let link = links[i];
            if !(link.0 == target_uid && link.1 == control_index) {
                kept.push(link);
            }
            proof {
                reveal_with_fuel(Seq::filter, 1);
                assert(links@.take(i + 1).drop_last() =~= links@.take(i as int));
                assert(links@.take(i + 1).last() == link);
            }
            i = i + 1;
        }
        assert(links@.take(n as int) =~= links@);
        let ghost mid = self.uid_to_control@;
        self.uid_to_control.insert(source_uid.0, kept);
        proof {
            lemma_links_insert(mid, source_uid.0, kept);
        }
        assert(self.links() =~= old(self).links().insert(
            source_uid.0,
            links_or_empty(old(self).links(), source_uid).filter(pred),
        ));
    }

    /// Returns all the control links for a given entity.
    pub fn control_links(&self, source_uid: Uid) -> (r: Option<&Vec<(Uid, ControlIndex)>>)
        ensures
            match r {
                Some(v) => self.links().contains_key(source_uid.0) && v@ == self.links()[source_uid.0],
                None => !self.links().contains_key(source_uid.0),
            },
    {
        self.uid_to_control.get(&source_uid.0)
    }
}

/// Inserting a vector into the map inserts its contents into the links.
proof fn lemma_links_insert(
    m: Map<usize, Vec<(Uid, ControlIndex)>>,
    k: usize,
    v: Vec<(Uid, ControlIndex)>,
)
    ensures
        m.insert(k, v).map_values(|v: Vec<(Uid, ControlIndex)>| v@) == m.map_values(
            |v: Vec<(Uid, ControlIndex)>| v@,
        ).insert(k, v@),
{
    assert(m.insert(k, v).map_values(|v: Vec<(Uid, ControlIndex)>| v@) =~= m.map_values(
        |v: Vec<(Uid, ControlIndex)>| v@,
    ).insert(k, v@));
}

/// Linking and then unlinking the same target parameter leaves no link from
/// the source to that parameter, and keeps every other link of the source in
/// order.
pub proof fn lemma_unlink_removes_link(
    links: Seq<(Uid, ControlIndex)>,
    target: Uid,
    index: ControlIndex,
)
    ensures
        !links.push((target, index)).filter(link_differs(target, index)).contains((target, index)),
        links.push((target, index)).filter(link_differs(target, index)) == links.filter(
            link_differs(target, index),
        ),
{
    let pred = link_differs(target, index);
    let pushed = links.push((target, index));
    reveal_with_fuel(Seq::filter, 1);
    assert(pushed.drop_last() =~= links);
    if pushed.filter(pred).contains((target, index)) {
        let i = choose|i: int| 0 <= i < pushed.filter(pred).len() && pushed.filter(pred)[i] == (target, index);
        pushed.lemma_filter_pred(pred, i);
    }
}

} // verus!
