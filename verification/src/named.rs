//! Lists of named things, read as maps: of two things of one name the later one counts.

use vstd::prelude::*;

verus! {

/// The map that comes of inserting the pairs of `es` one after the other.
pub open spec fn map_of<V>(es: Seq<(Seq<char>, V)>) -> Map<Seq<char>, V>
    decreases es.len(),
{
    if es.len() == 0 {
        Map::empty()
    } else {
        map_of(es.drop_last()).insert(es.last().0, es.last().1)
    }
}

/// The last pair of a name is what the map holds under it.
pub proof fn lemma_map_of_last<V>(es: Seq<(Seq<char>, V)>, name: Seq<char>, i: int)
    requires
        0 <= i < es.len(),
        es[i].0 == name,
        forall|j: int| i < j < es.len() ==> (#[trigger] es[j]).0 != name,
    ensures
        map_of(es).contains_key(name),
        map_of(es)[name] == es[i].1,
    decreases es.len(),
{
    if i < es.len() - 1 {
        assert(es[es.len() - 1].0 != name);
        let front = es.drop_last();
        assert forall|j: int| i < j < front.len() implies (#[trigger] front[j]).0 != name by {
            assert(front[j] == es[j]);
        }
        lemma_map_of_last(front, name, i);
    }
}

/// A name that no pair has is not in the map.
pub proof fn lemma_map_of_none<V>(es: Seq<(Seq<char>, V)>, name: Seq<char>)
    requires
        forall|j: int| 0 <= j < es.len() ==> (#[trigger] es[j]).0 != name,
    ensures
        !map_of(es).contains_key(name),
    decreases es.len(),
{
    if es.len() > 0 {
        assert(es[es.len() - 1].0 != name);
        let front = es.drop_last();
        assert forall|j: int| 0 <= j < front.len() implies (#[trigger] front[j]).0 != name by {
            assert(front[j] == es[j]);
        }
        lemma_map_of_none(front, name);
    }
}

} // verus!
