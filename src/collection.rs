//! Ordered collections used as sets: entries are told apart by an identity field only.
use vstd::prelude::*;

verus! {

/// An entry whose identity is one of its string fields.
pub trait Keyed {
    spec fn identity(&self) -> Seq<char>;

    fn identity_ref(&self) -> (r: &String)
        ensures
            r@ == self.identity(),
    ;
}

/// Some entry of `s` has identity `id`.
pub open spec fn has_identity<T: Keyed>(s: Seq<T>, id: Seq<char>) -> bool {
    exists|i: int| 0 <= i < s.len() && #[trigger] s[i].identity() == id
}

/// `i` is the first position of `s` whose entry has identity `id`.
pub open spec fn is_first_with<T: Keyed>(s: Seq<T>, id: Seq<char>, i: int) -> bool {
    &&& 0 <= i < s.len()
    &&& s[i].identity() == id
    &&& forall|j: int| 0 <= j < i ==> #[trigger] s[j].identity() != id
}

/// The first position of `s` whose entry has identity `id` (meaningful when there is one).
pub open spec fn first_with<T: Keyed>(s: Seq<T>, id: Seq<char>) -> int {
    choose|i: int| is_first_with(s, id, i)
}

/// `s` after adding `item`: appended when no entry shares its identity, otherwise unchanged.
pub open spec fn with_added<T: Keyed>(s: Seq<T>, item: T) -> Seq<T> {
    if has_identity(s, item.identity()) {
        s
    } else {
        s.push(item)
    }
}

/// `s` after removing the first entry with identity `id`; unchanged when there is none.
pub open spec fn with_removed<T: Keyed>(s: Seq<T>, id: Seq<char>) -> Seq<T> {
    if has_identity(s, id) {
        s.remove(first_with(s, id))
    } else {
        s
    }
}

/// No two entries of `s` share an identity.
pub open spec fn identities_unique<T: Keyed>(s: Seq<T>) -> bool {
    forall|i: int, j: int|
        0 <= i < j < s.len() ==> #[trigger] s[i].identity() != #[trigger] s[j].identity()
}

/// `s` after adding each of `items` in turn.
pub open spec fn after_adds<T: Keyed>(s: Seq<T>, items: Seq<T>) -> Seq<T>
    decreases items.len(),
{
    if items.len() == 0 {
        s
    } else {
        with_added(after_adds(s, items.drop_last()), items.last())
    }
}

pub proof fn lemma_first_with_is_first<T: Keyed>(s: Seq<T>, id: Seq<char>, i: int)
    requires
        is_first_with(s, id, i),
    ensures
        first_with(s, id) == i,
{
    let k = first_with(s, id);
    assert(is_first_with(s, id, k));
    if k < i {
        assert(s[k].identity() != id);
    } else if i < k {
        assert(s[i].identity() != id);
    }
}

/// The first position in `v` of an entry with identity `id`, if any.
pub fn position_of<T: Keyed>(v: &Vec<T>, id: &String) -> (r: Option<usize>)
    ensures
        match r {
            Some(i) => is_first_with(v@, id@, i as int),
            None => !has_identity(v@, id@),
        },
{
    let mut i: usize = 0;
    while i < v.len()
        invariant
            i <= v@.len(),
            forall|j: int| 0 <= j < i ==> #[trigger] v@[j].identity() != id@,
        decreases v@.len() - i,
    {
        let key: &String = v[i].identity_ref();
        if key.eq(id) {
            return Some(i);
        }
        i = i + 1;
    }
    None
}

/// Appends `item` unless an entry with the same identity is already present.
pub fn add_unique<T: Keyed>(v: &mut Vec<T>, item: T)
    ensures
        final(v)@ == with_added(old(v)@, item),
{
    let pos = position_of(v, item.identity_ref());
    if pos.is_none() {
        v.push(item);
    }
}

/// Removes the first entry with identity `id`, if there is one.
pub fn remove_identity<T: Keyed>(v: &mut Vec<T>, id: &String)
    ensures
        final(v)@ == with_removed(old(v)@, id@),
{
    let pos = position_of(v, id);
    match pos {
        Some(i) => {
            proof {
                lemma_first_with_is_first(v@, id@, i as int);
            }
            v.remove(i);
        },
        None => {},
    }
}

/// Adding keeps identities unique, and the added identity is then present.
pub proof fn lemma_add_keeps_unique<T: Keyed>(s: Seq<T>, item: T)
    requires
        identities_unique(s),
    ensures
        identities_unique(with_added(s, item)),
        has_identity(with_added(s, item), item.identity()),
        forall|id: Seq<char>|
            has_identity(#[trigger] with_added(s, item), id) <==> (has_identity(s, id) || id
                == item.identity()),
{
    let r = with_added(s, item);
    if !has_identity(s, item.identity()) {
        assert(r[s.len() as int] == item);
        assert forall|id: Seq<char>| has_identity(r, id) implies (has_identity(s, id) || id
            == item.identity()) by {
            let i = choose|i: int| 0 <= i < r.len() && #[trigger] r[i].identity() == id;
            if i < s.len() {
                assert(s[i] == r[i]);
            }
        }
        assert forall|id: Seq<char>| has_identity(s, id) implies has_identity(r, id) by {
            let i = choose|i: int| 0 <= i < s.len() && #[trigger] s[i].identity() == id;
            assert(r[i] == s[i]);
        }
    }
}

/// A sequence of adds leaves exactly one entry per distinct identity among the added items.
pub proof fn lemma_adds_one_entry_per_identity<T: Keyed>(items: Seq<T>)
    ensures
        identities_unique(after_adds(Seq::<T>::empty(), items)),
        forall|id: Seq<char>|
            has_identity(#[trigger] after_adds(Seq::<T>::empty(), items), id) <==> has_identity(
                items,
                id,
            ),
    decreases items.len(),
{
    if items.len() > 0 {
        let prev = items.drop_last();
        lemma_adds_one_entry_per_identity(prev);
        let s = after_adds(Seq::<T>::empty(), prev);
        lemma_add_keeps_unique(s, items.last());
        assert forall|id: Seq<char>|
            has_identity(#[trigger] after_adds(Seq::<T>::empty(), items), id) <==> has_identity(
                items,
                id,
            ) by {
            assert(has_identity(with_added(s, items.last()), id) <==> (has_identity(s, id) || id
                == items.last().identity()));
            if has_identity(items, id) {
                let i = choose|i: int| 0 <= i < items.len() && #[trigger] items[i].identity() == id;
                if i < items.len() - 1 {
                    assert(prev[i] == items[i]);
                }
            }
            if has_identity(prev, id) {
                let i = choose|i: int| 0 <= i < prev.len() && #[trigger] prev[i].identity() == id;
                assert(items[i] == prev[i]);
            }
            if id == items.last().identity() {
                assert(items[items.len() - 1].identity() == id);
            }
        }
    }
}

/// Adding an item whose identity is already present changes nothing: the entry there keeps its
/// other fields.
pub proof fn lemma_readd_keeps_entry<T: Keyed>(s: Seq<T>, item: T)
    requires
        has_identity(s, item.identity()),
    ensures
        with_added(s, item) == s,
{
}

/// Removing an identity that is not present changes nothing.
pub proof fn lemma_remove_absent_is_noop<T: Keyed>(s: Seq<T>, id: Seq<char>)
    requires
        !has_identity(s, id),
    ensures
        with_removed(s, id) == s,
{
}

} // verus!
