//! Lists that are made of another list, item by item, some items being passed over.
use vstd::prelude::*;

verus! {

/// Whether a list is made of another one: `places` go up and are just those of the items that `made`
/// makes something of, and what it makes of them is the list.
pub open spec fn is_made_of<A, B>(
    all: Seq<A>,
    made: spec_fn(A) -> Option<B>,
    list: Seq<B>,
    places: Seq<int>,
) -> bool {
    &&& list.len() == places.len()
    &&& forall|i: int| 0 <= i < places.len() ==> 0 <= #[trigger] places[i] < all.len()
    &&& forall|i: int, j: int| 0 <= i < j < places.len() ==> places[i] < places[j]
    &&& forall|i: int| 0 <= i < list.len() ==> made(all[places[i]]) == Some(#[trigger] list[i])
    &&& forall|k: int|
        0 <= k < all.len() && made(#[trigger] all[k]) is Some ==> places.contains(k)
}

/// A list of nothing is made of nothing.
pub proof fn lemma_made_of_none<A, B>(all: Seq<A>, made: spec_fn(A) -> Option<B>)
    requires
        all.len() == 0,
    ensures
        is_made_of(all, made, Seq::<B>::empty(), Seq::<int>::empty()),
{
}

/// What is made of a list is what is made of all but its last item, and of that one.
pub proof fn lemma_made_of_one_more<A, B>(
    all: Seq<A>,
    made: spec_fn(A) -> Option<B>,
    list: Seq<B>,
    places: Seq<int>,
)
    requires
        all.len() > 0,
        is_made_of(all.drop_last(), made, list, places),
    ensures
        match made(all.last()) {
            Some(b) => is_made_of(all, made, list.push(b), places.push(all.len() - 1)),
            None => is_made_of(all, made, list, places),
        },
{
    let fewer = all.drop_last();
    assert(forall|k: int| 0 <= k < fewer.len() ==> fewer[k] == #[trigger] all[k]);
    match made(all.last()) {
        Some(b) => {
            let more = places.push(all.len() - 1);
            assert(more[places.len() as int] == all.len() - 1);
            assert forall|k: int| 0 <= k < all.len() && made(#[trigger] all[k]) is Some implies more.contains(
                k,
            ) by {
                if k < fewer.len() {
                    assert(made(fewer[k]) is Some);
                    let i = choose|i: int| 0 <= i < places.len() && places[i] == k;
                    assert(more[i] == k);
                }
            }
            let longer = list.push(b);
            assert forall|i: int| 0 <= i < longer.len() implies made(all[more[i]]) == Some(
                #[trigger] longer[i],
            ) by {
                if i < list.len() {
                    assert(longer[i] == list[i] && more[i] == places[i]);
                    assert(0 <= places[i] < fewer.len());
                    assert(made(fewer[places[i]]) == Some(list[i]));
                }
            }
        },
        None => {
            assert forall|k: int| 0 <= k < all.len() && made(#[trigger] all[k]) is Some implies places.contains(
                k,
            ) by {
                assert(made(fewer[k]) is Some);
            }
            assert forall|i: int| 0 <= i < list.len() implies made(all[places[i]]) == Some(
                #[trigger] list[i],
            ) by {
                assert(0 <= places[i] < fewer.len());
                assert(made(fewer[places[i]]) == Some(list[i]));
            }
        },
    }
}

} // verus!
