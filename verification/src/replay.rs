use vstd::prelude::*;
use crate::feed::FeedItem;

verus! {

/// The most a single catch-up request may ask for; larger requests are
/// clamped to this ceiling, not rejected.
pub const MAX_REPLAY_COUNT: u64 = 100;

/// Serves a catch-up request: the `count` most recent events of the store,
/// oldest first. The store is chronological (oldest first), so the result is
/// exactly its last entries, in store order. Asking for zero, or asking an
/// empty store, yields no events and no error; asking for more than the
/// store holds yields the whole store.
pub fn select_replay(store: &Vec<FeedItem>, count: u64) -> (r: Vec<FeedItem>)
    ensures
        r@ == store@.skip(
            store@.len() - vstd::math::min(count as int, store@.len() as int),
        ),
        count == 0 ==> r@ == Seq::<FeedItem>::empty(),
        store@.len() == 0 ==> r@ == Seq::<FeedItem>::empty(),
        count <= store@.len() ==> r@.len() == count,
        count >= store@.len() ==> r@ == store@,
{
    let n = store.len();
    let k: usize = if count >= n as u64 {
        n
    } else {
        count as usize
    };
    let mut r: Vec<FeedItem> = Vec::new();
    let mut i: usize = n - k;
    while i < n
        invariant
            n == store@.len(),
            k <= n,
            n - k <= i <= n,
            r@ == store@.subrange(n - k, i as int),
        decreases n - i,
    {
        r.push(store[i].clone());
        proof {
            assert(r@ =~= store@.subrange(n - k, i + 1));
        }
        i = i + 1;
    }
    proof {
        assert(r@ =~= store@.skip(
            store@.len() - vstd::math::min(count as int, store@.len() as int),
        ));
        if count >= store@.len() {
            assert(r@ =~= store@);
        }
        if count == 0 || store@.len() == 0 {
            assert(r@ =~= Seq::<FeedItem>::empty());
        }
    }
    r
}

} // verus!
