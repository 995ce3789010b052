//! An index of names: a hash table that finds a name among many without
//! looking at them all.

use vstd::prelude::*;
use vstd::utf8::encode_utf8;
use crate::namespace::{
    duplicate_from, earlier, first_duplicate, index_of, lemma_earlier_hit, lemma_earlier_miss,
    lemma_index_of_first, lemma_index_of_found, lemma_index_of_hit, lemma_index_of_miss,
    lemma_index_of_none,
};
use crate::syntax::views;
use crate::text::same_text;

verus! {

/// The hash of the first `n` bytes.
pub open spec fn hash_from(bytes: Seq<u8>, n: int) -> u64
    decreases n,
{
    if n <= 0 {
        5381
    } else {
        ((hash_from(bytes, n - 1) * 31 + bytes[n - 1]) % 1_000_000_007) as u64
    }
}

/// The hash of a name: that of the bytes that encode it.
pub open spec fn hash(name: Seq<char>) -> u64 {
    hash_from(encode_utf8(name), encode_utf8(name).len() as int)
}

/// The bucket, of `count`, that `name` belongs to.
pub open spec fn slot(name: Seq<char>, count: int) -> int {
    hash(name) as int % count
}

proof fn lemma_hash_bound(bytes: Seq<u8>, n: int)
    ensures
        hash_from(bytes, n) < 1_000_000_007,
    decreases n,
{
    if n > 0 {
        lemma_hash_bound(bytes, n - 1);
    }
}

/// The hash of `name`.
pub fn hash_of(name: &str) -> (h: u64)
    ensures
        h == hash(name@),
{
    let bytes = name.as_bytes();
    let mut h: u64 = 5381;
    let mut i: usize = 0;
    while i < bytes.len()
        invariant
            i <= bytes@.len(),
            h == hash_from(bytes@, i as int),
            h < 1_000_000_007,
        decreases bytes@.len() - i,
    {
        h = (h * 31 + bytes[i] as u64) % 1_000_000_007;
        i += 1;
    }
    h
}

/// The bucket, of `count`, that `name` belongs to.
fn slot_of(name: &str, count: usize) -> (b: usize)
    requires
        count > 0,
    ensures
        b == slot(name@, count as int),
        b < count,
{
    (hash_of(name) % (count as u64)) as usize
}

/// An index of names. Each name is known by its place among the names, and
/// the place of each is kept in the bucket that its hash chooses.
#[derive(Debug)]
pub struct NameIndex {
    names: Vec<String>,
    buckets: Vec<Vec<usize>>,
}

impl NameIndex {
    /// The names, in order.
    pub closed spec fn names(&self) -> Seq<Seq<char>> {
        views(self.names@)
    }

    #[verifier::type_invariant]
    spec fn inv(&self) -> bool {
        filed(self.names(), self.buckets@)
    }

    /// An index of `names`.
    pub fn new(names: Vec<String>) -> (index: NameIndex)
        ensures
            index.names() == views(names@),
    {
        let n = names.len();
        let count = if n == 0 {
            1
        } else {
            n
        };
        let mut buckets: Vec<Vec<usize>> = Vec::new();
        let mut b: usize = 0;
        while b < count
            invariant
                b <= count,
                buckets@.len() == b,
                forall|k: int| 0 <= k < b ==> (#[trigger] buckets@[k])@.len() == 0,
            decreases count - b,
        {
            buckets.push(Vec::new());
            b += 1;
        }
        let mut i: usize = 0;
        while i < n
            invariant
                n == names@.len(),
                count > 0,
                i <= n,
                buckets@.len() == count,
                forall|b: int, k: int|
                    0 <= b < count && 0 <= k < buckets@[b]@.len() ==> #[trigger] buckets@[b]@[k]
                        < i,
                forall|b: int, k: int, m: int|
                    0 <= b < count && 0 <= k < m < buckets@[b]@.len() ==> #[trigger] buckets@[b]@[k]
                        < #[trigger] buckets@[b]@[m],
                forall|j: int|
                    0 <= j < i ==> buckets@[slot(#[trigger] views(names@)[j], count as int)]@.contains(
                        j as usize,
                    ),
            decreases n - i,
        {
            let at = slot_of(names[i].as_str(), count);
            let ghost before = buckets@;
            buckets[at].push(i);
            proof {
                assert forall|j: int| 0 <= j <= i implies buckets@[slot(
                    #[trigger] views(names@)[j],
                    count as int,
                )]@.contains(j as usize) by {
                    let s = slot(views(names@)[j], count as int);
                    if j == i {
                        assert(views(names@)[j] == names@[j]@);
                        assert(buckets@[at as int]@[before[at as int]@.len() as int] == i);
                    } else {
                        let k = choose|k: int|
                            0 <= k < before[s]@.len() && before[s]@[k] == j as usize;
                        assert(buckets@[s]@[k] == j as usize);
                    }
                }
            }
            i += 1;
        }
        NameIndex { names, buckets }
    }

    /// The name at place `i`.
    pub fn name_at(&self, i: usize) -> (name: &String)
        requires
            i < self.names().len(),
        ensures
            name@ == self.names()[i as int],
    {
        &self.names[i]
    }

    /// Looks for two equal names: the first name that repeats an earlier
    /// one, and the first that it repeats.
    pub fn find_duplicate(&self) -> (r: Option<(usize, usize)>)
        ensures
            r == first_duplicate(self.names()),
            r matches Some((i, j)) ==> i < j < self.names().len() && self.names()[i as int]
                == self.names()[j as int],
    {
        let ghost names = self.names();
        let mut j: usize = 0;
        while j < self.names.len()
            invariant
                names == self.names(),
                names == views(self.names@),
                j <= self.names@.len(),
                first_duplicate(names) == duplicate_from(names, j as int),
            decreases self.names@.len() - j,
        {
            proof {
                assert(self.names@.len() == self.names.len());
                assert(names[j as int] == self.names@[j as int]@);
                lemma_index_of_found(names, names[j as int], 0);
                lemma_index_of_first(names, names[j as int], 0);
            }
            match self.find(self.names[j].as_str()) {
                Some(i) => {
                    if i < j {
                        proof {
                            lemma_earlier_hit(names, j as int, i as int, 0);
                        }
                        return Some((i, j));
                    }
                    proof {
                        lemma_earlier_miss(names, j as int, 0);
                    }
                },
                None => {
                    proof {
                        lemma_index_of_none(names, names[j as int], 0);
                        assert(false);
                    }
                },
            }
            j += 1;
        }
        None
    }

    /// The place of `name` among the names. Where several names equal it,
    /// the place of the first.
    pub fn find(&self, name: &str) -> (r: Option<usize>)
        ensures
            r == index_of(self.names(), name@, 0),
            r matches Some(i) ==> i < self.names().len() && self.names()[i as int] == name@,
    {
        proof {
            use_type_invariant(self);
        }
        assert(self.names@.len() == self.names.len());
        let at = slot_of(name, self.buckets.len());
        let bucket = &self.buckets[at];
        let mut k: usize = 0;
        while k < bucket.len()
            invariant
                filed(self.names(), self.buckets@),
                self.names() == views(self.names@),
                at == slot(name@, self.buckets@.len() as int),
                bucket == &self.buckets@[at as int],
                k <= bucket@.len(),
                self.names().len() <= usize::MAX,
                forall|m: int| 0 <= m < k ==> self.names()[bucket@[m] as int] != name@,
            decreases bucket@.len() - k,
        {
            let i = bucket[k];
            assert(self.names()[i as int] == self.names@[i as int]@);
            if same_text(self.names[i].as_str(), name) {
                proof {
                    assert forall|j: int| 0 <= j < i implies self.names()[j] != name@ by {
                        if self.names()[j] == name@ {
                            assert(bucket@.contains(j as usize));
                            let m = choose|m: int|
                                0 <= m < bucket@.len() && bucket@[m] == j as usize;
                            if m >= k {
                                assert(m > k ==> bucket@[k as int] < bucket@[m]);
                            } else {
                                assert(self.names()[bucket@[m] as int] != name@);
                            }
                        }
                    }
                    lemma_index_of_hit(self.names(), name@, i as int, 0);
                }
                return Some(i);
            }
            k += 1;
        }
        proof {
            assert forall|i: int| 0 <= i < self.names().len() implies self.names()[i] != name@ by {
                if self.names()[i] == name@ {
                    assert(bucket@.contains(i as usize));
                    let m = choose|m: int| 0 <= m < bucket@.len() && bucket@[m] == i as usize;
                    assert(self.names()[bucket@[m] as int] != name@);
                }
            }
            lemma_index_of_miss(self.names(), name@, 0);
        }
        None
    }
}

/// Whether the buckets hold the places of the names: every place in a
/// bucket is the place of a name, the places in a bucket rise, and the place
/// of every name is in the bucket that the name belongs to.
pub open spec fn filed(names: Seq<Seq<char>>, buckets: Seq<Vec<usize>>) -> bool {
    &&& buckets.len() > 0
    &&& forall|b: int, k: int|
        0 <= b < buckets.len() && 0 <= k < buckets[b]@.len() ==> #[trigger] buckets[b]@[k]
            < names.len()
    &&& forall|b: int, k: int, m: int|
        0 <= b < buckets.len() && 0 <= k < m < buckets[b]@.len() ==> #[trigger] buckets[b]@[k]
            < #[trigger] buckets[b]@[m]
    &&& forall|j: int|
        0 <= j < names.len() ==> buckets[slot(#[trigger] names[j], buckets.len() as int)]@.contains(
            j as usize,
        )
}

} // verus!
