//! Sets of runner pod names.
use vstd::hash_set::StringHashSet;
use vstd::prelude::*;

verus! {

/// The texts that occur in `names`.
pub open spec fn texts(names: Seq<String>) -> Set<Seq<char>> {
    Set::new(|n: Seq<char>| exists|i: int| 0 <= i < names.len() && #[trigger] names[i]@ == n)
}

/// The set of the given names.
pub fn name_set(names: Vec<String>) -> (r: StringHashSet)
    ensures
        r@ == texts(names@),
        r@.finite(),
{
    let mut set = StringHashSet::new();
    let len: usize = names.len();
    for i in 0..len
        invariant
            len == names@.len(),
            set@ == texts(names@.take(i as int)),
            set@.finite(),
    {
        let ghost before = set@;
        set.insert(names[i].clone());
        proof {
            let taken = names@.take(i + 1);
            assert(taken[i as int] == names@[i as int]);
            assert forall|n: Seq<char>| set@.contains(n) <==> texts(taken).contains(n) by {
                if before.contains(n) {
                    let j = choose|j: int| 0 <= j < i && #[trigger] names@.take(i as int)[j]@ == n;
                    assert(taken[j]@ == n);
                }
                if texts(taken).contains(n) {
                    let j = choose|j: int| 0 <= j < i + 1 && #[trigger] taken[j]@ == n;
                    if j < i {
                        assert(names@.take(i as int)[j]@ == n);
                    }
                }
            }
            assert(set@ =~= texts(taken));
        }
    }
    assert(names@.take(len as int) =~= names@);
    set
}

/// A set of names holds each of the names, and nothing else.
pub proof fn name_sets_hold_the_names(names: Seq<String>, name: Seq<char>)
    ensures
        texts(names).contains(name) <==> names.map_values(|n: String| n@).contains(name),
{
    let plain = names.map_values(|n: String| n@);
    if texts(names).contains(name) {
        let i = choose|i: int| 0 <= i < names.len() && #[trigger] names[i]@ == name;
        assert(plain[i] == name);
    }
    if plain.contains(name) {
        let i = choose|i: int| 0 <= i < plain.len() && plain[i] == name;
        assert(names[i]@ == name);
    }
}

} // verus!
