//! Laws that tie the library's operations together, stated over the
//! same spec functions that the operations' contracts use.

use vstd::prelude::*;
use crate::objects::Object;
use crate::traits::{Trait, TraitData};

verus! {

/// Round trip: `Object::add_trait(t)` establishes
/// `traits.spec_get(t.name@) == Some(t)`, and `Object::get_trait` on
/// `t.name()` then returns exactly the trait that `spec_get` holds — so
/// the trait read back carries exactly the data that was added.
pub proof fn lemma_add_trait_get_trait_round_trip(post: Object, t: Trait)
    requires
        post.traits.spec_get(t.name@) == Some(t),
    ensures
        post.traits.has_key(t.name@),
        post.traits.spec_get(t.name@) matches Some(found) && found.data == t.data,
{
}

/// `has_traits` is the conjunction of `has_trait` over the given names,
/// vacuously true when there are none: a result `all` obtained under
/// `has_traits`' contract agrees with the conjunction of per-name
/// results `each`, each obtained under `has_trait`'s contract.
pub proof fn lemma_has_traits_conjunction(
    o: Object,
    names: Seq<Seq<char>>,
    all: bool,
    each: Seq<bool>,
)
    requires
        all == (forall|i: int| 0 <= i < names.len() ==> o.traits.has_key(#[trigger] names[i])),
        each.len() == names.len(),
        forall|i: int| 0 <= i < names.len() ==> (#[trigger] each[i]) == o.traits.has_key(names[i]),
    ensures
        all == (forall|i: int| 0 <= i < each.len() ==> #[trigger] each[i]),
        names.len() == 0 ==> all,
{
    if all {
        assert forall|i: int| 0 <= i < each.len() implies #[trigger] each[i] by {
            assert(o.traits.has_key(names[i]));
        }
    } else {
        assert(exists|i: int| 0 <= i < names.len() && !o.traits.has_key(#[trigger] names[i]));
        let i0 = choose|i: int| 0 <= i < names.len() && !o.traits.has_key(#[trigger] names[i]);
        assert(!each[i0]);
    }
}

/// Versioning: `new_version` bumps the version by one and keeps the
/// name, and the original is never touched (it is only read). Two
/// consecutive `new_version` results therefore carry versions `v + 1`
/// and `v + 2` while the first trait still carries `v`.
pub proof fn lemma_new_version_chain(t1: Trait, t2: Trait, t3: Trait, d2: TraitData, d3: TraitData)
    requires
        t2.name@ == t1.name@,
        t2.version == t1.version + 1,
        t2.data == d2,
        t3.name@ == t2.name@,
        t3.version == t2.version + 1,
        t3.data == d3,
    ensures
        t3.version == t1.version + 2,
        t3.name@ == t1.name@,
        t2.version > t1.version,
        t3.version > t2.version,
{
}

} // verus!
