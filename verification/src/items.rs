//! The item catalog: immutable descriptors keyed by id and by name, and the
//! base value each rarity tier contributes to a generated item's value.

use vstd::prelude::*;

verus! {

/// An immutable item descriptor, loaded once at startup.
pub struct ItemDescriptor {
    pub id: u32,
    pub name: String,
    pub description: String,
    pub rarity_tier: u32,
}

/// No two descriptors share an id or a name.
pub open spec fn descriptors_distinct(s: Seq<ItemDescriptor>) -> bool {
    forall|i: int, j: int|
        0 <= i < j < s.len() ==> #[trigger] s[i].id != #[trigger] s[j].id && s[i].name@
            != s[j].name@
}

/// Some descriptor in `s` carries this name.
pub open spec fn catalog_has_name(s: Seq<ItemDescriptor>, name: Seq<char>) -> bool {
    exists|i: int| 0 <= i < s.len() && (#[trigger] s[i]).name@ == name
}

/// Some descriptor in `s` carries this id.
pub open spec fn catalog_has_id(s: Seq<ItemDescriptor>, id: u32) -> bool {
    exists|i: int| 0 <= i < s.len() && (#[trigger] s[i]).id == id
}

/// `id` is the id of the descriptor named `name`.
pub open spec fn catalog_id_of(s: Seq<ItemDescriptor>, name: Seq<char>, id: u32) -> bool {
    exists|i: int| 0 <= i < s.len() && (#[trigger] s[i]).name@ == name && s[i].id == id
}

/// The read-only item catalog. Holds every item descriptor; ids and names
/// are unique, so lookups by either are unambiguous.
pub struct Catalog {
    descriptors: Vec<ItemDescriptor>,
}

impl Catalog {
    /// The descriptors the catalog holds.
    pub closed spec fn items(self) -> Seq<ItemDescriptor> {
        self.descriptors@
    }

    /// The catalog invariant: ids and names are unique.
    pub closed spec fn wf(self) -> bool {
        descriptors_distinct(self.descriptors@)
    }

    /// Build the catalog, refusing descriptor lists with a repeated id or
    /// name. Duplicates are a startup-time configuration error.
    pub fn new(descriptors: Vec<ItemDescriptor>) -> (r: Option<Catalog>)
        ensures
            r is Some <==> descriptors_distinct(descriptors@),
            r is Some ==> r.unwrap().items() == descriptors@ && r.unwrap().wf(),
    {
        let n = descriptors.len();
        let mut i: usize = 0;
        while i < n
            invariant
                n == descriptors@.len(),
                i <= n,
                forall|a: int, b: int|
                    0 <= a < b < n && a < i ==> #[trigger] descriptors@[a].id
                        != #[trigger] descriptors@[b].id && descriptors@[a].name@
                        != descriptors@[b].name@,
            decreases n - i,
        {
            let mut j: usize = i + 1;
            while j < n
                invariant
                    n == descriptors@.len(),
                    i < j <= n,
                    i < n,
                    forall|a: int, b: int|
                        0 <= a < b < n && a < i ==> #[trigger] descriptors@[a].id
                            != #[trigger] descriptors@[b].id && descriptors@[a].name@
                            != descriptors@[b].name@,
                    forall|b: int|
                        i < b < j ==> descriptors@[i as int].id != (#[trigger] descriptors@[b]).id
                            && descriptors@[i as int].name@ != descriptors@[b].name@,
                decreases n - j,
            {
                if descriptors[i].id == descriptors[j].id {
                    return None;
                }
                if descriptors[i].name == descriptors[j].name {
                    return None;
                }
                j = j + 1;
            }
            proof {
                assert forall|a: int, b: int|
                    0 <= a < b < n && a < i + 1 implies descriptors@[a].id != descriptors@[b].id
                    && descriptors@[a].name@ != descriptors@[b].name@ by {
                    if a == i {
                        assert(descriptors@[i as int].id != (descriptors@[b]).id
                            && descriptors@[i as int].name@ != descriptors@[b].name@);
                    }
                }
            }
            i = i + 1;
        }
        Some(Catalog { descriptors })
    }

    /// All item descriptors.
    pub fn item_descriptors(&self) -> (r: &Vec<ItemDescriptor>)
        ensures
            r@ == self.items(),
    {
        &self.descriptors
    }

    /// The id of the item with this name. The caller must know the name is
    /// in the catalog; an unknown name is a configuration error.
    pub fn get_item_id_by_name(&self, name: &String) -> (id: u32)
        requires
            catalog_has_name(self.items(), name@),
        ensures
            catalog_id_of(self.items(), name@, id),
    {
        let n = self.descriptors.len();
        let mut i: usize = 0;
        loop
            invariant
                catalog_has_name(self.items(), name@),
                n == self.descriptors@.len(),
                i <= n,
                forall|a: int| 0 <= a < i ==> (#[trigger] self.descriptors@[a]).name@ != name@,
            decreases n - i,
        {
            proof {
                if i == n {
                    assert(false);
                }
            }
            if self.descriptors[i].name == *name {
                return self.descriptors[i].id;
            }
            i = i + 1;
        }
    }

    /// The descriptor of the item with this id. The caller must know the id
    /// is in the catalog.
    pub fn get_item_descriptor_by_id(&self, id: u32) -> (d: &ItemDescriptor)
        requires
            catalog_has_id(self.items(), id),
        ensures
            exists|i: int| 0 <= i < self.items().len() && #[trigger] self.items()[i] == *d,
            d.id == id,
    {
        let n = self.descriptors.len();
        let mut i: usize = 0;
        loop
            invariant
                catalog_has_id(self.items(), id),
                n == self.descriptors@.len(),
                i <= n,
                forall|a: int| 0 <= a < i ==> (#[trigger] self.descriptors@[a]).id != id,
            decreases n - i,
        {
            proof {
                if i == n {
                    assert(false);
                }
            }
            if self.descriptors[i].id == id {
                return &self.descriptors[i];
            }
            i = i + 1;
        }
    }
}

/// The base value, in hundredths of the currency unit, that an item of the
/// given rarity tier contributes before the quality multiplier is applied.
pub open spec fn base_value_centi_spec(rarity_tier: u32) -> u64 {
    if rarity_tier == 0 {
        20
    } else if rarity_tier == 1 {
        400
    } else if rarity_tier == 2 {
        3_000
    } else if rarity_tier == 3 {
        23_000
    } else if rarity_tier == 4 {
        80_000
    } else if rarity_tier == 5 {
        840_000
    } else {
        0
    }
}

/// The fixed base value lookup for a rarity tier, in hundredths: tiers 0-5
/// map to 0.20, 4, 30, 230, 800 and 8400 currency units; any other tier is
/// worth nothing.
pub fn item_base_value_centi(rarity_tier: u32) -> (v: u64)
    ensures
        v == base_value_centi_spec(rarity_tier),
{
    match rarity_tier {
        0 => 20,
        1 => 400,
        2 => 3_000,
        3 => 23_000,
        4 => 80_000,
        5 => 840_000,
        _ => 0,
    }
}

} // verus!
