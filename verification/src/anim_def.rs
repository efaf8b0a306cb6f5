//! The parts of an animation definition that events refer to, and the
//! lookups between names and the indices that the event records store.
use vstd::prelude::*;
use crate::error::Error;
use crate::text::bytes_eq;

verus! {

/// The node name that stands for the node an animation is started on.
#[verifier::opaque]
pub open spec fn input_node_name() -> Seq<u8> {
    seq![
        0x49u8, 0x4E, 0x50, 0x55, 0x54, 0x5F, 0x4E, 0x4F, 0x44, 0x45,
    ]
}

/// `INPUT_NODE`, the node name that stands for the node an animation is
/// started on.
pub fn input_node_name_exec() -> (r: Vec<u8>)
    ensures
        r@ == input_node_name(),
{
    let r = vec![0x49u8, 0x4E, 0x50, 0x55, 0x54, 0x5F, 0x4E, 0x4F, 0x44, 0x45];
    proof {
        reveal(input_node_name);
        assert(r@ =~= input_node_name());
    }
    r
}

/// A signed index into one of the lists of an animation definition.
#[derive(Clone, Copy, Debug, PartialEq, Eq, Structural)]
pub struct Index(pub i16);

impl Index {
    /// The index as a position, if it is not negative.
    pub fn to_usize(self) -> (r: Option<usize>)
        ensures
            r == (if self.0 < 0 { None } else { Some(self.0 as usize) }),
    {
        let Index(v) = self;
        if v < 0 {
            None
        } else {
            Some(v as usize)
        }
    }

    /// The index of a position, if it fits in an `i16`.
    pub fn from_usize(value: usize) -> (r: Option<Index>)
        ensures
            r == (if value > 0x7FFF { None } else { Some(Index(value as i16)) }),
    {
        if value > 0x7FFF {
            None
        } else {
            Some(Index(value as i16))
        }
    }
}

/// The lists and names of an animation definition that events refer to.
///
/// Each list holds names; an event refers to the `i`-th name by the index
/// `i + 1`. A list that the definition does not have is `None`.
#[derive(Debug)]
pub struct AnimDef {
    pub name: Vec<u8>,
    pub anim_name: Vec<u8>,
    pub anim_root_name: Vec<u8>,
    pub has_callbacks: bool,
    pub nodes: Option<Vec<Vec<u8>>>,
    pub lights: Option<Vec<Vec<u8>>>,
    pub puffers: Option<Vec<Vec<u8>>>,
    pub dynamic_sounds: Option<Vec<Vec<u8>>>,
    pub static_sounds: Option<Vec<Vec<u8>>>,
    pub effects: Option<Vec<Vec<u8>>>,
    /// Only the number of animation references matters to events.
    pub anim_refs: Option<Vec<Vec<u8>>>,
}

/// An animation definition, as Verus sees it.
pub struct AnimDefV {
    pub name: Seq<u8>,
    pub anim_name: Seq<u8>,
    pub anim_root_name: Seq<u8>,
    pub has_callbacks: bool,
    pub nodes: Option<Seq<Seq<u8>>>,
    pub lights: Option<Seq<Seq<u8>>>,
    pub puffers: Option<Seq<Seq<u8>>>,
    pub dynamic_sounds: Option<Seq<Seq<u8>>>,
    pub static_sounds: Option<Seq<Seq<u8>>>,
    pub effects: Option<Seq<Seq<u8>>>,
    pub anim_refs: Option<Seq<Seq<u8>>>,
}

/// A list of names, as Verus sees it.
pub open spec fn names_view(l: Option<Vec<Vec<u8>>>) -> Option<Seq<Seq<u8>>> {
    match l {
        Some(v) => Some(v@.map_values(|x: Vec<u8>| x@)),
        None => None,
    }
}

impl View for AnimDef {
    type V = AnimDefV;

    open spec fn view(&self) -> AnimDefV {
        AnimDefV {
            name: self.name@,
            anim_name: self.anim_name@,
            anim_root_name: self.anim_root_name@,
            has_callbacks: self.has_callbacks,
            nodes: names_view(self.nodes),
            lights: names_view(self.lights),
            puffers: names_view(self.puffers),
            dynamic_sounds: names_view(self.dynamic_sounds),
            static_sounds: names_view(self.static_sounds),
            effects: names_view(self.effects),
            anim_refs: names_view(self.anim_refs),
        }
    }
}

/// The name that a stored index refers to. `raw` is the unsigned value of
/// the index field; indices that are negative as `i16` (or out of the `i16`
/// range), zero, or past the end of the list refer to no name, and neither
/// does any index into a list that the definition does not have.
pub open spec fn name_at(list: Option<Seq<Seq<u8>>>, raw: int) -> Option<Seq<u8>> {
    match list {
        Some(l) => if 1 <= raw <= 0x7FFF && raw <= l.len() {
            Some(l[raw - 1])
        } else {
            None
        },
        None => None,
    }
}

/// `i` is the first position of `name` in `l`.
pub open spec fn is_first(l: Seq<Seq<u8>>, name: Seq<u8>, i: int) -> bool {
    &&& 0 <= i < l.len()
    &&& l[i] == name
    &&& forall|j: int| 0 <= j < i ==> l[j] != name
}

/// The index that refers to `name`: one more than its first position. There
/// is none if the list is missing, does not hold the name, or the index does
/// not fit in an `i16`.
#[verifier::opaque]
pub open spec fn index_of(list: Option<Seq<Seq<u8>>>, name: Seq<u8>) -> Option<int> {
    match list {
        Some(l) => if exists|i: int| is_first(l, name, i) {
            let i = choose|i: int| is_first(l, name, i);
            if i + 1 <= 0x7FFF {
                Some(i + 1)
            } else {
                None
            }
        } else {
            None
        },
        None => None,
    }
}

/// No name occurs twice in the list.
pub open spec fn unique_names(list: Option<Seq<Seq<u8>>>) -> bool {
    match list {
        Some(l) => forall|i: int, j: int|
            0 <= i < l.len() && 0 <= j < l.len() && i != j ==> l[i] != l[j],
        None => true,
    }
}

/// No list of the definition holds a name twice, and no node bears the
/// input node's name.
pub open spec fn distinct_names(ad: AnimDefV) -> bool {
    &&& unique_names(ad.nodes)
    &&& unique_names(ad.lights)
    &&& unique_names(ad.puffers)
    &&& unique_names(ad.dynamic_sounds)
    &&& unique_names(ad.static_sounds)
    &&& unique_names(ad.effects)
    &&& !ad.nodes.unwrap_or(Seq::empty()).contains(input_node_name())
}

/// No node name occurs twice, and no node bears the input node's name.
pub open spec fn distinct_nodes(ad: AnimDefV) -> bool {
    &&& unique_names(ad.nodes)
    &&& !ad.nodes.unwrap_or(Seq::empty()).contains(input_node_name())
}

/// A first position is unique.
pub proof fn lemma_first_unique(l: Seq<Seq<u8>>, name: Seq<u8>, i: int, j: int)
    requires
        is_first(l, name, i),
        is_first(l, name, j),
    ensures
        i == j,
{
}

/// A name that an index refers to has an index, no larger than that one.
pub proof fn lemma_index_of_some(list: Option<Seq<Seq<u8>>>, raw: int)
    requires
        name_at(list, raw) is Some,
    ensures
        index_of(list, name_at(list, raw).unwrap()) matches Some(i) && 1 <= i <= raw,
{
    reveal(index_of);
    let l = list.unwrap();
    let name = l[raw - 1];
    let first = choose|i: int| 0 <= i < l.len() && l[i] == name && forall|j: int| 0 <= j < i ==> l[j] != name;
    assert(exists|i: int| 0 <= i < l.len() && l[i] == name && forall|j: int| 0 <= j < i ==> l[j] != name) by {
        lemma_first_exists(l, name, raw - 1);
    }
    assert(is_first(l, name, first));
    let c = choose|i: int| is_first(l, name, i);
    lemma_first_unique(l, name, first, c);
    if first > raw - 1 {
        assert(l[raw - 1] != name);
    }
}

/// A name that occurs at position `p` has a first position.
pub proof fn lemma_first_exists(l: Seq<Seq<u8>>, name: Seq<u8>, p: int)
    requires
        0 <= p < l.len(),
        l[p] == name,
    ensures
        exists|i: int| is_first(l, name, i),
    decreases p,
{
    if forall|j: int| 0 <= j < p ==> l[j] != name {
        assert(is_first(l, name, p));
    } else {
        let q = choose|j: int| 0 <= j < p && l[j] == name;
        lemma_first_exists(l, name, q);
    }
}

/// Looking up the name of the index of a name gives the name.
pub proof fn lemma_name_at_index_of(list: Option<Seq<Seq<u8>>>, name: Seq<u8>)
    requires
        index_of(list, name) is Some,
    ensures
        name_at(list, index_of(list, name).unwrap()) == Some(name),
{
    reveal(index_of);
}

/// Where no name occurs twice, the index of the name at an index is that
/// index.
pub proof fn lemma_index_of_name_at(list: Option<Seq<Seq<u8>>>, raw: int)
    requires
        name_at(list, raw) is Some,
        unique_names(list),
    ensures
        index_of(list, name_at(list, raw).unwrap()) == Some(raw),
{
    reveal(index_of);
    let l = list.unwrap();
    let name = l[raw - 1];
    assert(is_first(l, name, raw - 1));
    let c = choose|i: int| is_first(l, name, i);
    lemma_first_unique(l, name, raw - 1, c);
}

/// Looking a name up again by its index gives the same name, and the index
/// fits in an `i16`.
pub proof fn lemma_name_reread(list: Option<Seq<Seq<u8>>>, raw: int)
    requires
        name_at(list, raw) is Some,
    ensures
        index_of(list, name_at(list, raw).unwrap()) matches Some(j) && 1 <= j <= 0x7FFF
            && name_at(list, j) == name_at(list, raw),
{
    lemma_index_of_some(list, raw);
    lemma_name_at_index_of(list, name_at(list, raw).unwrap());
}

/// The node that a stored node index refers to, where the index `special`
/// stands for the input node.
pub open spec fn node_or_input(ad: AnimDefV, raw: int, special: int) -> Option<Seq<u8>> {
    if raw == special {
        Some(input_node_name())
    } else {
        name_at(ad.nodes, raw)
    }
}

/// The stored index of a node, where `special` stands for the input node.
pub open spec fn node_or_input_index(ad: AnimDefV, name: Seq<u8>, special: int) -> Option<int> {
    if name == input_node_name() {
        Some(special)
    } else {
        index_of(ad.nodes, name)
    }
}

/// A node read from an index, written and read again, is the same node.
pub proof fn lemma_node_or_input_reread(ad: AnimDefV, raw: int, special: int)
    requires
        node_or_input(ad, raw, special) is Some,
        special > 0x7FFF,
    ensures
        node_or_input_index(ad, node_or_input(ad, raw, special).unwrap(), special) matches Some(j)
            && (j == special || 1 <= j <= 0x7FFF) && node_or_input(ad, j, special)
            == node_or_input(ad, raw, special),
{
    if raw != special {
        let n = name_at(ad.nodes, raw).unwrap();
        if n != input_node_name() {
            lemma_name_reread(ad.nodes, raw);
        }
    }
}

/// Where the input node is not a node name and no node name occurs twice,
/// the index of the node that an index refers to is that index.
pub proof fn lemma_node_or_input_exact(ad: AnimDefV, raw: int, special: int)
    requires
        node_or_input(ad, raw, special) is Some,
        unique_names(ad.nodes),
        !ad.nodes.unwrap_or(Seq::empty()).contains(input_node_name()),
    ensures
        node_or_input_index(ad, node_or_input(ad, raw, special).unwrap(), special) == Some(raw),
{
    if raw != special {
        lemma_index_of_name_at(ad.nodes, raw);
        assert(ad.nodes.unwrap()[raw - 1] != input_node_name());
    }
}

fn lookup(list: &Option<Vec<Vec<u8>>>, raw: u32) -> (r: Result<Vec<u8>, Error>)
    ensures
        match name_at(names_view(*list), raw as int) {
            Some(n) => r matches Ok(v) && v@ == n,
            None => r == Err::<Vec<u8>, Error>(Error::Invalid),
        },
{
    match list {
        Some(l) => {
            if 1 <= raw && raw <= 0x7FFF && (raw as usize) <= l.len() {
                let n = crate::text::copy_bytes(&l[(raw - 1) as usize]);
                Ok(n)
            } else {
                Err(Error::Invalid)
            }
        },
        None => Err(Error::Invalid),
    }
}

/// The index of a name is one more than its first position, where that fits
/// in an `i16`.
proof fn lemma_index_of_first(list: Option<Seq<Seq<u8>>>, name: Seq<u8>, i: int)
    requires
        list is Some,
        is_first(list.unwrap(), name, i),
        i + 1 <= 0x7FFF,
    ensures
        index_of(list, name) == Some(i + 1),
{
    reveal(index_of);
    let l = list.unwrap();
    let c = choose|c: int| is_first(l, name, c);
    lemma_first_unique(l, name, i, c);
}

#[verifier::spinoff_prover]
fn find(list: &Option<Vec<Vec<u8>>>, name: &Vec<u8>) -> (r: Result<u16, Error>)
    ensures
        match index_of(names_view(*list), name@) {
            Some(i) => r == Ok::<u16, Error>(i as u16) && 1 <= i <= 0x7FFF,
            None => r == Err::<u16, Error>(Error::Invalid),
        },
{
    reveal(index_of);
    match list {
        Some(l) => {
            let ghost lv = names_view(*list).unwrap();
            let mut i: usize = 0;
            while i < l.len()
                invariant
                    0 <= i <= l@.len(),
                    lv == l@.map_values(|x: Vec<u8>| x@),
                    names_view(*list) == Some(lv),
                    forall|j: int| 0 <= j < i ==> lv[j] != name@,
                decreases l@.len() - i,
            {
                if bytes_eq(&l[i], name) {
                    proof {
                        reveal(index_of);
                        assert(is_first(lv, name@, i as int));
                        let c = choose|c: int| is_first(lv, name@, c);
                        lemma_first_unique(lv, name@, i as int, c);
                    }
                    if i + 1 > 0x7FFF {
                        return Err(Error::Invalid);
                    }
                    proof {
                        lemma_index_of_first(names_view(*list), name@, i as int);
                    }
                    return Ok((i + 1) as u16);
                }
                i = i + 1;
            }
            proof {
                reveal(index_of);
                assert forall|c: int| !is_first(lv, name@, c) by {
                }
            }
            Err(Error::Invalid)
        },
        None => Err(Error::Invalid),
    }
}

impl AnimDef {
    /// The node of a stored node index, where `special` stands for the
    /// input node.
    pub fn node_or_input_from_index(&self, raw: u32, special: u32) -> (r: Result<Vec<u8>, Error>)
        ensures
            match node_or_input(self@, raw as int, special as int) {
                Some(n) => r matches Ok(v) && v@ == n,
                None => r == Err::<Vec<u8>, Error>(Error::Invalid),
            },
    {
        if raw == special {
            Ok(input_node_name_exec())
        } else {
            lookup(&self.nodes, raw)
        }
    }

    /// The stored index of a node, where `special` stands for the input
    /// node.
    pub fn node_or_input_to_index(&self, name: &Vec<u8>, special: u32) -> (r: Result<u32, Error>)
        ensures
            match node_or_input_index(self@, name@, special as int) {
                Some(i) => r == Ok::<u32, Error>(i as u32) && (i == special || 1 <= i <= 0x7FFF),
                None => r == Err::<u32, Error>(Error::Invalid),
            },
    {
        let input = input_node_name_exec();
        if bytes_eq(name, &input) {
            Ok(special)
        } else {
            let i = find(&self.nodes, name)?;
            proof {
                lemma_name_at_index_of(self@.nodes, name@);
            }
            Ok(i as u32)
        }
    }

    /// The node name of a stored node index.
    pub fn node_from_index(&self, raw: u32) -> (r: Result<Vec<u8>, Error>)
        ensures
            match name_at(self@.nodes, raw as int) {
                Some(n) => r matches Ok(v) && v@ == n,
                None => r == Err::<Vec<u8>, Error>(Error::Invalid),
            },
    {
        lookup(&self.nodes, raw)
    }

    /// The node index of a node name.
    pub fn node_to_index(&self, name: &Vec<u8>) -> (r: Result<u16, Error>)
        ensures
            match index_of(self@.nodes, name@) {
                Some(i) => r == Ok::<u16, Error>(i as u16) && 1 <= i <= 0x7FFF,
                None => r == Err::<u16, Error>(Error::Invalid),
            },
    {
        find(&self.nodes, name)
    }

    /// The light name of a stored light index.
    pub fn light_from_index(&self, raw: u32) -> (r: Result<Vec<u8>, Error>)
        ensures
            match name_at(self@.lights, raw as int) {
                Some(n) => r matches Ok(v) && v@ == n,
                None => r == Err::<Vec<u8>, Error>(Error::Invalid),
            },
    {
        lookup(&self.lights, raw)
    }

    /// The light index of a light name.
    pub fn light_to_index(&self, name: &Vec<u8>) -> (r: Result<u16, Error>)
        ensures
            match index_of(self@.lights, name@) {
                Some(i) => r == Ok::<u16, Error>(i as u16) && 1 <= i <= 0x7FFF,
                None => r == Err::<u16, Error>(Error::Invalid),
            },
    {
        find(&self.lights, name)
    }

    /// The puffer name of a stored puffer index.
    pub fn puffer_from_index(&self, raw: u32) -> (r: Result<Vec<u8>, Error>)
        ensures
            match name_at(self@.puffers, raw as int) {
                Some(n) => r matches Ok(v) && v@ == n,
                None => r == Err::<Vec<u8>, Error>(Error::Invalid),
            },
    {
        lookup(&self.puffers, raw)
    }

    /// The puffer index of a puffer name.
    pub fn puffer_to_index(&self, name: &Vec<u8>) -> (r: Result<u16, Error>)
        ensures
            match index_of(self@.puffers, name@) {
                Some(i) => r == Ok::<u16, Error>(i as u16) && 1 <= i <= 0x7FFF,
                None => r == Err::<u16, Error>(Error::Invalid),
            },
    {
        find(&self.puffers, name)
    }

    /// The sound node name of a stored sound node index.
    pub fn dyn_sound_from_index(&self, raw: u32) -> (r: Result<Vec<u8>, Error>)
        ensures
            match name_at(self@.dynamic_sounds, raw as int) {
                Some(n) => r matches Ok(v) && v@ == n,
                None => r == Err::<Vec<u8>, Error>(Error::Invalid),
            },
    {
        lookup(&self.dynamic_sounds, raw)
    }

    /// The sound node index of a sound node name.
    pub fn dyn_sound_to_index(&self, name: &Vec<u8>) -> (r: Result<u16, Error>)
        ensures
            match index_of(self@.dynamic_sounds, name@) {
                Some(i) => r == Ok::<u16, Error>(i as u16) && 1 <= i <= 0x7FFF,
                None => r == Err::<u16, Error>(Error::Invalid),
            },
    {
        find(&self.dynamic_sounds, name)
    }

    /// The static sound name of a stored static sound index.
    pub fn stc_sound_from_index(&self, raw: u32) -> (r: Result<Vec<u8>, Error>)
        ensures
            match name_at(self@.static_sounds, raw as int) {
                Some(n) => r matches Ok(v) && v@ == n,
                None => r == Err::<Vec<u8>, Error>(Error::Invalid),
            },
    {
        lookup(&self.static_sounds, raw)
    }

    /// The static sound index of a static sound name.
    pub fn stc_sound_to_index(&self, name: &Vec<u8>) -> (r: Result<u16, Error>)
        ensures
            match index_of(self@.static_sounds, name@) {
                Some(i) => r == Ok::<u16, Error>(i as u16) && 1 <= i <= 0x7FFF,
                None => r == Err::<u16, Error>(Error::Invalid),
            },
    {
        find(&self.static_sounds, name)
    }

    /// The effect name of a stored effect index.
    pub fn effect_from_index(&self, raw: u32) -> (r: Result<Vec<u8>, Error>)
        ensures
            match name_at(self@.effects, raw as int) {
                Some(n) => r matches Ok(v) && v@ == n,
                None => r == Err::<Vec<u8>, Error>(Error::Invalid),
            },
    {
        lookup(&self.effects, raw)
    }

    /// The effect index of an effect name.
    pub fn effect_to_index(&self, name: &Vec<u8>) -> (r: Result<u16, Error>)
        ensures
            match index_of(self@.effects, name@) {
                Some(i) => r == Ok::<u16, Error>(i as u16) && 1 <= i <= 0x7FFF,
                None => r == Err::<u16, Error>(Error::Invalid),
            },
    {
        find(&self.effects, name)
    }

    /// Checks an animation reference index: it must not be negative, and
    /// the definition must have that many animation references.
    pub fn anim_ref_validate_index(&self, index: i16) -> (r: Result<i16, Error>)
        ensures
            r == (if anim_ref_valid(self@, index as int) {
                Ok::<i16, Error>(index)
            } else {
                Err::<i16, Error>(Error::Invalid)
            }),
    {
        let i = match Index(index).to_usize() {
            Some(i) => i,
            None => return Err(Error::Invalid),
        };
        match &self.anim_refs {
            Some(refs) => if i < refs.len() {
                Ok(index)
            } else {
                Err(Error::Invalid)
            },
            None => Err(Error::Invalid),
        }
    }
}

/// The animation reference index `i` refers to an animation reference.
pub open spec fn anim_ref_valid(ad: AnimDefV, i: int) -> bool {
    &&& 0 <= i
    &&& ad.anim_refs is Some
    &&& i < ad.anim_refs.unwrap().len()
}

} // verus!
