//! The game that lives in the shell's files: an entity is a file, and its
//! components say what can be done to it.
//!
//! Here are the rules: how a saved entity is told from any other file, and
//! what a blow does to an entity. Reading and writing the files, and turning
//! an entity into bytes and back, is the caller's work.

use vstd::prelude::*;

verus! {

/// The bytes that every saved entity starts with.
pub const FILE_SIGNATURE: [u8; 8] = [0, 114, 108, 115, 104, 48, 46, 49];

/// One trait of an entity.
#[derive(Debug, PartialEq, Eq)]
pub enum Component {
    /// It is hostile.
    Enemy,
    /// It has this many hit points left.
    TakesDamage(i16),
    /// It hits back with this much force.
    Retaliates(i16),
    /// It carries these things.
    HasInventory(Vec<String>),
}

/// Something in the game world.
#[derive(Debug, PartialEq, Eq)]
pub struct Entity {
    pub components: Vec<Component>,
}

/// The mathematical value of a [`Component`].
pub enum ComponentView {
    Enemy,
    TakesDamage(i16),
    Retaliates(i16),
    HasInventory(Seq<Seq<char>>),
}

impl DeepView for Component {
    type V = ComponentView;

    open spec fn deep_view(&self) -> ComponentView {
        match self {
            Component::Enemy => ComponentView::Enemy,
            Component::TakesDamage(hp) => ComponentView::TakesDamage(*hp),
            Component::Retaliates(force) => ComponentView::Retaliates(*force),
            Component::HasInventory(things) => ComponentView::HasInventory(things.deep_view()),
        }
    }
}

impl View for Entity {
    type V = Seq<ComponentView>;

    open spec fn view(&self) -> Seq<ComponentView> {
        self.components.deep_view()
    }
}

/// Why the contents of a file are not a saved entity.
#[derive(Clone, Copy, Debug, PartialEq, Eq, Structural)]
pub enum FrameError {
    /// The file ends before the signature does.
    Truncated,
    /// The file starts with other bytes than the signature.
    Signature,
}

/// What is left of an entity after a blow.
#[derive(Debug, PartialEq, Eq)]
pub enum Blow {
    /// No hit points are left: the entity is gone.
    Fatal,
    /// The entity lives on with `left` hit points, as `survivor`.
    Wound { left: i16, survivor: Entity },
}

/// The mathematical value of a [`Blow`].
pub enum BlowView {
    Fatal,
    Wound { left: i16, survivor: Seq<ComponentView> },
}

impl View for Blow {
    type V = BlowView;

    open spec fn view(&self) -> BlowView {
        match self {
            Blow::Fatal => BlowView::Fatal,
            Blow::Wound { left, survivor } => BlowView::Wound { left: *left, survivor: survivor@ },
        }
    }
}

/// The enemy that a new game file holds: hostile, with five hit points.
pub fn enemy() -> (entity: Entity)
    ensures
        entity@ == seq![ComponentView::Enemy, ComponentView::TakesDamage(5)],
{
    let mut components: Vec<Component> = Vec::new();
    components.push(Component::Enemy);
    components.push(Component::TakesDamage(5));
    assert(components.deep_view() =~= seq![ComponentView::Enemy, ComponentView::TakesDamage(5)]);
    Entity { components }
}

/// Whether `contents` starts with the signature.
pub open spec fn has_signature(contents: Seq<u8>) -> bool {
    contents.len() >= 8 && contents.take(8) == FILE_SIGNATURE@
}

/// The contents of the file of an entity whose encoding is `payload`: the
/// signature, then the encoding.
pub fn frame(payload: &Vec<u8>) -> (contents: Vec<u8>)
    ensures
        contents@ == FILE_SIGNATURE@ + payload@,
{
    let mut contents: Vec<u8> = Vec::new();
    let mut i: usize = 0;
    while i < 8
        invariant
            i <= 8,
            contents@ == FILE_SIGNATURE@.take(i as int),
        decreases 8 - i,
    {
        contents.push(FILE_SIGNATURE[i]);
        assert(contents@ =~= FILE_SIGNATURE@.take(i + 1));
        i = i + 1;
    }
    assert(FILE_SIGNATURE@.take(8) =~= FILE_SIGNATURE@);
    let mut k: usize = 0;
    while k < payload.len()
        invariant
            k <= payload.len(),
            contents@ == FILE_SIGNATURE@ + payload@.take(k as int),
        decreases payload.len() - k,
    {
        contents.push(payload[k]);
        assert(contents@ =~= FILE_SIGNATURE@ + payload@.take(k + 1));
        k = k + 1;
    }
    assert(payload@.take(payload.len() as int) =~= payload@);
    contents
}

/// The encoding of the entity that the file with these contents holds.
///
/// A file of fewer than eight bytes is truncated, whatever its bytes are. A
/// longer one holds an entity exactly when it starts with the signature.
pub fn unframe(contents: &Vec<u8>) -> (payload: Result<Vec<u8>, FrameError>)
    ensures
        contents.len() < 8 ==> payload == Err::<Vec<u8>, FrameError>(FrameError::Truncated),
        contents.len() >= 8 && !has_signature(contents@) ==> payload == Err::<
            Vec<u8>,
            FrameError,
        >(FrameError::Signature),
        has_signature(contents@) ==> payload is Ok && payload->Ok_0@ == contents@.skip(8),
{
    if contents.len() < 8 {
        return Err(FrameError::Truncated);
    }
    let mut i: usize = 0;
    while i < 8
        invariant
            i <= 8,
            contents.len() >= 8,
            contents@.take(i as int) == FILE_SIGNATURE@.take(i as int),
        decreases 8 - i,
    {
        if contents[i] != FILE_SIGNATURE[i] {
            assert(contents@.take(8)[i as int] != FILE_SIGNATURE@[i as int]);
            return Err(FrameError::Signature);
        }
        assert(contents@.take(i + 1) =~= contents@.take(i as int).push(contents@[i as int]));
        assert(FILE_SIGNATURE@.take(i + 1) =~= FILE_SIGNATURE@.take(i as int).push(
            FILE_SIGNATURE@[i as int],
        ));
        i = i + 1;
    }
    assert(FILE_SIGNATURE@.take(8) =~= FILE_SIGNATURE@);
    let mut payload: Vec<u8> = Vec::new();
    let mut k: usize = 8;
    while k < contents.len()
        invariant
            8 <= k <= contents.len(),
            payload@ == contents@.subrange(8, k as int),
        decreases contents.len() - k,
    {
        payload.push(contents[k]);
        assert(payload@ =~= contents@.subrange(8, k + 1));
        k = k + 1;
    }
    assert(contents@.subrange(8, contents.len() as int) =~= contents@.skip(8));
    Ok(payload)
}

/// The components that a blow leaves as they are: all but the hit points.
pub open spec fn lasting(components: Seq<ComponentView>) -> Seq<ComponentView> {
    components.filter(|c: ComponentView| !(c is TakesDamage))
}

/// What a blow of the force `damage` does to an entity with these
/// components, `hp` of them being the hit points that are struck.
///
/// Without a hit point left the entity dies. Else it lives on with the
/// components that last, and after them the hit points that are left.
pub open spec fn blow(components: Seq<ComponentView>, hp: i16, damage: i16) -> BlowView {
    if hp - damage <= 0 {
        BlowView::Fatal
    } else {
        BlowView::Wound {
            left: (hp - damage) as i16,
            survivor: lasting(components).push(ComponentView::TakesDamage((hp - damage) as i16)),
        }
    }
}

/// `rand::random_range` on the numbers from `low` up to but without `high`,
/// drawn with the generator of the running thread. Chance picks the number;
/// all that is known of it is that it lies in the range. An empty range is
/// left out, because the call panics on it.
#[verifier::external_body]
fn random_in(low: i16, high: i16) -> (roll: i16)
    requires
        low < high,
    ensures
        low <= roll < high,
{
    rand::random_range(low..high)
}

/// A copy of the strings in `things`.
fn copy_things(things: &Vec<String>) -> (copy: Vec<String>)
    ensures
        copy.deep_view() == things.deep_view(),
{
    let mut copy: Vec<String> = Vec::new();
    let mut i: usize = 0;
    while i < things.len()
        invariant
            i <= things.len(),
            copy.deep_view() == things.deep_view().take(i as int),
        decreases things.len() - i,
    {
        let ghost so_far = copy.deep_view();
        copy.push(things[i].clone());
        assert(copy.deep_view() =~= so_far.push(things[i as int]@));
        assert(things.deep_view().take(i + 1) =~= so_far.push(things[i as int]@));
        i = i + 1;
    }
    assert(things.deep_view().take(things.len() as int) =~= things.deep_view());
    copy
}

/// A copy of `component`.
fn copy_component(component: &Component) -> (copy: Component)
    ensures
        copy.deep_view() == component.deep_view(),
{
    match component {
        Component::Enemy => Component::Enemy,
        Component::TakesDamage(hp) => Component::TakesDamage(*hp),
        Component::Retaliates(force) => Component::Retaliates(*force),
        Component::HasInventory(things) => Component::HasInventory(copy_things(things)),
    }
}

/// Lands a blow of the force `damage` on an entity with these components,
/// `hp` of them being the hit points that are struck.
pub fn land(components: &Vec<Component>, hp: i16, damage: i16) -> (outcome: Blow)
    requires
        i16::MIN <= hp - damage <= i16::MAX,
    ensures
        outcome@ == blow(components.deep_view(), hp, damage),
{
    let left: i16 = hp - damage;
    if left <= 0 {
        return Blow::Fatal;
    }
    let ghost all = components.deep_view();
    let ghost lasts = |c: ComponentView| !(c is TakesDamage);
    let mut kept: Vec<Component> = Vec::new();
    let mut i: usize = 0;
    while i < components.len()
        invariant
            i <= components.len(),
            all == components.deep_view(),
            lasts == |c: ComponentView| !(c is TakesDamage),
            kept.deep_view() == all.take(i as int).filter(lasts),
        decreases components.len() - i,
    {
        proof {
            assert(all.take(i + 1) =~= all.take(i as int).push(all[i as int]));
            all.take(i as int).lemma_filter_push(all[i as int], lasts);
        }
        match &components[i] {
            Component::TakesDamage(_) => {},
            other => {
                let ghost so_far = kept.deep_view();
                kept.push(copy_component(other));
                assert(kept.deep_view() =~= so_far.push(all[i as int]));
            },
        }
        i = i + 1;
    }
    assert(all.take(components.len() as int) =~= all);
    let ghost so_far = kept.deep_view();
    kept.push(Component::TakesDamage(left));
    assert(kept.deep_view() =~= so_far.push(ComponentView::TakesDamage(left)));
    Blow::Wound { left, survivor: Entity { components: kept } }
}

/// The force of a punch: 1, 2 or 3, as chance will have it.
pub fn roll_damage() -> (damage: i16)
    ensures
        1 <= damage < 4,
{
    random_in(1, 4)
}

} // verus!
