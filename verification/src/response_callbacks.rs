//! The responses being waited for, each in the slot that identifies its request.
use thunderdome::Arena;

use vstd::prelude::*;

verus! {

/// What a slot holds: nothing yet, or the response and the buffer that came
/// with it.
pub type Slot = Option<(Vec<u8>, Vec<u8>)>;

/// `thunderdome::Arena`, a container that hands out a slot for each value
/// inserted.
#[verifier::external_type_specification]
#[verifier::external_body]
#[verifier::reject_recursive_types(T)]
pub struct ExArena<T>(Arena<T>);

/// The value of each slot in use of the arena, by its slot number.
pub uninterp spec fn arena_slots(arena: Arena<Option<(Vec<u8>, Vec<u8>)>>) -> Map<
    u32,
    Option<(Seq<u8>, Seq<u8>)>,
>;

/// What a slot holds, as plain bytes.
pub open spec fn slot_view(s: Option<(Vec<u8>, Vec<u8>)>) -> Option<(Seq<u8>, Seq<u8>)> {
    match s {
        Some((response, buffer)) => Some((response@, buffer@)),
        None => None,
    }
}

/// `Arena::new`: an arena with no slot in use.
#[verifier::external_body]
fn arena_new() -> (arena: Arena<Slot>)
    ensures
        arena_slots(arena).dom() == Set::<u32>::empty(),
{
    Arena::new()
}

/// `Arena::len`: the number of slots in use.
#[verifier::external_body]
fn arena_len(a: &Arena<Slot>) -> (n: usize)
    ensures
        n == arena_slots(*a).dom().len(),
{
    a.len()
}

/// `Arena::insert`, then `Index::slot`: the value goes into a slot that was
/// not in use, whose number is returned. The arena panics when it already
/// holds `u32::MAX` values.
#[verifier::external_body]
fn arena_insert(a: &mut Arena<Slot>, value: Slot) -> (slot: u32)
    requires
        arena_slots(*old(a)).dom().len() < u32::MAX,
    ensures
        !arena_slots(*old(a)).dom().contains(slot),
        arena_slots(*final(a)) == arena_slots(*old(a)).insert(slot, slot_view(value)),
{
    a.insert(value).slot()
}

/// `Arena::get_by_slot`: the value in `slot`, if the slot is in use.
#[verifier::external_body]
fn arena_get_by_slot(a: &Arena<Slot>, slot: u32) -> (r: Option<&Slot>)
    ensures
        r is Some <==> arena_slots(*a).dom().contains(slot),
        r matches Some(v) ==> slot_view(*v) == arena_slots(*a)[slot],
{
    a.get_by_slot(slot).map(|(_index, value)| value)
}

/// `Arena::get_by_slot_mut`, then an assignment through the reference: the
/// value of `slot` becomes `value` if the slot is in use; `false` if it is not.
#[verifier::external_body]
fn arena_set_by_slot(a: &mut Arena<Slot>, slot: u32, value: Slot) -> (found: bool)
    ensures
        found == arena_slots(*old(a)).dom().contains(slot),
        arena_slots(*final(a)) == if found {
            arena_slots(*old(a)).insert(slot, slot_view(value))
        } else {
            arena_slots(*old(a))
        },
{
    match a.get_by_slot_mut(slot) {
        Some((_index, v)) => {
            *v = value;
            true
        },
        None => false,
    }
}

/// `Arena::remove_by_slot`: the value of `slot` taken out, and the slot
/// freed; `None` if the slot was not in use.
#[verifier::external_body]
fn arena_remove_by_slot(a: &mut Arena<Slot>, slot: u32) -> (r: Option<Slot>)
    ensures
        r is Some <==> arena_slots(*old(a)).dom().contains(slot),
        r matches Some(v) ==> slot_view(v) == arena_slots(*old(a))[slot],
        arena_slots(*final(a)) == arena_slots(*old(a)).remove(slot),
{
    a.remove_by_slot(slot).map(|(_index, value)| value)
}

/// What a callback does: the response is stored in its slot, if the slot is
/// still in use; otherwise nothing changes.
pub open spec fn after_callback(
    slots: Map<u32, Option<(Seq<u8>, Seq<u8>)>>,
    slot: u32,
    response: Seq<u8>,
    buffer: Seq<u8>,
) -> Map<u32, Option<(Seq<u8>, Seq<u8>)>> {
    if slots.dom().contains(slot) {
        slots.insert(slot, Some((response, buffer)))
    } else {
        slots
    }
}

/// The responses being waited for, by slot.
#[derive(Debug)]
pub struct ResponseCallbacks(Arena<Slot>);

impl View for ResponseCallbacks {
    type V = Map<u32, Option<(Seq<u8>, Seq<u8>)>>;

    closed spec fn view(&self) -> Map<u32, Option<(Seq<u8>, Seq<u8>)>> {
        arena_slots(self.0)
    }
}

impl ResponseCallbacks {
    /// No slot in use.
    pub fn new() -> (r: Self)
        ensures
            r@ == Map::<u32, Option<(Seq<u8>, Seq<u8>)>>::empty(),
    {
        let r = ResponseCallbacks(arena_new());
        assert(r@ =~= Map::<u32, Option<(Seq<u8>, Seq<u8>)>>::empty());
        r
    }

    /// The number of slots in use.
    pub fn len(&self) -> (n: usize)
        ensures
            n == self@.dom().len(),
    {
        arena_len(&self.0)
    }

    fn insert_impl(&mut self) -> (slot: u32)
        requires
            old(self)@.dom().len() < u32::MAX,
        ensures
            !old(self)@.dom().contains(slot),
            final(self)@ == old(self)@.insert(slot, None),
    {
        arena_insert(&mut self.0, None)
    }

    /// Reserve a slot for a response to come.
    ///
    /// The arena panics when `u32::MAX` slots are in use.
    pub fn insert(&mut self) -> (guard: SlotGuard)
        requires
            old(self)@.dom().len() < u32::MAX,
        ensures
            guard.slot_spec() matches Some(slot) && !old(self)@.dom().contains(slot)
                && final(self)@ == old(self)@.insert(slot, None),
    {
        SlotGuard(Some(self.insert_impl()))
    }

    /// Whether `slot` is in use.
    pub fn contains(&self, slot: u32) -> (r: bool)
        ensures
            r == self@.dom().contains(slot),
    {
        arena_get_by_slot(&self.0, slot).is_some()
    }

    /// Whether the response of `slot` has arrived.
    ///
    /// The slot must be in use ("Invalid slot").
    pub fn is_done(&self, slot: u32) -> (done: bool)
        requires
            self@.dom().contains(slot),
        ensures
            done == (self@[slot] is Some),
    {
        match arena_get_by_slot(&self.0, slot) {
            Some(value) => value.is_some(),
            None => false,
        }
    }

    /// Store the response of `slot`; a slot that is no longer in use is
    /// ignored.
    pub fn do_callback(&mut self, slot: u32, response: Vec<u8>, buffer: Vec<u8>)
        ensures
            final(self)@ == after_callback(old(self)@, slot, response@, buffer@),
    {
        let _found = arena_set_by_slot(&mut self.0, slot, Some((response, buffer)));
    }
}

/// A slot reserved for a response; it must be freed by waiting for the
/// response or by releasing it.
#[derive(Debug)]
pub struct SlotGuard(Option<u32>);

impl SlotGuard {
    /// The slot held, unless it was given up.
    pub closed spec fn slot_spec(&self) -> Option<u32> {
        self.0
    }

    /// The slot held.
    pub fn get_slot_id(&self) -> (slot: u32)
        requires
            self.slot_spec() is Some,
        ensures
            self.slot_spec() == Some(slot),
    {
        self.0.unwrap()
    }

    /// Free `slot`, which must be in use, returning what it held.
    fn remove(&mut self, callbacks: &mut ResponseCallbacks, slot: u32) -> (r: Slot)
        requires
            old(callbacks)@.dom().contains(slot),
        ensures
            slot_view(r) == old(callbacks)@[slot],
            final(callbacks)@ == old(callbacks)@.remove(slot),
            final(self).slot_spec() == old(self).slot_spec(),
    {
        arena_remove_by_slot(&mut callbacks.0, slot).unwrap()
    }

    /// The response and its buffer, once it has arrived; the slot is freed.
    pub fn wait(self, callbacks: &mut ResponseCallbacks) -> (r: (Vec<u8>, Vec<u8>))
        requires
            self.slot_spec() matches Some(slot) && old(callbacks)@.dom().contains(slot) && old(
                callbacks,
            )@[slot] is Some,
        ensures
            Some((r.0@, r.1@)) == old(callbacks)@[self.slot_spec()->Some_0],
            final(callbacks)@ == old(callbacks)@.remove(self.slot_spec()->Some_0),
    {
        let mut this = self;
        let slot = this.0.take().unwrap();
        this.remove(callbacks, slot).unwrap()
    }

    /// Give up the slot, freeing it if it is still held.
    pub fn release(self, callbacks: &mut ResponseCallbacks)
        requires
            self.slot_spec() matches Some(slot) ==> old(callbacks)@.dom().contains(slot),
        ensures
            final(callbacks)@ == match self.slot_spec() {
                Some(slot) => old(callbacks)@.remove(slot),
                None => old(callbacks)@,
            },
    {
        let mut this = self;
        match this.0.take() {
            Some(slot) => {
                let _value = this.remove(callbacks, slot);
            },
            None => {},
        }
    }
}

/// A response stored by a callback is what waiting for its slot gives back,
/// and a callback for a slot no longer in use changes nothing.
pub proof fn law_callback_then_wait(
    slots: Map<u32, Option<(Seq<u8>, Seq<u8>)>>,
    slot: u32,
    response: Seq<u8>,
    buffer: Seq<u8>,
)
    ensures
        slots.dom().contains(slot) ==> after_callback(slots, slot, response, buffer)[slot] == Some(
            (response, buffer),
        ),
        slots.dom().contains(slot) ==> after_callback(slots, slot, response, buffer).dom()
            == slots.dom(),
        !slots.dom().contains(slot) ==> after_callback(slots, slot, response, buffer) == slots,
{
    if slots.dom().contains(slot) {
        assert(after_callback(slots, slot, response, buffer).dom() =~= slots.dom());
    }
}

} // verus!
