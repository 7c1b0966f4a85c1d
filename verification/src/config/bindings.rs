//! Mouse and gesture triggers, and the bindings that hold in a context.

use crate::config::keys::{KeyCombo, Modifiers};
use std::collections::HashMap;
use std::marker::PhantomData;
use vstd::prelude::*;

verus! {

broadcast use vstd::std_specs::hash::group_hash_axioms;

#[derive(Clone, Copy, Debug, PartialEq, Eq, Hash, Structural)]
pub enum BindingContext {
    OnWindow,
    OnCanvas,
    OnSection,
    Anywhere,
}

#[derive(Clone, Copy, Debug, PartialEq, Eq, Hash, Structural)]
pub enum MouseTrigger {
    Button(u32),
    TrackpadScroll,
    WheelScroll,
}

#[derive(Clone, Copy, Debug, PartialEq, Eq, Hash, Structural)]
pub struct MouseBinding {
    pub modifiers: Modifiers,
    pub trigger: MouseTrigger,
}

#[derive(Clone, Copy, Debug, PartialEq, Eq, Hash, Structural)]
pub enum GestureTrigger {
    Swipe { fingers: u32 },
    SwipeUp { fingers: u32 },
    SwipeDown { fingers: u32 },
    SwipeLeft { fingers: u32 },
    SwipeRight { fingers: u32 },
    DoubletapSwipe { fingers: u32 },
    Pinch { fingers: u32 },
    PinchIn { fingers: u32 },
    PinchOut { fingers: u32 },
    Hold { fingers: u32 },
}

#[derive(Clone, Copy, Debug, PartialEq, Eq, Hash, Structural)]
pub struct GestureBinding {
    pub modifiers: Modifiers,
    pub trigger: GestureTrigger,
}

/// What a binding can be looked up by: a value that a 64-bit number tells apart
/// from all others of its type.
pub trait BindingKey: Sized {
    /// The number that stands for this key.
    spec fn code_of(&self) -> u64;

    /// The number that stands for this key.
    fn code(&self) -> (code: u64)
        ensures
            code == self.code_of(),
    ;

    /// Two keys with the same number are the same key.
    proof fn code_tells_apart(a: Self, b: Self)
        requires
            a.code_of() == b.code_of(),
        ensures
            a == b,
    ;
}

impl Modifiers {
    /// A number below 16, one bit per modifier.
    pub open spec fn code_of(self) -> int {
        (if self.ctrl { 8int } else { 0 }) + (if self.alt { 4int } else { 0 }) + (if self.shift {
            2int
        } else {
            0
        }) + (if self.logo { 1int } else { 0 })
    }

    fn code(&self) -> (code: u64)
        ensures
            code == self.code_of(),
            code < 16,
    {
        (if self.ctrl { 8 } else { 0 }) + (if self.alt { 4 } else { 0 }) + (if self.shift {
            2
        } else {
            0
        }) + (if self.logo { 1 } else { 0 })
    }
}

impl BindingKey for KeyCombo {
    open spec fn code_of(&self) -> u64 {
        (self.sym.raw * 16 + self.modifiers.code_of()) as u64
    }

    fn code(&self) -> (code: u64) {
        self.sym.raw as u64 * 16 + self.modifiers.code()
    }

    proof fn code_tells_apart(a: KeyCombo, b: KeyCombo) {
        assert(0 <= a.modifiers.code_of() < 16);
        assert(0 <= b.modifiers.code_of() < 16);
        assert(a.sym.raw == b.sym.raw);
    }
}

impl MouseTrigger {
    /// A number below 2^32 + 2.
    pub open spec fn code_of(self) -> int {
        match self {
            MouseTrigger::TrackpadScroll => 0,
            MouseTrigger::WheelScroll => 1,
            MouseTrigger::Button(button) => 2 + button,
        }
    }

    fn code(&self) -> (code: u64)
        ensures
            code == self.code_of(),
    {
        match self {
            MouseTrigger::TrackpadScroll => 0,
            MouseTrigger::WheelScroll => 1,
            MouseTrigger::Button(button) => 2 + *button as u64,
        }
    }
}

impl BindingKey for MouseBinding {
    open spec fn code_of(&self) -> u64 {
        (self.trigger.code_of() * 16 + self.modifiers.code_of()) as u64
    }

    fn code(&self) -> (code: u64) {
        self.trigger.code() * 16 + self.modifiers.code()
    }

    proof fn code_tells_apart(a: MouseBinding, b: MouseBinding) {
        assert(0 <= a.modifiers.code_of() < 16);
        assert(0 <= b.modifiers.code_of() < 16);
        assert(a.trigger.code_of() == b.trigger.code_of());
    }
}

impl GestureTrigger {
    /// The number of fingers and the kind of gesture, a number below ten.
    pub open spec fn parts(self) -> (u32, int) {
        match self {
            GestureTrigger::Swipe { fingers } => (fingers, 0),
            GestureTrigger::SwipeUp { fingers } => (fingers, 1),
            GestureTrigger::SwipeDown { fingers } => (fingers, 2),
            GestureTrigger::SwipeLeft { fingers } => (fingers, 3),
            GestureTrigger::SwipeRight { fingers } => (fingers, 4),
            GestureTrigger::DoubletapSwipe { fingers } => (fingers, 5),
            GestureTrigger::Pinch { fingers } => (fingers, 6),
            GestureTrigger::PinchIn { fingers } => (fingers, 7),
            GestureTrigger::PinchOut { fingers } => (fingers, 8),
            GestureTrigger::Hold { fingers } => (fingers, 9),
        }
    }

    fn code(&self) -> (code: u64)
        ensures
            code == self.parts().0 * 10 + self.parts().1,
    {
        match self {
            GestureTrigger::Swipe { fingers } => *fingers as u64 * 10,
            GestureTrigger::SwipeUp { fingers } => *fingers as u64 * 10 + 1,
            GestureTrigger::SwipeDown { fingers } => *fingers as u64 * 10 + 2,
            GestureTrigger::SwipeLeft { fingers } => *fingers as u64 * 10 + 3,
            GestureTrigger::SwipeRight { fingers } => *fingers as u64 * 10 + 4,
            GestureTrigger::DoubletapSwipe { fingers } => *fingers as u64 * 10 + 5,
            GestureTrigger::Pinch { fingers } => *fingers as u64 * 10 + 6,
            GestureTrigger::PinchIn { fingers } => *fingers as u64 * 10 + 7,
            GestureTrigger::PinchOut { fingers } => *fingers as u64 * 10 + 8,
            GestureTrigger::Hold { fingers } => *fingers as u64 * 10 + 9,
        }
    }
}

impl BindingKey for GestureBinding {
    open spec fn code_of(&self) -> u64 {
        ((self.trigger.parts().0 * 10 + self.trigger.parts().1) * 16
            + self.modifiers.code_of()) as u64
    }

    fn code(&self) -> (code: u64) {
        self.trigger.code() * 16 + self.modifiers.code()
    }

    proof fn code_tells_apart(a: GestureBinding, b: GestureBinding) {
        assert(0 <= a.modifiers.code_of() < 16);
        assert(0 <= b.modifiers.code_of() < 16);
        assert(a.trigger.parts().0 * 10 + a.trigger.parts().1 == b.trigger.parts().0 * 10
            + b.trigger.parts().1);
        assert(a.trigger.parts() == b.trigger.parts());
    }
}

/// The bindings of one kind, by the context in which they hold. Each table is
/// keyed by the number that stands for a key.
pub struct ContextBindings<K: BindingKey, V> {
    pub on_window: HashMap<u64, V>,
    pub on_canvas: HashMap<u64, V>,
    pub on_section: HashMap<u64, V>,
    pub anywhere: HashMap<u64, V>,
    pub keys: PhantomData<K>,
}

impl<K: BindingKey, V> ContextBindings<K, V> {
    /// The table of one context.
    pub open spec fn table(self, context: BindingContext) -> Map<u64, V> {
        match context {
            BindingContext::OnWindow => self.on_window@,
            BindingContext::OnCanvas => self.on_canvas@,
            BindingContext::OnSection => self.on_section@,
            BindingContext::Anywhere => self.anywhere@,
        }
    }

    /// What is bound to `key` in `context` itself.
    pub open spec fn bound(self, context: BindingContext, key: K) -> Option<V> {
        self.table(context).get(key.code_of())
    }

    /// What a key does in a context: what is bound to it there, or else what is
    /// bound to it anywhere.
    pub open spec fn effective(self, context: BindingContext, key: K) -> Option<V> {
        match self.bound(context, key) {
            Some(value) => Some(value),
            None => self.bound(BindingContext::Anywhere, key),
        }
    }

    /// `self` differs from `before` in the table of `context` at most, which is
    /// `table`.
    pub open spec fn only_table_changed(
        self,
        before: Self,
        context: BindingContext,
        table: Map<u64, V>,
    ) -> bool {
        forall|c: BindingContext| #[trigger]
            self.table(c) == (if c == context {
                table
            } else {
                before.table(c)
            })
    }

    pub fn empty() -> (bindings: Self)
        ensures
            forall|c: BindingContext| #[trigger] bindings.table(c) == Map::<u64, V>::empty(),
    {
        ContextBindings {
            on_window: HashMap::new(),
            on_canvas: HashMap::new(),
            on_section: HashMap::new(),
            anywhere: HashMap::new(),
            keys: PhantomData,
        }
    }

    pub fn lookup(&self, key: &K, context: BindingContext) -> (value: Option<&V>)
        ensures
            match value {
                Some(v) => self.effective(context, *key) == Some(*v),
                None => self.effective(context, *key) is None,
            },
    {
        let code: u64 = key.code();
        let specific: &HashMap<u64, V> = match context {
            BindingContext::OnWindow => &self.on_window,
            BindingContext::OnCanvas => &self.on_canvas,
            BindingContext::OnSection => &self.on_section,
            BindingContext::Anywhere => return self.anywhere.get(&code),
        };
        match specific.get(&code) {
            Some(value) => Some(value),
            None => self.anywhere.get(&code),
        }
    }

    fn context_map_mut(&mut self, context: BindingContext) -> (table: &mut HashMap<u64, V>)
        ensures
            table@ == old(self).table(context),
            final(self).only_table_changed(*old(self), context, final(table)@),
    {
        match context {
            BindingContext::OnWindow => &mut self.on_window,
            BindingContext::OnCanvas => &mut self.on_canvas,
            BindingContext::OnSection => &mut self.on_section,
            BindingContext::Anywhere => &mut self.anywhere,
        }
    }

    pub fn insert(&mut self, context: BindingContext, key: K, value: V)
        ensures
            final(self).only_table_changed(
                *old(self),
                context,
                old(self).table(context).insert(key.code_of(), value),
            ),
    {
        let code: u64 = key.code();
        self.context_map_mut(context).insert(code, value);
    }

    pub fn remove(&mut self, context: BindingContext, key: &K)
        ensures
            final(self).only_table_changed(
                *old(self),
                context,
                old(self).table(context).remove(key.code_of()),
            ),
    {
        let code: u64 = key.code();
        self.context_map_mut(context).remove(&code);
    }
}

/// After `insert`, the key does what it was bound to in that context; another
/// key, and any context that the binding does not reach, is left as it was.
pub proof fn lemma_insert_binds<K: BindingKey, V>(
    before: ContextBindings<K, V>,
    after: ContextBindings<K, V>,
    context: BindingContext,
    key: K,
    value: V,
    other: K,
    elsewhere: BindingContext,
)
    requires
        after.only_table_changed(
            before,
            context,
            before.table(context).insert(key.code_of(), value),
        ),
    ensures
        after.effective(context, key) == Some(value),
        other != key ==> after.effective(elsewhere, other) == before.effective(elsewhere, other),
        elsewhere != context && !(context is Anywhere) ==> after.effective(elsewhere, other)
            == before.effective(elsewhere, other),
        context is Anywhere && before.bound(elsewhere, key) is None ==> after.effective(
            elsewhere,
            key,
        ) == Some(value),
{
    if other.code_of() == key.code_of() {
        K::code_tells_apart(other, key);
    }
    assert(after.table(context) == before.table(context).insert(key.code_of(), value));
    assert(after.table(elsewhere) == (if elsewhere == context {
        before.table(context).insert(key.code_of(), value)
    } else {
        before.table(elsewhere)
    }));
    assert(after.table(BindingContext::Anywhere) == (if context is Anywhere {
        before.table(context).insert(key.code_of(), value)
    } else {
        before.table(BindingContext::Anywhere)
    }));
}

/// After `remove`, only the binding for anywhere is left of the key in that
/// context, and nothing at all when it was removed from there; every other key
/// is left as it was.
pub proof fn lemma_remove_unbinds<K: BindingKey, V>(
    before: ContextBindings<K, V>,
    after: ContextBindings<K, V>,
    context: BindingContext,
    key: K,
    other: K,
    elsewhere: BindingContext,
)
    requires
        after.only_table_changed(before, context, before.table(context).remove(key.code_of())),
    ensures
        after.bound(context, key) is None,
        context is Anywhere ==> after.effective(context, key) is None,
        !(context is Anywhere) ==> after.effective(context, key) == before.bound(
            BindingContext::Anywhere,
            key,
        ),
        other != key ==> after.effective(elsewhere, other) == before.effective(elsewhere, other),
{
    if other.code_of() == key.code_of() {
        K::code_tells_apart(other, key);
    }
    assert(after.table(context) == before.table(context).remove(key.code_of()));
    assert(after.table(elsewhere) == (if elsewhere == context {
        before.table(context).remove(key.code_of())
    } else {
        before.table(elsewhere)
    }));
    assert(after.table(BindingContext::Anywhere) == (if context is Anywhere {
        before.table(context).remove(key.code_of())
    } else {
        before.table(BindingContext::Anywhere)
    }));
}

/// Each context has a table of its own, and a key without a binding in it does what
/// is bound to it anywhere; a binding in the context comes first.
pub proof fn lemma_contexts_come_before_anywhere<K: BindingKey, V>(
    bindings: ContextBindings<K, V>,
    context: BindingContext,
    key: K,
)
    ensures
        bindings.table(BindingContext::OnWindow) == bindings.on_window@,
        bindings.table(BindingContext::OnCanvas) == bindings.on_canvas@,
        bindings.table(BindingContext::OnSection) == bindings.on_section@,
        bindings.table(BindingContext::Anywhere) == bindings.anywhere@,
        bindings.table(context).contains_key(key.code_of()) ==> bindings.effective(context, key)
            == Some(bindings.table(context)[key.code_of()]),
        !bindings.table(context).contains_key(key.code_of()) && bindings.anywhere@.contains_key(
            key.code_of(),
        ) ==> bindings.effective(context, key) == Some(bindings.anywhere@[key.code_of()]),
        !bindings.table(context).contains_key(key.code_of()) && !bindings.anywhere@.contains_key(
            key.code_of(),
        ) ==> bindings.effective(context, key) is None,
{
}

} // verus!
