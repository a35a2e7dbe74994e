//! Source filters: how a source is driven, lists of event listeners, and the
//! state and rules that every source filter shares.
use vstd::prelude::*;
use std::cell::RefCell;
use std::rc::Rc;

verus! {

/// How a source is driven: a set of the two flags `PUSH` (bit 0) and `PULL`
/// (bit 1).
#[allow(non_camel_case_types)]
#[derive(Clone, Copy, Debug, PartialEq, Eq, Structural)]
pub enum SourceMode {
    /// No flag.
    NONE,
    /// The source sends data downstream on its own.
    PUSH,
    /// The filter downstream fetches data from the source.
    PULL,
    /// Both flags.
    PUSH_PULL,
}

/// The flag set whose bits are the two low bits of `b`.
pub open spec fn mode_of_bits(b: u32) -> SourceMode {
    let m = b & 3;
    if m == 0 {
        SourceMode::NONE
    } else if m == 1 {
        SourceMode::PUSH
    } else if m == 2 {
        SourceMode::PULL
    } else {
        SourceMode::PUSH_PULL
    }
}

impl SourceMode {
    /// The flag bits of the set.
    pub open spec fn flag_bits(self) -> u32 {
        match self {
            SourceMode::NONE => 0,
            SourceMode::PUSH => 1,
            SourceMode::PULL => 2,
            SourceMode::PUSH_PULL => 3,
        }
    }

    /// The empty set of flags.
    pub fn empty() -> (r: SourceMode)
        ensures
            r.flag_bits() == 0,
    {
        SourceMode::NONE
    }

    /// The flag bits.
    pub fn bits(&self) -> (r: u32)
        ensures
            r == self.flag_bits(),
    {
        match self {
            SourceMode::NONE => 0,
            SourceMode::PUSH => 1,
            SourceMode::PULL => 2,
            SourceMode::PUSH_PULL => 3,
        }
    }

    /// The set whose bits are the two low bits of `b`; other bits are dropped.
    pub fn from_bits_truncate(b: u32) -> (r: SourceMode)
        ensures
            r == mode_of_bits(b),
    {
        let m = b & 3;
        if m == 0 {
            SourceMode::NONE
        } else if m == 1 {
            SourceMode::PUSH
        } else if m == 2 {
            SourceMode::PULL
        } else {
            SourceMode::PUSH_PULL
        }
    }

    /// Whether every flag of `other` is set in `self`.
    pub fn contains(&self, other: SourceMode) -> (r: bool)
        ensures
            r == (self.flag_bits() & other.flag_bits() == other.flag_bits()),
    {
        self.bits() & other.bits() == other.bits()
    }

    /// Whether `self` and `other` share a flag.
    pub fn intersects(&self, other: SourceMode) -> (r: bool)
        ensures
            r == (self.flag_bits() & other.flag_bits() != 0),
    {
        self.bits() & other.bits() != 0
    }
}

impl Default for SourceMode {
    fn default() -> (r: SourceMode)
        ensures
            r == SourceMode::NONE,
    {
        SourceMode::NONE
    }
}

impl core::ops::BitOr for SourceMode {
    type Output = SourceMode;

    fn bitor(self, rhs: SourceMode) -> (r: SourceMode) {
        SourceMode::from_bits_truncate(self.bits() | rhs.bits())
    }
}

impl vstd::std_specs::ops::BitOrSpecImpl for SourceMode {
    open spec fn obeys_bitor_spec() -> bool {
        true
    }

    open spec fn bitor_req(self, rhs: SourceMode) -> bool {
        true
    }

    open spec fn bitor_spec(self, rhs: SourceMode) -> SourceMode {
        mode_of_bits(self.flag_bits() | rhs.flag_bits())
    }
}

#[verifier::external_type_specification]
#[verifier::external_body]
#[verifier::reject_recursive_types(T)]
pub struct ExRefCell<T: ?Sized>(RefCell<T>);

/// `Rc::ptr_eq` on two listener handles: whether they point to the same
/// allocation. A handle's value is the cell it points to, and a `RefCell` is
/// known by the identity of its cell, not by its contents; so the claim is
/// that the result is `true` exactly when the two handles are equal.
#[verifier::external_body]
fn same_allocation<T: ?Sized>(a: &Rc<RefCell<T>>, b: &Rc<RefCell<T>>) -> (r: bool)
    ensures
        r == (*a == *b),
{
    Rc::ptr_eq(a, b)
}

/// `Rc::clone` on a listener handle: another handle of the same allocation,
/// which is the same value.
#[verifier::external_body]
fn clone_handle<T: ?Sized>(h: &Rc<RefCell<T>>) -> (r: Rc<RefCell<T>>)
    ensures
        r == *h,
{
    Rc::clone(h)
}

/// `RefCell::try_borrow_mut` on a shared handle: when the value is not
/// borrowed elsewhere, `f` is applied to it and the result is `true`; when
/// it is, `f` does not run and the result is `false`. Which of the two
/// happens rests on borrows held at run time and is left unsaid.
#[verifier::external_body]
pub(crate) fn apply_to_shared<T: ?Sized, F: Fn(&mut T)>(handle: &Rc<RefCell<T>>, f: &F) -> (r: bool)
    requires
        forall|t: &mut T| call_requires(*f, (t,)),
{
    match handle.try_borrow_mut() {
        Ok(mut value) => {
            f(&mut *value);
            true
        },
        Err(_) => false,
    }
}

/// A list of event listeners, each registered at most once.
#[verifier::reject_recursive_types(T)]
pub struct EventListenerList<T: ?Sized> {
    listeners: Vec<Rc<RefCell<T>>>,
}

impl<T: ?Sized> EventListenerList<T> {
    /// No listener is held twice.
    #[verifier::type_invariant]
    spec fn distinct(&self) -> bool {
        self.listeners@.no_duplicates()
    }
}

impl<T: ?Sized> View for EventListenerList<T> {
    type V = Seq<Rc<RefCell<T>>>;

    closed spec fn view(&self) -> Seq<Rc<RefCell<T>>> {
        self.listeners@
    }
}

impl<T: ?Sized> EventListenerList<T> {
    /// Whether no listener is held twice.
    pub open spec fn distinct_listeners(&self) -> bool {
        self@.no_duplicates()
    }

    /// An empty list.
    pub fn new() -> (r: Self)
        ensures
            r@ == Seq::<Rc<RefCell<T>>>::empty(),
            r.distinct_listeners(),
    {
        EventListenerList { listeners: Vec::new() }
    }

    /// Appends `listener` unless a handle of its allocation is registered
    /// already: `true` exactly when none was.
    pub fn add_event_listener(&mut self, listener: Rc<RefCell<T>>) -> (r: bool)
        ensures
            r == !old(self)@.contains(listener),
            r ==> final(self)@ == old(self)@.push(listener),
            !r ==> final(self)@ == old(self)@,
            final(self).distinct_listeners(),
    {
        self.register(&listener)
    }

    /// Appends a handle of the allocation of `listener` unless one is
    /// registered already.
    fn register(&mut self, listener: &Rc<RefCell<T>>) -> (r: bool)
        ensures
            r == !old(self)@.contains(*listener),
            r ==> final(self)@ == old(self)@.push(*listener),
            !r ==> final(self)@ == old(self)@,
            final(self).distinct_listeners(),
    {
        proof {
            use_type_invariant(&*self);
        }
        let mut i: usize = 0;
        while i < self.listeners.len()
            invariant
                i <= self.listeners@.len(),
                self.listeners@ == old(self)@,
                self.listeners@.no_duplicates(),
                forall|j: int| 0 <= j < i ==> self.listeners@[j] != *listener,
            decreases self.listeners@.len() - i,
        {
            if same_allocation(&self.listeners[i], listener) {
                assert(old(self)@[i as int] == *listener);
                return false;
            }
            i = i + 1;
        }
        let handle = clone_handle(listener);
        let ghost before = self.listeners@;
        proof {
            assert(!before.contains(*listener));
        }
        let mut listeners = Vec::new();
        core::mem::swap(&mut listeners, &mut self.listeners);
        listeners.push(handle);
        proof {
            assert forall|a: int, b: int| 0 <= a < b < listeners@.len() implies listeners@[a] != listeners@[b] by {
                if b == before.len() {
                    assert(listeners@[a] == before[a]);
                }
            }
        }
        self.listeners = listeners;
        true
    }

    /// Removes the registration of `listener`; `false` exactly when it is not
    /// registered.
    pub fn remove_event_listener(&mut self, listener: &Rc<RefCell<T>>) -> (r: bool)
        ensures
            r == old(self)@.contains(*listener),
            r ==> exists|i: int|
                0 <= i < old(self)@.len() && old(self)@[i] == *listener
                    && final(self)@ == old(self)@.remove(i),
            !r ==> final(self)@ == old(self)@,
            final(self).distinct_listeners(),
    {
        proof {
            use_type_invariant(&*self);
        }
        let mut i: usize = 0;
        while i < self.listeners.len()
            invariant
                i <= self.listeners@.len(),
                self.listeners@ == old(self)@,
                self.listeners@.no_duplicates(),
                forall|j: int| 0 <= j < i ==> self.listeners@[j] != *listener,
            decreases self.listeners@.len() - i,
        {
            if same_allocation(&self.listeners[i], listener) {
                let ghost before = self.listeners@;
                let mut listeners = Vec::new();
                core::mem::swap(&mut listeners, &mut self.listeners);
                listeners.remove(i);
                proof {
                    assert(listeners@ == before.remove(i as int));
                    assert forall|a: int, b: int| 0 <= a < b < listeners@.len() implies listeners@[a] != listeners@[b] by {
                        let a0 = if a < i { a } else { a + 1 };
                        let b0 = if b < i { b } else { b + 1 };
                        assert(listeners@[a] == before[a0]);
                        assert(listeners@[b] == before[b0]);
                    }
                }
                self.listeners = listeners;
                assert(old(self)@[i as int] == *listener);
                return true;
            }
            i = i + 1;
        }
        false
    }

    /// Removes every listener.
    pub fn remove_all_event_listeners(&mut self)
        ensures
            final(self)@ == Seq::<Rc<RefCell<T>>>::empty(),
    {
        self.listeners = Vec::new();
    }

    /// The number of registered listeners.
    pub fn event_listener_count(&self) -> (r: usize)
        ensures
            r == self@.len(),
    {
        self.listeners.len()
    }

    /// Applies `f` to every listener, in the order of registration, and
    /// returns how many it reached. A listener whose value is borrowed at the
    /// time (a call from inside one of its own events) is passed over.
    pub fn call_event_listener<F: Fn(&mut T)>(&self, f: F) -> (r: usize)
        requires
            forall|t: &mut T| call_requires(f, (t,)),
        ensures
            r <= self@.len(),
    {
        let mut reached: usize = 0;
        let mut i: usize = 0;
        while i < self.listeners.len()
            invariant
                reached <= i <= self.listeners@.len(),
                forall|t: &mut T| call_requires(f, (t,)),
            decreases self.listeners@.len() - i,
        {
            if apply_to_shared(&self.listeners[i], &f) {
                reached = reached + 1;
            }
            i = i + 1;
        }
        reached
    }
}

impl<T: ?Sized> Default for EventListenerList<T> {
    fn default() -> (r: Self)
        ensures
            r@ == Seq::<Rc<RefCell<T>>>::empty(),
    {
        EventListenerList::new()
    }
}

/// Receiver of the events of a source filter; every event is ignored by default.
pub trait SourceEventListener {
    /// The filter graph was reset.
    fn on_graph_reset(&mut self) {
    }

    /// A source was opened.
    fn on_source_opened(&mut self) {
    }

    /// The source was closed.
    fn on_source_closed(&mut self) {
    }

    /// The source was changed.
    fn on_source_changed(&mut self) {
    }

    /// Changing the source failed.
    fn on_source_change_failed(&mut self) {
    }

    /// The source reached its end.
    fn on_source_end(&mut self) {
    }

    /// Streaming started.
    fn on_streaming_start(&mut self) {
    }

    /// Streaming stopped.
    fn on_streaming_stop(&mut self) {
    }
}

/// A shared handle of a source event listener.
pub type SourceEventListenerHandle = Rc<RefCell<dyn SourceEventListener + 'static>>;

/// What every source filter holds: its mode and its listeners.
pub struct SourceFilterState {
    source_mode: SourceMode,
    listeners: EventListenerList<dyn SourceEventListener + 'static>,
}

impl SourceFilterState {
    /// The current source mode.
    pub closed spec fn mode(&self) -> SourceMode {
        self.source_mode
    }

    /// The registered listeners, in order.
    pub closed spec fn listener_seq(&self) -> Seq<SourceEventListenerHandle> {
        self.listeners@
    }

    /// A state in `mode` with no listener; the mode is kept as given.
    pub fn new(mode: SourceMode) -> (r: Self)
        ensures
            r.mode() == mode,
            r.listener_seq() == Seq::<SourceEventListenerHandle>::empty(),
    {
        SourceFilterState { source_mode: mode, listeners: EventListenerList::new() }
    }

    /// The current source mode.
    pub fn source_mode(&self) -> (r: SourceMode)
        ensures
            r == self.mode(),
    {
        self.source_mode
    }

    /// The list of listeners.
    pub fn listeners(&self) -> (r: &EventListenerList<dyn SourceEventListener + 'static>)
        ensures
            r@ == self.listener_seq(),
    {
        &self.listeners
    }

    /// Sets the source mode to `mode` when it is exactly one of `PUSH` and
    /// `PULL` and shares a flag with `available`, the modes the filter
    /// supports; otherwise nothing changes.
    pub fn set_source_mode(&mut self, mode: SourceMode, available: SourceMode) -> (r: bool)
        ensures
            r == ((mode == SourceMode::PUSH || mode == SourceMode::PULL)
                && available.flag_bits() & mode.flag_bits() != 0),
            final(self).mode() == (if r { mode } else { old(self).mode() }),
            final(self).listener_seq() == old(self).listener_seq(),
    {
        if mode != SourceMode::PUSH && mode != SourceMode::PULL {
            return false;
        }
        if !available.intersects(mode) {
            return false;
        }
        self.source_mode = mode;
        true
    }

    /// Tells every listener that the graph was reset.
    pub fn notify_graph_reset(&self) {
        self.listeners.call_event_listener(|l| l.on_graph_reset());
    }

    /// Tells every listener that a source was opened.
    pub fn notify_source_opened(&self) {
        self.listeners.call_event_listener(|l| l.on_source_opened());
    }

    /// Tells every listener that the source was closed.
    pub fn notify_source_closed(&self) {
        self.listeners.call_event_listener(|l| l.on_source_closed());
    }

    /// Tells every listener that the source was changed.
    pub fn notify_source_changed(&self) {
        self.listeners.call_event_listener(|l| l.on_source_changed());
    }

    /// Tells every listener that changing the source failed.
    pub fn notify_source_change_failed(&self) {
        self.listeners.call_event_listener(|l| l.on_source_change_failed());
    }

    /// Tells every listener that the source reached its end.
    pub fn notify_source_end(&self) {
        self.listeners.call_event_listener(|l| l.on_source_end());
    }

    /// Tells every listener that streaming started.
    pub fn notify_streaming_start(&self) {
        self.listeners.call_event_listener(|l| l.on_streaming_start());
    }

    /// Tells every listener that streaming stopped.
    pub fn notify_streaming_stop(&self) {
        self.listeners.call_event_listener(|l| l.on_streaming_stop());
    }
}

/// A source filter. An implementation provides the source operations and
/// access to its shared state; mode changes and listener registration follow
/// from those.
pub trait SourceFilter {
    /// Opens the source called `name`.
    fn open_source(&mut self, name: &str) -> bool;

    /// Closes the source.
    fn close_source(&mut self) -> bool;

    /// Whether a source is open.
    fn is_source_open(&self) -> bool;

    /// Fetches up to `request_size` bytes in pull mode; unsupported by default.
    fn fetch_source(&mut self, request_size: usize) -> (r: bool)
        default_ensures
            !r,
    {
        false
    }

    /// The source modes the filter supports.
    fn available_source_modes(&self) -> SourceMode;

    /// The shared state.
    fn source_state(&self) -> &SourceFilterState;

    /// The shared state, to be changed.
    fn source_state_mut(&mut self) -> &mut SourceFilterState;

    /// Ends the filter's work: closes the source.
    fn finalize(&mut self) {
        self.close_source();
    }

    /// The current source mode.
    fn get_source_mode(&self) -> SourceMode {
        self.source_state().source_mode()
    }

    /// Sets the source mode if the filter supports it (see
    /// `SourceFilterState::set_source_mode`): never for a mode other than
    /// exactly `PUSH` or `PULL`.
    fn set_source_mode(&mut self, mode: SourceMode) -> (r: bool)
        default_ensures
            r ==> (mode == SourceMode::PUSH || mode == SourceMode::PULL),
    {
        let available = self.available_source_modes();
        self.source_state_mut().set_source_mode(mode, available)
    }

    /// Registers `listener` unless that handle is registered already.
    fn add_event_listener(&mut self, listener: SourceEventListenerHandle) -> bool {
        self.source_state_mut().listeners.register(&listener)
    }

    /// Removes the registration of `listener`; `false` when it is not registered.
    fn remove_event_listener(&mut self, listener: &SourceEventListenerHandle) -> bool {
        self.source_state_mut().listeners.remove_event_listener(listener)
    }
}

} // verus!
