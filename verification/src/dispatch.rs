use vstd::prelude::*;

verus! {

// ---------------------------------------------------------------------------
// The dispatch contract that generated code must satisfy, as a small
// runtime model: a table of optional slots, one per function, filled
// during a single registration phase and read-only afterwards. Dispatching
// a tagged parameter value routes it to the slot of its case; an empty
// slot answers `MethodNotFound`, and an adapter handed a case that is not
// its own answers `WrongParams`.
// ---------------------------------------------------------------------------

/// The errors the dispatch layer can signal.
#[derive(Clone, Copy, PartialEq, Eq, Structural, Debug)]
pub enum DispatchError {
    /// Dispatch was attempted against an unregistered slot.
    MethodNotFound,
    /// An adapter received a tagged-union case that is not its own;
    /// unreachable when routing keys on the method name.
    WrongParams,
    /// No case's record type structurally matched the payload.
    UnrecognizedShape,
}

impl DispatchError {
    /// The wording of this error.
    pub fn text(&self) -> (r: &'static str)
        ensures
            *self is MethodNotFound ==> r@ == "method not found"@,
            *self is WrongParams ==> r@ == "wrong params"@,
            *self is UnrecognizedShape ==> r@ == "unrecognized shape"@,
    {
        match self {
            DispatchError::MethodNotFound => "method not found",
            DispatchError::WrongParams => "wrong params",
            DispatchError::UnrecognizedShape => "unrecognized shape",
        }
    }
}

/// One value of a dispatch tagged-union: the index of its case, in the
/// fixed function order, and the payload of that case.
pub struct Case<P> {
    pub index: usize,
    pub value: P,
}

/// What a registered callback supplies: the typed behavior of one
/// function, mapping its parameters to its results.
pub trait SlotHandler<P, R> {
    fn call(&self, params: P) -> R;
}

/// The slot table of one handler: one optional callback per function.
/// Slots are set during registration and only read during dispatch.
pub struct HandlerTable<H> {
    slots: Vec<Option<H>>,
}

impl<H> View for HandlerTable<H> {
    type V = Seq<bool>;

    /// Which slots hold a registered handler.
    closed spec fn view(&self) -> Seq<bool> {
        self.slots@.map_values(|s: Option<H>| s is Some)
    }
}

impl<H> HandlerTable<H> {
    /// A table of `n` empty slots.
    pub fn new(n: usize) -> (r: Self)
        ensures
            r@.len() == n,
            forall|i: int| 0 <= i < n ==> !r@[i],
    {
        let mut slots: Vec<Option<H>> = Vec::new();
        let mut i: usize = 0;
        while i < n
            invariant
                i <= n,
                slots@.len() == i,
                forall|k: int| 0 <= k < i ==> slots@[k] is None,
            decreases n - i,
        {
            slots.push(None);
            i += 1;
        }
        let r = HandlerTable { slots };
        proof {
            assert(r@.len() == n);
        }
        r
    }

    /// How many slots the table has.
    pub fn len(&self) -> (r: usize)
        ensures
            r == self@.len(),
    {
        self.slots.len()
    }

    /// Registers a handler in slot `i`; other slots are untouched.
    pub fn register(&mut self, i: usize, h: H)
        requires
            i < old(self)@.len(),
        ensures
            final(self)@.len() == old(self)@.len(),
            final(self)@[i as int],
            forall|k: int| 0 <= k < old(self)@.len() && k != i ==> final(self)@[k] == old(
                self,
            )@[k],
    {
        self.slots.set(i, Some(h));
        proof {
            assert(final(self)@ =~= old(self)@.update(i as int, true));
        }
    }

    /// Routes one incoming parameter value to the slot of its case: the
    /// matching handler runs and its result is wrapped in the same case;
    /// an out-of-range case or an empty slot answers `MethodNotFound`.
    pub fn dispatch<P, R>(&self, params: Case<P>) -> (r: Result<Case<R>, DispatchError>) where
        H: SlotHandler<P, R>
        ensures
            (params.index < self@.len() && self@[params.index as int]) <==> r is Ok,
            r matches Err(e) ==> e == DispatchError::MethodNotFound,
            r matches Ok(out) ==> out.index == params.index,
    {
        if params.index >= self.slots.len() {
            return Err(DispatchError::MethodNotFound);
        }
        let index = params.index;
        match &self.slots[index] {
            Some(h) => {
                let value = h.call(params.value);
                Ok(Case { index, value })
            },
            None => Err(DispatchError::MethodNotFound),
        }
    }

    /// The defensive entry of one adapter: handed the whole tagged value,
    /// it accepts only its own case and reports any other as
    /// `WrongParams`; an empty own slot is `MethodNotFound`.
    pub fn dispatch_at<P, R>(&self, slot: usize, params: Case<P>) -> (r: Result<
        Case<R>,
        DispatchError,
    >) where H: SlotHandler<P, R>
        requires
            slot < self@.len(),
        ensures
            params.index != slot ==> r == Result::<Case<R>, DispatchError>::Err(
                DispatchError::WrongParams,
            ),
            params.index == slot && !self@[slot as int] ==> r == Result::<
                Case<R>,
                DispatchError,
            >::Err(DispatchError::MethodNotFound),
            params.index == slot && self@[slot as int] ==> (r matches Ok(out) && out.index
                == params.index),
    {
        if params.index != slot {
            return Err(DispatchError::WrongParams);
        }
        match &self.slots[slot] {
            Some(h) => {
                let value = h.call(params.value);
                Ok(Case { index: slot, value })
            },
            None => Err(DispatchError::MethodNotFound),
        }
    }
}

/// The attempt-in-order policy of shape-directed deserialization: given
/// which cases structurally matched a payload, the first match, in
/// declaration order, is the one accepted; no match is an unrecognized
/// shape.
pub fn select_case(matched: &Vec<bool>) -> (r: Result<usize, DispatchError>)
    ensures
        r matches Ok(i) ==> i < matched@.len() && matched@[i as int] && forall|j: int|
            0 <= j < i ==> !matched@[j],
        r is Err <==> forall|j: int| 0 <= j < matched@.len() ==> !matched@[j],
        r matches Err(e) ==> e == DispatchError::UnrecognizedShape,
{
    let mut i: usize = 0;
    while i < matched.len()
        invariant
            i <= matched.len(),
            forall|j: int| 0 <= j < i ==> !matched@[j],
        decreases matched.len() - i,
    {
        if matched[i] {
            return Ok(i);
        }
        i += 1;
    }
    Err(DispatchError::UnrecognizedShape)
}

} // verus!
