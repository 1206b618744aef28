//! Selector-based dispatch of a call payload to one of a contract's
//! constructors or messages.
//!
//! A payload is a 4-byte selector followed by the encoded argument tuple of
//! the handler that the selector names. The handler tables are fixed when a
//! [`Dispatch`] is built; all selectors across both tables are distinct.
use crate::codec::{
    decode_args, decode_args_at, encode_args, lemma_args_round_trip, types_of,
    ArgType, Value,
};
use crate::env::{output_of, EnvInstance, ReturnFlags};
use crate::codec::encode_output;
use vstd::prelude::*;

verus! {

/// Which handler table a payload is resolved against.
#[derive(Clone, Copy, Debug, PartialEq, Eq, Structural)]
pub enum DispatchMode {
    /// Deployment: the constructor table.
    Instantiate,
    /// An ordinary call: the message table.
    Call,
}

/// Why a payload could not be dispatched. No handler ran in either case.
#[derive(Clone, Copy, Debug, PartialEq, Eq, Structural)]
pub enum DispatchError {
    /// Fewer than 4 bytes, or the arguments could not be decoded.
    CouldNotReadInput,
    /// The selector is not in the active table.
    UnknownSelector,
}

/// Status code reported by an entry point: 0 on success, a distinct
/// non-zero code for each dispatch failure.
pub open spec fn status_code(r: Result<(), DispatchError>) -> u32 {
    match r {
        Ok(()) => 0,
        Err(DispatchError::UnknownSelector) => 1,
        Err(DispatchError::CouldNotReadInput) => 7,
    }
}

impl DispatchError {
    /// The non-zero status code of this failure.
    pub fn to_u32(self) -> (r: u32)
        ensures
            r == status_code(Err(self)),
            r != 0,
    {
        match self {
            DispatchError::UnknownSelector => 1,
            DispatchError::CouldNotReadInput => 7,
        }
    }
}

/// A constructor or message: its selector, the types of its arguments in
/// declaration order, its result type (none for a handler without a
/// result), and whether it may change the contract state.
pub struct HandlerDescriptor {
    pub selector: [u8; 4],
    pub inputs: Vec<ArgType>,
    pub output: Option<ArgType>,
    pub mutates: bool,
}

/// What a handler descriptor says, as plain values.
pub struct HandlerSpec {
    pub selector: Seq<u8>,
    pub inputs: Seq<ArgType>,
    pub output: Option<ArgType>,
    pub mutates: bool,
}

impl View for HandlerDescriptor {
    type V = HandlerSpec;

    open spec fn view(&self) -> HandlerSpec {
        HandlerSpec {
            selector: self.selector@,
            inputs: self.inputs@,
            output: self.output,
            mutates: self.mutates,
        }
    }
}

pub open spec fn specs_of(hs: Seq<HandlerDescriptor>) -> Seq<HandlerSpec> {
    hs.map_values(|h: HandlerDescriptor| h@)
}

pub open spec fn selectors_of(t: Seq<HandlerSpec>) -> Seq<Seq<u8>> {
    t.map_values(|h: HandlerSpec| h.selector)
}

/// No selector occurs twice in `s`.
pub open spec fn all_distinct(s: Seq<Seq<u8>>) -> bool {
    forall|i: int, j: int| 0 <= i < s.len() && 0 <= j < s.len() && i != j ==> s[i] != s[j]
}

/// `sel` is the selector of some handler of `t`.
pub open spec fn has_selector(t: Seq<HandlerSpec>, sel: Seq<u8>) -> bool {
    exists|i: int| 0 <= i < t.len() && t[i].selector == sel
}

/// The position in `t` of the handler whose selector is `sel`.
pub open spec fn handler_index(t: Seq<HandlerSpec>, sel: Seq<u8>) -> int {
    choose|i: int| 0 <= i < t.len() && t[i].selector == sel
}

/// The handler that `input` names in `t`, with its decoded arguments.
pub open spec fn decode_call(t: Seq<HandlerSpec>, input: Seq<u8>) -> Result<(int, Seq<Value>), DispatchError> {
    if input.len() < 4 {
        Err(DispatchError::CouldNotReadInput)
    } else if !has_selector(t, input.take(4)) {
        Err(DispatchError::UnknownSelector)
    } else {
        let i = handler_index(t, input.take(4));
        match decode_args(t[i].inputs, input.skip(4)) {
            None => Err(DispatchError::CouldNotReadInput),
            Some(args) => Ok((i, args)),
        }
    }
}

/// The state of a contract, together with its constructors and messages.
///
/// Handlers are numbered by their position in the dispatch tables.
pub trait ContractState: Sized {
    /// The state that constructor `handler` builds from `args`.
    spec fn constructed(handler: int, args: Seq<Value>) -> Self;

    /// The result of message `handler` on this state.
    spec fn message_output(&self, handler: int, args: Seq<Value>) -> Option<Value>;

    /// The state after message `handler`, for a message that may change it.
    spec fn message_state(&self, handler: int, args: Seq<Value>) -> Self;

    fn construct(handler: usize, args: &Vec<Value>) -> (r: Self)
        ensures
            r == Self::constructed(handler as int, args@),
    ;

    fn call_ref(&self, handler: usize, args: &Vec<Value>) -> (r: Option<Value>)
        ensures
            r == self.message_output(handler as int, args@),
    ;

    fn call_mut(&mut self, handler: usize, args: &Vec<Value>) -> (r: Option<Value>)
        ensures
            r == old(self).message_output(handler as int, args@),
            *final(self) == old(self).message_state(handler as int, args@),
    ;
}

/// Outcome of dispatching `input` in `mode` against `state`: the new state
/// and the handler's result, or the failure.
pub open spec fn dispatch_outcome<C: ContractState>(
    t: Seq<HandlerSpec>,
    mode: DispatchMode,
    input: Seq<u8>,
    state: C,
) -> Result<(C, Option<Value>), DispatchError> {
    match decode_call(t, input) {
        Err(e) => Err(e),
        Ok((i, args)) => match mode {
            DispatchMode::Instantiate => Ok((C::constructed(i, args), None)),
            DispatchMode::Call => {
                let out = state.message_output(i, args);
                if t[i].mutates {
                    Ok((state.message_state(i, args), out))
                } else {
                    Ok((state, out))
                }
            },
        },
    }
}

/// Status code of a dispatch outcome.
pub open spec fn outcome_status<C>(o: Result<(C, Option<Value>), DispatchError>) -> u32 {
    match o {
        Ok(_) => status_code(Ok(())),
        Err(e) => status_code(Err(e)),
    }
}

/// The handler tables of a contract.
pub struct Dispatch {
    constructors: Vec<HandlerDescriptor>,
    messages: Vec<HandlerDescriptor>,
}

/// `a@ == b@`, byte by byte.
fn same_selector(a: &[u8; 4], b: &[u8]) -> (r: bool)
    requires
        b@.len() >= 4,
    ensures
        r == (a@ == b@.take(4)),
{
    let r = a[0] == b[0] && a[1] == b[1] && a[2] == b[2] && a[3] == b[3];
    proof {
        if r {
            assert(a@ =~= b@.take(4));
        } else if a@ == b@.take(4) {
            assert(a@[0] == b@[0] && a@[1] == b@[1] && a@[2] == b@[2] && a@[3] == b@[3]);
        }
    }
    r
}

/// `a@ == b@`, byte by byte.
fn same_array(a: &[u8; 4], b: &[u8; 4]) -> (r: bool)
    ensures
        r == (a@ == b@),
{
    let r = a[0] == b[0] && a[1] == b[1] && a[2] == b[2] && a[3] == b[3];
    proof {
        if r {
            assert(a@ =~= b@);
        } else if a@ == b@ {
            assert(a@[0] == b@[0] && a@[1] == b@[1] && a@[2] == b@[2] && a@[3] == b@[3]);
        }
    }
    r
}

pub open spec fn array_views(s: Seq<[u8; 4]>) -> Seq<Seq<u8>> {
    s.map_values(|a: [u8; 4]| a@)
}

/// Whether the selectors in `sels` are pairwise distinct.
fn distinct_selectors(sels: &Vec<[u8; 4]>) -> (r: bool)
    ensures
        r == all_distinct(array_views(sels@)),
{
    let ghost vs = array_views(sels@);
    let mut i: usize = 0;
    while i < sels.len()
        invariant
            i <= sels@.len(),
            vs == array_views(sels@),
            forall|p: int, q: int| 0 <= p < i && 0 <= q < i && p != q ==> vs[p] != vs[q],
        decreases sels@.len() - i,
    {
        let mut j: usize = 0;
        while j < i
            invariant
                j <= i < sels@.len(),
                vs == array_views(sels@),
                forall|q: int| 0 <= q < j ==> vs[q] != vs[i as int],
            decreases i - j,
        {
            if same_array(&sels[j], &sels[i]) {
                proof {
                    assert(vs[j as int] == vs[i as int]);
                }
                return false;
            }
            j = j + 1;
        }
        i = i + 1;
    }
    true
}

/// Appends the selectors of `hs` to `out`.
fn push_selectors(hs: &Vec<HandlerDescriptor>, out: &mut Vec<[u8; 4]>)
    ensures
        array_views(final(out)@) == array_views(old(out)@) + selectors_of(specs_of(hs@)),
{
    let mut i: usize = 0;
    while i < hs.len()
        invariant
            i <= hs@.len(),
            array_views(out@) == array_views(old(out)@) + selectors_of(specs_of(hs@)).take(i as int),
        decreases hs@.len() - i,
    {
        let ghost before = out@;
        out.push(hs[i].selector);
        proof {
            assert(array_views(out@) =~= array_views(before).push(hs@[i as int].selector@));
            assert(selectors_of(specs_of(hs@)).take(i + 1) =~= selectors_of(specs_of(hs@)).take(
                i as int,
            ).push(hs@[i as int].selector@));
            assert(array_views(old(out)@) + selectors_of(specs_of(hs@)).take(i + 1)
                =~= (array_views(old(out)@) + selectors_of(specs_of(hs@)).take(i as int)).push(
                hs@[i as int].selector@,
            ));
        }
        i = i + 1;
    }
    proof {
        assert(selectors_of(specs_of(hs@)).take(i as int) =~= selectors_of(specs_of(hs@)));
    }
}

/// Position in `t` of the handler whose selector begins `input`, if any.
fn find_handler(t: &Vec<HandlerDescriptor>, input: &[u8]) -> (r: Option<usize>)
    requires
        input@.len() >= 4,
    ensures
        match r {
            Some(i) => i < t@.len() && t@[i as int].selector@ == input@.take(4),
            None => !has_selector(specs_of(t@), input@.take(4)),
        },
{
    let mut i: usize = 0;
    while i < t.len()
        invariant
            i <= t@.len(),
            input@.len() >= 4,
            forall|j: int| 0 <= j < i ==> t@[j].selector@ != input@.take(4),
        decreases t@.len() - i,
    {
        if same_selector(&t[i].selector, input) {
            return Some(i);
        }
        i = i + 1;
    }
    proof {
        let sp = specs_of(t@);
        assert forall|j: int| 0 <= j < sp.len() implies sp[j].selector != input@.take(4) by {
            assert(sp[j] == t@[j]@);
        }
    }
    None
}

impl Dispatch {
    /// The handler table consulted in `mode`.
    pub closed spec fn table(&self, mode: DispatchMode) -> Seq<HandlerSpec> {
        match mode {
            DispatchMode::Instantiate => specs_of(self.constructors@),
            DispatchMode::Call => specs_of(self.messages@),
        }
    }

    /// All selectors, constructors first.
    pub closed spec fn all_selectors(&self) -> Seq<Seq<u8>> {
        selectors_of(self.table(DispatchMode::Instantiate)) + selectors_of(
            self.table(DispatchMode::Call),
        )
    }

    /// Selectors are pairwise distinct across both tables.
    pub closed spec fn wf(&self) -> bool {
        all_distinct(self.all_selectors())
    }

    /// Builds the tables from the given constructors and messages; `None`
    /// when a selector occurs twice across the two.
    pub fn new(constructors: Vec<HandlerDescriptor>, messages: Vec<HandlerDescriptor>) -> (r: Option<Dispatch>)
        ensures
            match r {
                Some(d) => {
                    &&& d.wf()
                    &&& d.table(DispatchMode::Instantiate) == specs_of(constructors@)
                    &&& d.table(DispatchMode::Call) == specs_of(messages@)
                },
                None => !all_distinct(
                    selectors_of(specs_of(constructors@)) + selectors_of(specs_of(messages@)),
                ),
            },
    {
        let mut sels: Vec<[u8; 4]> = Vec::new();
        push_selectors(&constructors, &mut sels);
        push_selectors(&messages, &mut sels);
        proof {
            assert(array_views(Seq::<[u8; 4]>::empty()) =~= Seq::<Seq<u8>>::empty());
            assert(array_views(sels@) =~= selectors_of(specs_of(constructors@)) + selectors_of(
                specs_of(messages@),
            ));
        }
        if distinct_selectors(&sels) {
            Some(Dispatch { constructors, messages })
        } else {
            None
        }
    }

    /// The constructors, in table order.
    pub fn constructors(&self) -> (r: &Vec<HandlerDescriptor>)
        ensures
            specs_of(r@) == self.table(DispatchMode::Instantiate),
    {
        &self.constructors
    }

    /// The messages, in table order.
    pub fn messages(&self) -> (r: &Vec<HandlerDescriptor>)
        ensures
            specs_of(r@) == self.table(DispatchMode::Call),
    {
        &self.messages
    }

    /// Decodes `input` against the table of `mode`: the position of the
    /// named handler and its arguments.
    pub fn decode(&self, mode: DispatchMode, input: &[u8]) -> (r: Result<(usize, Vec<Value>), DispatchError>)
        requires
            self.wf(),
        ensures
            match r {
                Ok((i, args)) => decode_call(self.table(mode), input@) == Ok::<(int, Seq<Value>), DispatchError>((i as int, args@)),
                Err(e) => decode_call(self.table(mode), input@) == Err::<(int, Seq<Value>), DispatchError>(e),
            },
    {
        if input.len() < 4 {
            return Err(DispatchError::CouldNotReadInput);
        }
        let t = match mode {
            DispatchMode::Instantiate => &self.constructors,
            DispatchMode::Call => &self.messages,
        };
        proof {
            assert(specs_of(t@) == self.table(mode));
        }
        match find_handler(t, input) {
            None => Err(DispatchError::UnknownSelector),
            Some(i) => {
                proof {
                    self.lemma_index_unique(mode, i as int, input@.take(4));
                }
                match decode_args_at(t[i].inputs.as_slice(), input, 4) {
                    None => Err(DispatchError::CouldNotReadInput),
                    Some(args) => Ok((i, args)),
                }
            },
        }
    }

    /// Dispatches `input` in `mode`: decodes the selector and the
    /// arguments, runs the named handler on `state` (a constructor replaces
    /// the state) and returns its result (none for a constructor). On failure no handler ran
    /// and `state` is unchanged.
    pub fn dispatch<C: ContractState>(&self, mode: DispatchMode, input: &[u8], state: &mut C) -> (r: Result<Option<Value>, DispatchError>)
        requires
            self.wf(),
        ensures
            match r {
                Ok(out) => dispatch_outcome(self.table(mode), mode, input@, *old(state)) == Ok::<(C, Option<Value>), DispatchError>((*final(state), out)),
                Err(e) => {
                    &&& dispatch_outcome(self.table(mode), mode, input@, *old(state)) == Err::<(C, Option<Value>), DispatchError>(e)
                    &&& *final(state) == *old(state)
                },
            },
    {
        let (i, args) = match self.decode(mode, input) {
            Err(e) => {
                return Err(e);
            },
            Ok(call) => call,
        };
        match mode {
            DispatchMode::Instantiate => {
                *state = C::construct(i, &args);
                Ok(None)
            },
            DispatchMode::Call => {
                proof {
                    assert(self.table(mode)[i as int] == self.messages@[i as int]@);
                }
                let o = if self.messages[i].mutates {
                    state.call_mut(i, &args)
                } else {
                    state.call_ref(i, &args)
                };
                Ok(o)
            },
        }
    }

    /// Dispatches the call data of `env` in `mode` against `state`. On
    /// success the handler's encoded result becomes the call's output; on
    /// failure neither `env` nor `state` changes.
    pub fn dispatch_using_mode<C: ContractState>(&self, env: &mut EnvInstance, mode: DispatchMode, state: &mut C) -> (r: Result<(), DispatchError>)
        requires
            self.wf(),
        ensures
            match dispatch_outcome(self.table(mode), mode, old(env).exec_context.call_data@, *old(state)) {
                Ok((s, o)) => {
                    &&& r is Ok
                    &&& *final(state) == s
                    &&& output_of(final(env).exec_context) == Some(encode_output(o))
                },
                Err(e) => {
                    &&& r == Err::<(), DispatchError>(e)
                    &&& *final(state) == *old(state)
                    &&& *final(env) == *old(env)
                },
            },
            final(env).accounts == old(env).accounts,
            final(env).exec_context.call_data == old(env).exec_context.call_data,
            final(env).exec_context.callee == old(env).exec_context.callee,
            final(env).exec_context.caller == old(env).exec_context.caller,
    {
        let o = match self.dispatch(mode, env.exec_context.call_data.as_slice(), state) {
            Ok(o) => o,
            Err(e) => {
                return Err(e);
            },
        };
        let _ = env.return_value(ReturnFlags { reverted: false }, o);
        Ok(())
    }

    /// Deployment entry point: dispatches against the constructor table and
    /// reports the status code (0 on success).
    pub fn deploy<C: ContractState>(&self, env: &mut EnvInstance, state: &mut C) -> (r: u32)
        requires
            self.wf(),
        ensures
            r == outcome_status(
                dispatch_outcome(self.table(DispatchMode::Instantiate), DispatchMode::Instantiate, old(env).exec_context.call_data@, *old(state)),
            ),
    {
        match self.dispatch_using_mode(env, DispatchMode::Instantiate, state) {
            Ok(()) => 0,
            Err(e) => e.to_u32(),
        }
    }

    /// Call entry point: dispatches against the message table and reports
    /// the status code (0 on success).
    pub fn call<C: ContractState>(&self, env: &mut EnvInstance, state: &mut C) -> (r: u32)
        requires
            self.wf(),
        ensures
            r == outcome_status(
                dispatch_outcome(self.table(DispatchMode::Call), DispatchMode::Call, old(env).exec_context.call_data@, *old(state)),
            ),
            match dispatch_outcome(self.table(DispatchMode::Call), DispatchMode::Call, old(env).exec_context.call_data@, *old(state)) {
                Ok((s, o)) => *final(state) == s && output_of(final(env).exec_context) == Some(encode_output(o)),
                Err(_) => *final(state) == *old(state) && *final(env) == *old(env),
            },
    {
        match self.dispatch_using_mode(env, DispatchMode::Call, state) {
            Ok(()) => 0,
            Err(e) => e.to_u32(),
        }
    }

    /// A payload made of the selector of handler `i` followed by the
    /// encoding of arguments of that handler's types (and any trailing
    /// bytes) names handler `i` and no other, with exactly those arguments;
    /// dispatching it runs that handler alone on those arguments.
    pub proof fn lemma_dispatch_selects_handler<C: ContractState>(
        &self,
        mode: DispatchMode,
        i: int,
        args: Seq<Value>,
        rest: Seq<u8>,
        state: C,
    )
        requires
            self.wf(),
            0 <= i < self.table(mode).len(),
            types_of(args) == self.table(mode)[i].inputs,
        ensures
            decode_call(self.table(mode), self.table(mode)[i].selector + encode_args(args) + rest)
                == Ok::<(int, Seq<Value>), DispatchError>((i, args)),
            dispatch_outcome(self.table(mode), mode, self.table(mode)[i].selector + encode_args(args) + rest, state)
                == match mode {
                DispatchMode::Instantiate => Ok::<(C, Option<Value>), DispatchError>((C::constructed(i, args), None)),
                DispatchMode::Call => Ok((
                    if self.table(mode)[i].mutates {
                        state.message_state(i, args)
                    } else {
                        state
                    },
                    state.message_output(i, args),
                )),
            },
    {
        let t = self.table(mode);
        let sel = t[i].selector;
        let input = sel + encode_args(args) + rest;
        let h = match mode {
            DispatchMode::Instantiate => self.constructors@[i],
            DispatchMode::Call => self.messages@[i],
        };
        assert(t[i] == h@);
        assert(sel.len() == 4);
        assert(input.take(4) =~= sel);
        assert(input.skip(4) =~= encode_args(args) + rest);
        self.lemma_index_unique(mode, i, sel);
        lemma_args_round_trip(args, rest);
    }

    /// A payload shorter than 4 bytes is rejected with `CouldNotReadInput`
    /// before any handler runs.
    pub proof fn lemma_short_input<C: ContractState>(&self, mode: DispatchMode, input: Seq<u8>, state: C)
        requires
            input.len() < 4,
        ensures
            dispatch_outcome(self.table(mode), mode, input, state) == Err::<(C, Option<Value>), DispatchError>(
                DispatchError::CouldNotReadInput,
            ),
    {
    }

    /// A 4-byte payload that is not a selector of the active table is
    /// rejected with `UnknownSelector`.
    pub proof fn lemma_unknown_selector<C: ContractState>(&self, mode: DispatchMode, input: Seq<u8>, state: C)
        requires
            input.len() == 4,
            !has_selector(self.table(mode), input),
        ensures
            dispatch_outcome(self.table(mode), mode, input, state) == Err::<(C, Option<Value>), DispatchError>(
                DispatchError::UnknownSelector,
            ),
    {
        assert(input.take(4) =~= input);
    }

    proof fn lemma_index_unique(&self, mode: DispatchMode, i: int, sel: Seq<u8>)
        requires
            self.wf(),
            0 <= i < self.table(mode).len(),
            self.table(mode)[i].selector == sel,
        ensures
            has_selector(self.table(mode), sel),
            handler_index(self.table(mode), sel) == i,
    {
        let t = self.table(mode);
        let k = handler_index(t, sel);
        assert(has_selector(t, sel));
        let off: int = match mode {
            DispatchMode::Instantiate => 0,
            DispatchMode::Call => self.constructors@.len() as int,
        };
        let all = self.all_selectors();
        assert(all[off + i] == t[i].selector);
        assert(all[off + k] == t[k].selector);
    }
}

} // verus!
