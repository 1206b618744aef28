//! A small contract that stores one `u32`: a constructor that sets it, a
//! message that returns its argument plus one, and a message that returns
//! the stored value.
use crate::codec::{ArgType, Value};
use crate::dispatch::{
    all_distinct, selectors_of, specs_of, ContractState, Dispatch, DispatchMode, HandlerDescriptor,
};
use vstd::prelude::*;

verus! {

/// The contract's state.
pub struct Counter {
    pub value: u32,
}

/// The first argument when it is a `u32`, else 0.
pub open spec fn first_u32(args: Seq<Value>) -> u32 {
    if args.len() > 0 {
        match args[0] {
            Value::U32(x) => x,
            _ => 0,
        }
    } else {
        0
    }
}

/// `x + 1`, wrapping to 0 past the largest `u32`.
pub open spec fn successor(x: u32) -> u32 {
    if x == u32::MAX {
        0
    } else {
        (x + 1) as u32
    }
}

fn first_u32_of(args: &Vec<Value>) -> (r: u32)
    ensures
        r == first_u32(args@),
{
    if args.len() > 0 {
        match args[0] {
            Value::U32(x) => x,
            _ => 0,
        }
    } else {
        0
    }
}

impl ContractState for Counter {
    /// The only constructor stores its argument.
    open spec fn constructed(handler: int, args: Seq<Value>) -> Counter {
        Counter { value: first_u32(args) }
    }

    /// Message 0 returns its argument plus one; message 1 returns the
    /// stored value.
    open spec fn message_output(&self, handler: int, args: Seq<Value>) -> Option<Value> {
        if handler == 0 {
            Some(Value::U32(successor(first_u32(args))))
        } else if handler == 1 {
            Some(Value::U32(self.value))
        } else {
            None
        }
    }

    /// No message changes the state.
    open spec fn message_state(&self, handler: int, args: Seq<Value>) -> Counter {
        *self
    }

    fn construct(handler: usize, args: &Vec<Value>) -> (r: Counter) {
        Counter { value: first_u32_of(args) }
    }

    fn call_ref(&self, handler: usize, args: &Vec<Value>) -> (r: Option<Value>) {
        if handler == 0 {
            let x = first_u32_of(args);
            Some(Value::U32(if x == u32::MAX { 0 } else { x + 1 }))
        } else if handler == 1 {
            Some(Value::U32(self.value))
        } else {
            None
        }
    }

    fn call_mut(&mut self, handler: usize, args: &Vec<Value>) -> (r: Option<Value>) {
        self.call_ref(handler, args)
    }
}

impl Counter {
    /// The dispatch tables: constructor `0x00000000` taking a `u32`;
    /// message `0x00000001` taking a `u32` and returning it plus one;
    /// message `0x00000002` taking nothing and returning the stored value.
    pub fn dispatch_table() -> (r: Dispatch)
        ensures
            r.wf(),
            r.table(DispatchMode::Instantiate).len() == 1,
            r.table(DispatchMode::Instantiate)[0].selector == seq![0u8, 0, 0, 0],
            r.table(DispatchMode::Instantiate)[0].inputs == seq![ArgType::U32],
            r.table(DispatchMode::Call).len() == 2,
            r.table(DispatchMode::Call)[0].selector == seq![0u8, 0, 0, 1],
            r.table(DispatchMode::Call)[0].inputs == seq![ArgType::U32],
            r.table(DispatchMode::Call)[0].output == Some(ArgType::U32),
            !r.table(DispatchMode::Call)[0].mutates,
            r.table(DispatchMode::Call)[1].selector == seq![0u8, 0, 0, 2],
            r.table(DispatchMode::Call)[1].inputs == Seq::<ArgType>::empty(),
            r.table(DispatchMode::Call)[1].output == Some(ArgType::U32),
            !r.table(DispatchMode::Call)[1].mutates,
    {
        let new = HandlerDescriptor {
            selector: [0, 0, 0, 0],
            inputs: vec![ArgType::U32],
            output: None,
            mutates: true,
        };
        let inc = HandlerDescriptor {
            selector: [0, 0, 0, 1],
            inputs: vec![ArgType::U32],
            output: Some(ArgType::U32),
            mutates: false,
        };
        let get = HandlerDescriptor {
            selector: [0, 0, 0, 2],
            inputs: Vec::new(),
            output: Some(ArgType::U32),
            mutates: false,
        };
        let constructors = vec![new];
        let messages = vec![inc, get];
        proof {
            let s = selectors_of(specs_of(constructors@)) + selectors_of(specs_of(messages@));
            assert(s[0] =~= seq![0u8, 0, 0, 0]);
            assert(s[1] =~= seq![0u8, 0, 0, 1]);
            assert(s[2] =~= seq![0u8, 0, 0, 2]);
            assert(s.len() == 3);
            assert(all_distinct(s)) by {
                assert forall|i: int, j: int| 0 <= i < s.len() && 0 <= j < s.len() && i != j implies s[i] != s[j] by {
                    assert(s[i][3] != s[j][3]);
                }
            }
            assert(messages@[0].inputs@ =~= seq![ArgType::U32]);
            assert(constructors@[0].inputs@ =~= seq![ArgType::U32]);
            assert(messages@[1].inputs@ =~= Seq::<ArgType>::empty());
        }
        let ghost cs = specs_of(constructors@);
        let ghost ms = specs_of(messages@);
        proof {
            assert(cs[0] == constructors@[0]@);
            assert(ms[0] == messages@[0]@);
            assert(ms[1] == messages@[1]@);
        }
        Dispatch::new(constructors, messages).unwrap()
    }
}

} // verus!
