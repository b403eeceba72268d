//! The executor: walks a node sequence against a mutable interpreter
//! state (value stack, global and scoped bindings, gathered output) and
//! either finishes or aborts on the first runtime fault.
//!
//! Execution is proved to follow the specification-level interpreter
//! `spec_run_nodes` step for step.  Nested invocations of quotations
//! (through `if` or a bound name) consume one unit of recursion depth;
//! a run starts with `MAX_DEPTH` units and fails cleanly when they are
//! spent, since the source language imposes no bound of its own.
use vstd::prelude::*;
use crate::error::{RuntimeError, RuntimeErrorV, InterpError, InterpErrorV};
use crate::lexer::{Token, TokenV};
use crate::number::Number;
use crate::parser::{Node, NodeV, node_view, nodes_view, lemma_nodes_view};
use crate::render::{render_val, render_vals, render_val_x, render_vals_x};
use crate::text::string_from_chars;
use crate::value::{
    Value, ValueV, value_view, values_view, lemma_values_view, lemma_values_view_push,
    spec_val_add, spec_val_sub, spec_val_mul, spec_val_div, spec_val_lt, spec_val_le,
    spec_val_cast, clone_value, clone_nodes, value_eq,
};

verus! {

/// Units of recursion depth a run starts with; each nested invocation of
/// a quotation spends one.
pub const MAX_DEPTH: u64 = 1024;

/// The closed set of builtin words, dispatched before any user binding.
#[derive(Debug, Clone, Copy, PartialEq, Eq, Structural)]
pub enum Builtin {
    Add,
    Sub,
    Mul,
    Div,
    PushTrue,
    PushFalse,
    CmpEq,
    CmpNe,
    Gt,
    Lt,
    Ge,
    Le,
    Print,
    Debug,
    Swap,
    Take,
    GlobalBind,
    Cast,
    If,
}

/// The builtin a word names, if any.
pub open spec fn builtin_of(w: Seq<char>) -> Option<Builtin> {
    if w == "+"@ {
        Some(Builtin::Add)
    } else if w == "-"@ {
        Some(Builtin::Sub)
    } else if w == "*"@ {
        Some(Builtin::Mul)
    } else if w == "/"@ {
        Some(Builtin::Div)
    } else if w == "true"@ {
        Some(Builtin::PushTrue)
    } else if w == "false"@ {
        Some(Builtin::PushFalse)
    } else if w == "=="@ {
        Some(Builtin::CmpEq)
    } else if w == "!="@ {
        Some(Builtin::CmpNe)
    } else if w == ">"@ {
        Some(Builtin::Gt)
    } else if w == "<"@ {
        Some(Builtin::Lt)
    } else if w == ">="@ {
        Some(Builtin::Ge)
    } else if w == "<="@ {
        Some(Builtin::Le)
    } else if w == "print"@ {
        Some(Builtin::Print)
    } else if w == "debug"@ {
        Some(Builtin::Debug)
    } else if w == "swap"@ {
        Some(Builtin::Swap)
    } else if w == "take"@ {
        Some(Builtin::Take)
    } else if w == "global_bind"@ {
        Some(Builtin::GlobalBind)
    } else if w == "cast"@ {
        Some(Builtin::Cast)
    } else if w == "if"@ {
        Some(Builtin::If)
    } else {
        None
    }
}

/// The builtin a word names, as a runtime lookup.
pub fn builtin_for(w: &String) -> (r: Option<Builtin>)
    ensures
        r == builtin_of(w@),
{
    if *w == "+".to_owned() {
        Some(Builtin::Add)
    } else if *w == "-".to_owned() {
        Some(Builtin::Sub)
    } else if *w == "*".to_owned() {
        Some(Builtin::Mul)
    } else if *w == "/".to_owned() {
        Some(Builtin::Div)
    } else if *w == "true".to_owned() {
        Some(Builtin::PushTrue)
    } else if *w == "false".to_owned() {
        Some(Builtin::PushFalse)
    } else if *w == "==".to_owned() {
        Some(Builtin::CmpEq)
    } else if *w == "!=".to_owned() {
        Some(Builtin::CmpNe)
    } else if *w == ">".to_owned() {
        Some(Builtin::Gt)
    } else if *w == "<".to_owned() {
        Some(Builtin::Lt)
    } else if *w == ">=".to_owned() {
        Some(Builtin::Ge)
    } else if *w == "<=".to_owned() {
        Some(Builtin::Le)
    } else if *w == "print".to_owned() {
        Some(Builtin::Print)
    } else if *w == "debug".to_owned() {
        Some(Builtin::Debug)
    } else if *w == "swap".to_owned() {
        Some(Builtin::Swap)
    } else if *w == "take".to_owned() {
        Some(Builtin::Take)
    } else if *w == "global_bind".to_owned() {
        Some(Builtin::GlobalBind)
    } else if *w == "cast".to_owned() {
        Some(Builtin::Cast)
    } else if *w == "if".to_owned() {
        Some(Builtin::If)
    } else {
        None
    }
}

/// Mathematical model of the interpreter state: the value stack (top at
/// the end), the two binding maps, and the output lines gathered so far.
#[verifier::ext_equal]
pub struct StateV {
    pub stack: Seq<ValueV>,
    pub globals: Map<Seq<char>, ValueV>,
    pub scoped: Map<Seq<char>, ValueV>,
    pub output: Seq<Seq<char>>,
}

/// The model of a binding list: later entries shadow earlier ones.
pub open spec fn assoc_view(s: Seq<(String, Value)>) -> Map<Seq<char>, ValueV>
    decreases s,
{
    if s.len() == 0 {
        Map::empty()
    } else {
        assoc_view(s.drop_last()).insert(s.last().0@, value_view(s.last().1))
    }
}

/// The models of a line sequence.
pub open spec fn strs_view(s: Seq<String>) -> Seq<Seq<char>> {
    Seq::new(s.len(), |i: int| s[i]@)
}

/// The interpreter state: a value stack (top at the end), global and
/// scoped bindings, and the output lines produced by `print` and
/// `debug`.  Scoped bindings shadow globals during lookup; the builtin
/// word set binds only globals, so a plain run never fills the scoped
/// list.
pub struct State {
    pub stack: Vec<Value>,
    pub globals: Vec<(String, Value)>,
    pub scoped: Vec<(String, Value)>,
    pub output: Vec<String>,
}

impl View for State {
    type V = StateV;

    open spec fn view(&self) -> StateV {
        StateV {
            stack: values_view(self.stack@),
            globals: assoc_view(self.globals@),
            scoped: assoc_view(self.scoped@),
            output: strs_view(self.output@),
        }
    }
}

/// The state a run begins in: nothing on the stack, no bindings, no
/// output.
pub open spec fn init_state() -> StateV {
    StateV {
        stack: Seq::empty(),
        globals: Map::empty(),
        scoped: Map::empty(),
        output: Seq::empty(),
    }
}

/// The rendering of the whole stack, bottom first, as `debug` emits it.
pub open spec fn render_stack(stack: Seq<ValueV>) -> Seq<char> {
    seq!['['] + render_vals(stack) + seq![']']
}

/// What one builtin does to the state, or the fault it raises.
pub open spec fn spec_run_builtin(st: StateV, b: Builtin, depth: nat) -> Result<
    StateV,
    RuntimeErrorV,
>
    decreases depth, 0nat, 0int,
{
    let n = st.stack.len();
    match b {
        Builtin::Add => if n < 2 {
            Err(RuntimeErrorV::StackEmpty)
        } else {
            match spec_val_add(st.stack[n - 2], st.stack[n - 1]) {
                Ok(v) => Ok(StateV { stack: st.stack.take(n - 2).push(v), ..st }),
                Err(e) => Err(e),
            }
        },
        Builtin::Sub => if n < 2 {
            Err(RuntimeErrorV::StackEmpty)
        } else {
            match spec_val_sub(st.stack[n - 2], st.stack[n - 1]) {
                Ok(v) => Ok(StateV { stack: st.stack.take(n - 2).push(v), ..st }),
                Err(e) => Err(e),
            }
        },
        Builtin::Mul => if n < 2 {
            Err(RuntimeErrorV::StackEmpty)
        } else {
            match spec_val_mul(st.stack[n - 2], st.stack[n - 1]) {
                Ok(v) => Ok(StateV { stack: st.stack.take(n - 2).push(v), ..st }),
                Err(e) => Err(e),
            }
        },
        Builtin::Div => if n < 2 {
            Err(RuntimeErrorV::StackEmpty)
        } else {
            match spec_val_div(st.stack[n - 2], st.stack[n - 1]) {
                Ok(v) => Ok(StateV { stack: st.stack.take(n - 2).push(v), ..st }),
                Err(e) => Err(e),
            }
        },
        Builtin::PushTrue => Ok(StateV { stack: st.stack.push(ValueV::Bool(true)), ..st }),
        Builtin::PushFalse => Ok(StateV { stack: st.stack.push(ValueV::Bool(false)), ..st }),
        Builtin::CmpEq => if n < 2 {
            Err(RuntimeErrorV::StackEmpty)
        } else {
            Ok(
                StateV {
                    stack: st.stack.take(n - 2).push(
                        ValueV::Bool(st.stack[n - 2] == st.stack[n - 1]),
                    ),
                    ..st
                },
            )
        },
        Builtin::CmpNe => if n < 2 {
            Err(RuntimeErrorV::StackEmpty)
        } else {
            Ok(
                StateV {
                    stack: st.stack.take(n - 2).push(
                        ValueV::Bool(st.stack[n - 2] != st.stack[n - 1]),
                    ),
                    ..st
                },
            )
        },
        Builtin::Gt => if n < 2 {
            Err(RuntimeErrorV::StackEmpty)
        } else {
            Ok(
                StateV {
                    stack: st.stack.take(n - 2).push(
                        ValueV::Bool(spec_val_lt(st.stack[n - 1], st.stack[n - 2])),
                    ),
                    ..st
                },
            )
        },
        Builtin::Lt => if n < 2 {
            Err(RuntimeErrorV::StackEmpty)
        } else {
            Ok(
                StateV {
                    stack: st.stack.take(n - 2).push(
                        ValueV::Bool(spec_val_lt(st.stack[n - 2], st.stack[n - 1])),
                    ),
                    ..st
                },
            )
        },
        Builtin::Ge => if n < 2 {
            Err(RuntimeErrorV::StackEmpty)
        } else {
            Ok(
                StateV {
                    stack: st.stack.take(n - 2).push(
                        ValueV::Bool(spec_val_le(st.stack[n - 1], st.stack[n - 2])),
                    ),
                    ..st
                },
            )
        },
        Builtin::Le => if n < 2 {
            Err(RuntimeErrorV::StackEmpty)
        } else {
            Ok(
                StateV {
                    stack: st.stack.take(n - 2).push(
                        ValueV::Bool(spec_val_le(st.stack[n - 2], st.stack[n - 1])),
                    ),
                    ..st
                },
            )
        },
        Builtin::Print => if n < 1 {
            Err(RuntimeErrorV::StackEmpty)
        } else {
            Ok(
                StateV {
                    stack: st.stack.take(n - 1),
                    output: st.output.push(render_val(st.stack[n - 1])),
                    ..st
                },
            )
        },
        Builtin::Debug => Ok(StateV { output: st.output.push(render_stack(st.stack)), ..st }),
        Builtin::Swap => if n < 2 {
            Err(RuntimeErrorV::StackEmpty)
        } else {
            Ok(
                StateV {
                    stack: st.stack.take(n - 2).push(st.stack[n - 1]).push(st.stack[n - 2]),
                    ..st
                },
            )
        },
        Builtin::Take => if n < 1 {
            Err(RuntimeErrorV::StackEmpty)
        } else {
            match st.stack[n - 1] {
                ValueV::Num(Number::U64(idx)) => {
                    let rest = st.stack.take(n - 1);
                    if idx >= rest.len() {
                        Err(RuntimeErrorV::IndexOutOfRange)
                    } else {
                        let pos = rest.len() - 1 - idx;
                        Ok(StateV { stack: rest.remove(pos).push(rest[pos]), ..st })
                    }
                },
                _ => Err(RuntimeErrorV::WrongType),
            }
        },
        Builtin::GlobalBind => if n < 1 {
            Err(RuntimeErrorV::StackEmpty)
        } else {
            match st.stack[n - 1] {
                ValueV::Str(name) => if n < 2 {
                    Err(RuntimeErrorV::StackEmpty)
                } else {
                    Ok(
                        StateV {
                            stack: st.stack.take(n - 2),
                            globals: st.globals.insert(name, st.stack[n - 2]),
                            ..st
                        },
                    )
                },
                _ => Err(RuntimeErrorV::WrongType),
            }
        },
        Builtin::Cast => if n < 1 {
            Err(RuntimeErrorV::StackEmpty)
        } else {
            match st.stack[n - 1] {
                ValueV::Str(name) => if n < 2 {
                    Err(RuntimeErrorV::StackEmpty)
                } else {
                    match spec_val_cast(st.stack[n - 2], name) {
                        Ok(v) => Ok(StateV { stack: st.stack.take(n - 2).push(v), ..st }),
                        Err(e) => Err(e),
                    }
                },
                _ => Err(RuntimeErrorV::WrongType),
            }
        },
        Builtin::If => if n < 2 {
            Err(RuntimeErrorV::StackEmpty)
        } else {
            match (st.stack[n - 2], st.stack[n - 1]) {
                (ValueV::Bool(c), ValueV::Func(body)) => {
                    let popped = StateV { stack: st.stack.take(n - 2), ..st };
                    if c {
                        if depth == 0 {
                            Err(RuntimeErrorV::DepthExceeded)
                        } else {
                            spec_run_nodes(popped, body, (depth - 1) as nat)
                        }
                    } else {
                        Ok(popped)
                    }
                },
                _ => Err(RuntimeErrorV::WrongType),
            }
        },
    }
}

/// What executing one node does: literals and groups push a value; an
/// identifier runs a builtin, or runs the quotation it is bound to.
pub open spec fn spec_run_node(st: StateV, n: NodeV, depth: nat) -> Result<StateV, RuntimeErrorV>
    decreases depth, 0nat, 1int,
{
    match n {
        NodeV::Leaf(TokenV::Number(num)) => Ok(
            StateV { stack: st.stack.push(ValueV::Num(num)), ..st },
        ),
        NodeV::Leaf(TokenV::StrLit(s)) => Ok(
            StateV { stack: st.stack.push(ValueV::Str(s)), ..st },
        ),
        NodeV::Leaf(TokenV::OpenBracket) => Err(RuntimeErrorV::StrayBracket),
        NodeV::Leaf(TokenV::CloseBracket) => Err(RuntimeErrorV::StrayBracket),
        NodeV::Group(inner) => Ok(StateV { stack: st.stack.push(ValueV::Func(inner)), ..st }),
        NodeV::Leaf(TokenV::Identifier(w)) => match builtin_of(w) {
            Some(b) => spec_run_builtin(st, b, depth),
            None => {
                let found = if st.scoped.contains_key(w) {
                    Some(st.scoped[w])
                } else if st.globals.contains_key(w) {
                    Some(st.globals[w])
                } else {
                    None
                };
                match found {
                    None => Err(RuntimeErrorV::UnknownWord(w)),
                    Some(v) => match v {
                        ValueV::Func(body) => if depth == 0 {
                            Err(RuntimeErrorV::DepthExceeded)
                        } else {
                            spec_run_nodes(st, body, (depth - 1) as nat)
                        },
                        _ => Err(RuntimeErrorV::WrongType),
                    },
                }
            },
        },
    }
}

/// What executing a node sequence does: each node in order, stopping at
/// the first fault.
pub open spec fn spec_run_nodes(st: StateV, ns: Seq<NodeV>, depth: nat) -> Result<
    StateV,
    RuntimeErrorV,
>
    decreases depth, ns.len(), 2int,
{
    if ns.len() == 0 {
        Ok(st)
    } else {
        match spec_run_node(st, ns[0], depth) {
            Err(e) => Err(e),
            Ok(s2) => spec_run_nodes(s2, ns.skip(1), depth),
        }
    }
}

/// What a whole run does: the node sequence against the initial state,
/// with the full recursion budget.
pub open spec fn spec_run(ns: Seq<NodeV>) -> Result<StateV, RuntimeErrorV> {
    spec_run_nodes(init_state(), ns, MAX_DEPTH as nat)
}

/// Taking a prefix commutes with taking value views.
proof fn lemma_values_view_take(s: Seq<Value>, m: int)
    requires
        0 <= m <= s.len(),
    ensures
        values_view(s.take(m)) == values_view(s).take(m),
{
    lemma_values_view(s);
    lemma_values_view(s.take(m));
    assert(values_view(s.take(m)) =~= values_view(s).take(m));
}

/// Removing an element commutes with taking value views.
proof fn lemma_values_view_remove(s: Seq<Value>, p: int)
    requires
        0 <= p < s.len(),
    ensures
        values_view(s.remove(p)) == values_view(s).remove(p),
{
    lemma_values_view(s);
    lemma_values_view(s.remove(p));
    assert(values_view(s.remove(p)) =~= values_view(s).remove(p));
}

/// Pushing a line commutes with taking line views.
proof fn lemma_strs_view_push(s: Seq<String>, x: String)
    ensures
        strs_view(s.push(x)) == strs_view(s).push(x@),
{
    assert(strs_view(s.push(x)) =~= strs_view(s).push(x@));
}

/// Looks a name up in a binding list; the newest binding wins.
fn assoc_get(list: &Vec<(String, Value)>, key: &String) -> (r: Option<Value>)
    ensures
        match r {
            Some(v) => assoc_view(list@).contains_key(key@) && value_view(v) == assoc_view(
                list@,
            )[key@],
            None => !assoc_view(list@).contains_key(key@),
        },
{
    let mut i: usize = list.len();
    proof {
        assert(list@.take(i as int) =~= list@);
    }
    while i > 0
        invariant
            i <= list@.len(),
            assoc_view(list@).contains_key(key@) ==> assoc_view(
                list@.take(i as int),
            ).contains_key(key@),
            assoc_view(list@.take(i as int)).contains_key(key@) ==> assoc_view(
                list@,
            ).contains_key(key@) && assoc_view(list@.take(i as int))[key@] == assoc_view(
                list@,
            )[key@],
        decreases i,
    {
        let idx = i - 1;
        proof {
            assert(list@.take(i as int).drop_last() =~= list@.take(idx as int));
            assert(list@.take(i as int).last() == list@[idx as int]);
        }
        let p = &list[idx];
        if p.0 == *key {
            let c = clone_value(&p.1);
            return Some(c);
        }
        i = idx;
    }
    proof {
        assert(list@.take(0) =~= Seq::<(String, Value)>::empty());
    }
    None
}

impl State {
    /// A fresh state: empty stack, no bindings, no output.
    pub fn new() -> (r: State)
        ensures
            r@ == init_state(),
    {
        let st = State {
            stack: Vec::new(),
            globals: Vec::new(),
            scoped: Vec::new(),
            output: Vec::new(),
        };
        proof {
            assert(values_view(st.stack@) =~= Seq::<ValueV>::empty());
            assert(strs_view(st.output@) =~= Seq::<Seq<char>>::empty());
            assert(st@ =~= init_state());
        }
        st
    }

    /// Removes and returns the top of the stack, or reports it empty.
    fn pop(&mut self) -> (r: Result<Value, RuntimeError>)
        ensures
            old(self)@.stack.len() > 0 ==> (r matches Ok(v) && value_view(v) == old(
                self,
            )@.stack.last() && final(self)@ == (StateV {
                stack: old(self)@.stack.drop_last(),
                ..old(self)@
            })),
            old(self)@.stack.len() == 0 ==> (r matches Err(e) && e@
                == RuntimeErrorV::StackEmpty && final(self)@ == old(self)@),
    {
        proof {
            lemma_values_view(self.stack@);
        }
        let ghost pre = self.stack@;
        match self.stack.pop() {
            Some(v) => {
                proof {
                    assert(pre.subrange(0, pre.len() - 1) =~= pre.drop_last());
                    lemma_values_view_take(pre, pre.len() - 1);
                    assert(pre.take(pre.len() - 1) =~= pre.drop_last());
                    assert(values_view(pre).take(pre.len() - 1) =~= values_view(
                        pre,
                    ).drop_last());
                    assert(self@ =~= (StateV {
                        stack: values_view(pre).drop_last(),
                        ..old(self)@
                    }));
                }
                Ok(v)
            },
            None => Err(RuntimeError::StackEmpty),
        }
    }

    /// Pushes a value onto the stack.
    fn push_val(&mut self, v: Value)
        ensures
            final(self)@ == (StateV {
                stack: old(self)@.stack.push(value_view(v)),
                ..old(self)@
            }),
    {
        let ghost pre = self.stack@;
        let ghost vv = value_view(v);
        self.stack.push(v);
        proof {
            lemma_values_view_push(pre, v);
            assert(self@ =~= (StateV { stack: values_view(pre).push(vv), ..old(self)@ }));
        }
    }

    /// Appends one output line.
    fn out_line(&mut self, line: &Vec<char>)
        ensures
            final(self)@ == (StateV { output: old(self)@.output.push(line@), ..old(self)@ }),
    {
        let ghost pre = self.output@;
        let s = string_from_chars(line);
        self.output.push(s);
        proof {
            lemma_strs_view_push(pre, s);
            assert(self@ =~= (StateV { output: strs_view(pre).push(line@), ..old(self)@ }));
        }
    }

    /// Runs one builtin against the state.
    fn run_builtin(&mut self, b: Builtin, depth: u64) -> (r: Result<(), RuntimeError>)
        ensures
            r matches Ok(_) ==> spec_run_builtin(old(self)@, b, depth as nat) == Ok::<
                StateV,
                RuntimeErrorV,
            >(final(self)@),
            r matches Err(e) ==> spec_run_builtin(old(self)@, b, depth as nat) == Err::<
                StateV,
                RuntimeErrorV,
            >(e@),
        decreases depth, 0nat, 0int,
    {
        let ghost st = old(self)@;
        let ghost n = st.stack.len();
        match b {
            Builtin::Add => {
                let b_ = match self.pop() {
                    Ok(v) => v,
                    Err(e) => {
                        return Err(e);
                    },
                };
                let a_ = match self.pop() {
                    Ok(v) => v,
                    Err(e) => {
                        return Err(e);
                    },
                };
                proof {
                    assert(st.stack.drop_last().drop_last() =~= st.stack.take(n - 2));
                }
                match a_.add(b_) {
                    Ok(v) => {
                        self.push_val(v);
                        Ok(())
                    },
                    Err(e) => Err(e),
                }
            },
            Builtin::Sub => {
                let b_ = match self.pop() {
                    Ok(v) => v,
                    Err(e) => {
                        return Err(e);
                    },
                };
                let a_ = match self.pop() {
                    Ok(v) => v,
                    Err(e) => {
                        return Err(e);
                    },
                };
                proof {
                    assert(st.stack.drop_last().drop_last() =~= st.stack.take(n - 2));
                }
                match a_.sub(b_) {
                    Ok(v) => {
                        self.push_val(v);
                        Ok(())
                    },
                    Err(e) => Err(e),
                }
            },
            Builtin::Mul => {
                let b_ = match self.pop() {
                    Ok(v) => v,
                    Err(e) => {
                        return Err(e);
                    },
                };
                let a_ = match self.pop() {
                    Ok(v) => v,
                    Err(e) => {
                        return Err(e);
                    },
                };
                proof {
                    assert(st.stack.drop_last().drop_last() =~= st.stack.take(n - 2));
                }
                match a_.mul(b_) {
                    Ok(v) => {
                        self.push_val(v);
                        Ok(())
                    },
                    Err(e) => Err(e),
                }
            },
            Builtin::Div => {
                let b_ = match self.pop() {
                    Ok(v) => v,
                    Err(e) => {
                        return Err(e);
                    },
                };
                let a_ = match self.pop() {
                    Ok(v) => v,
                    Err(e) => {
                        return Err(e);
                    },
                };
                proof {
                    assert(st.stack.drop_last().drop_last() =~= st.stack.take(n - 2));
                }
                match a_.div(b_) {
                    Ok(v) => {
                        self.push_val(v);
                        Ok(())
                    },
                    Err(e) => Err(e),
                }
            },
            Builtin::PushTrue => {
                self.push_val(Value::Boolean(true));
                Ok(())
            },
            Builtin::PushFalse => {
                self.push_val(Value::Boolean(false));
                Ok(())
            },
            Builtin::CmpEq => {
                let b_ = match self.pop() {
                    Ok(v) => v,
                    Err(e) => {
                        return Err(e);
                    },
                };
                let a_ = match self.pop() {
                    Ok(v) => v,
                    Err(e) => {
                        return Err(e);
                    },
                };
                proof {
                    assert(st.stack.drop_last().drop_last() =~= st.stack.take(n - 2));
                }
                let eq = value_eq(&a_, &b_);
                self.push_val(Value::Boolean(eq));
                Ok(())
            },
            Builtin::CmpNe => {
                let b_ = match self.pop() {
                    Ok(v) => v,
                    Err(e) => {
                        return Err(e);
                    },
                };
                let a_ = match self.pop() {
                    Ok(v) => v,
                    Err(e) => {
                        return Err(e);
                    },
                };
                proof {
                    assert(st.stack.drop_last().drop_last() =~= st.stack.take(n - 2));
                }
                let eq = value_eq(&a_, &b_);
                self.push_val(Value::Boolean(!eq));
                Ok(())
            },
            Builtin::Gt => {
                let b_ = match self.pop() {
                    Ok(v) => v,
                    Err(e) => {
                        return Err(e);
                    },
                };
                let a_ = match self.pop() {
                    Ok(v) => v,
                    Err(e) => {
                        return Err(e);
                    },
                };
                proof {
                    assert(st.stack.drop_last().drop_last() =~= st.stack.take(n - 2));
                }
                let c = crate::value::val_lt(&b_, &a_);
                self.push_val(Value::Boolean(c));
                Ok(())
            },
            Builtin::Lt => {
                let b_ = match self.pop() {
                    Ok(v) => v,
                    Err(e) => {
                        return Err(e);
                    },
                };
                let a_ = match self.pop() {
                    Ok(v) => v,
                    Err(e) => {
                        return Err(e);
                    },
                };
                proof {
                    assert(st.stack.drop_last().drop_last() =~= st.stack.take(n - 2));
                }
                let c = crate::value::val_lt(&a_, &b_);
                self.push_val(Value::Boolean(c));
                Ok(())
            },
            Builtin::Ge => {
                let b_ = match self.pop() {
                    Ok(v) => v,
                    Err(e) => {
                        return Err(e);
                    },
                };
                let a_ = match self.pop() {
                    Ok(v) => v,
                    Err(e) => {
                        return Err(e);
                    },
                };
                proof {
                    assert(st.stack.drop_last().drop_last() =~= st.stack.take(n - 2));
                }
                let c = crate::value::val_le(&b_, &a_);
                self.push_val(Value::Boolean(c));
                Ok(())
            },
            Builtin::Le => {
                let b_ = match self.pop() {
                    Ok(v) => v,
                    Err(e) => {
                        return Err(e);
                    },
                };
                let a_ = match self.pop() {
                    Ok(v) => v,
                    Err(e) => {
                        return Err(e);
                    },
                };
                proof {
                    assert(st.stack.drop_last().drop_last() =~= st.stack.take(n - 2));
                }
                let c = crate::value::val_le(&a_, &b_);
                self.push_val(Value::Boolean(c));
                Ok(())
            },
            Builtin::Print => {
                let v = match self.pop() {
                    Ok(v) => v,
                    Err(e) => {
                        return Err(e);
                    },
                };
                let mut line: Vec<char> = Vec::new();
                render_val_x(&v, &mut line);
                proof {
                    assert(line@ =~= render_val(st.stack.last()));
                    assert(st.stack.drop_last() =~= st.stack.take(n - 1));
                }
                self.out_line(&line);
                Ok(())
            },
            Builtin::Debug => {
                let mut line: Vec<char> = Vec::new();
                line.push('[');
                render_vals_x(&self.stack, &mut line);
                line.push(']');
                proof {
                    assert(line@ =~= render_stack(st.stack));
                }
                self.out_line(&line);
                Ok(())
            },
            Builtin::Swap => {
                let b_ = match self.pop() {
                    Ok(v) => v,
                    Err(e) => {
                        return Err(e);
                    },
                };
                let a_ = match self.pop() {
                    Ok(v) => v,
                    Err(e) => {
                        return Err(e);
                    },
                };
                proof {
                    assert(st.stack.drop_last().drop_last() =~= st.stack.take(n - 2));
                }
                self.push_val(b_);
                self.push_val(a_);
                Ok(())
            },
            Builtin::Take => {
                let idx = match self.pop() {
                    Ok(v) => v,
                    Err(e) => {
                        return Err(e);
                    },
                };
                match idx {
                    Value::Number(Number::U64(nn)) => {
                        let len = self.stack.len();
                        proof {
                            lemma_values_view(self.stack@);
                            assert(st.stack.drop_last() =~= st.stack.take(n - 1));
                        }
                        if nn >= len as u64 {
                            Err(RuntimeError::IndexOutOfRange)
                        } else {
                            let pos = len - 1 - (nn as usize);
                            let ghost mid = self.stack@;
                            let item = self.stack.remove(pos);
                            let ghost mid2 = self.stack@;
                            self.stack.push(item);
                            proof {
                                lemma_values_view(mid);
                                lemma_values_view_remove(mid, pos as int);
                                lemma_values_view_push(mid2, item);
                                assert(self@ =~= (StateV {
                                    stack: values_view(mid).remove(pos as int).push(
                                        values_view(mid)[pos as int],
                                    ),
                                    ..st
                                }));
                            }
                            Ok(())
                        }
                    },
                    _ => Err(RuntimeError::WrongType),
                }
            },
            Builtin::GlobalBind => {
                let namev = match self.pop() {
                    Ok(v) => v,
                    Err(e) => {
                        return Err(e);
                    },
                };
                match namev {
                    Value::Str(name) => {
                        let item = match self.pop() {
                            Ok(v) => v,
                            Err(e) => {
                                return Err(e);
                            },
                        };
                        proof {
                            assert(st.stack.drop_last().drop_last() =~= st.stack.take(n - 2));
                        }
                        let ghost gpre = self.globals@;
                        self.globals.push((name, item));
                        proof {
                            assert(self.globals@.drop_last() =~= gpre);
                            assert(self@ =~= (StateV {
                                stack: st.stack.take(n - 2),
                                globals: assoc_view(gpre).insert(
                                    self.globals@.last().0@,
                                    value_view(self.globals@.last().1),
                                ),
                                ..st
                            }));
                        }
                        Ok(())
                    },
                    _ => Err(RuntimeError::WrongType),
                }
            },
            Builtin::Cast => {
                let namev = match self.pop() {
                    Ok(v) => v,
                    Err(e) => {
                        return Err(e);
                    },
                };
                match namev {
                    Value::Str(name) => {
                        let item = match self.pop() {
                            Ok(v) => v,
                            Err(e) => {
                                return Err(e);
                            },
                        };
                        proof {
                            assert(st.stack.drop_last().drop_last() =~= st.stack.take(n - 2));
                        }
                        match item.cast_to(name) {
                            Ok(v) => {
                                self.push_val(v);
                                Ok(())
                            },
                            Err(e) => Err(e),
                        }
                    },
                    _ => Err(RuntimeError::WrongType),
                }
            },
            Builtin::If => {
                let f = match self.pop() {
                    Ok(v) => v,
                    Err(e) => {
                        return Err(e);
                    },
                };
                let c = match self.pop() {
                    Ok(v) => v,
                    Err(e) => {
                        return Err(e);
                    },
                };
                proof {
                    assert(st.stack.drop_last().drop_last() =~= st.stack.take(n - 2));
                }
                match (c, f) {
                    (Value::Boolean(cb), Value::Function(body)) => {
                        if cb {
                            if depth == 0 {
                                Err(RuntimeError::DepthExceeded)
                            } else {
                                self.run_nodes(&body, depth - 1)
                            }
                        } else {
                            Ok(())
                        }
                    },
                    _ => Err(RuntimeError::WrongType),
                }
            },
        }
    }

    /// Executes one syntax node against the state.
    fn run_node(&mut self, n: &Node, depth: u64) -> (r: Result<(), RuntimeError>)
        ensures
            r matches Ok(_) ==> spec_run_node(old(self)@, n@, depth as nat) == Ok::<
                StateV,
                RuntimeErrorV,
            >(final(self)@),
            r matches Err(e) ==> spec_run_node(old(self)@, n@, depth as nat) == Err::<
                StateV,
                RuntimeErrorV,
            >(e@),
        decreases depth, 0nat, 1int,
    {
        match n {
            Node::Group(inner) => {
                let c = clone_nodes(inner);
                self.push_val(Value::Function(c));
                Ok(())
            },
            Node::Tok(t) => match t {
                Token::Number(num) => {
                    self.push_val(Value::Number(*num));
                    Ok(())
                },
                Token::StrLit(s) => {
                    self.push_val(Value::Str(s.clone()));
                    Ok(())
                },
                Token::OpenBracket => Err(RuntimeError::StrayBracket),
                Token::CloseBracket => Err(RuntimeError::StrayBracket),
                Token::Identifier(w) => match builtin_for(w) {
                    Some(b) => self.run_builtin(b, depth),
                    None => {
                        let sv = assoc_get(&self.scoped, w);
                        let found = match sv {
                            Some(v) => Some(v),
                            None => assoc_get(&self.globals, w),
                        };
                        match found {
                            None => Err(RuntimeError::UnknownWord(w.clone())),
                            Some(Value::Function(body)) => {
                                if depth == 0 {
                                    Err(RuntimeError::DepthExceeded)
                                } else {
                                    self.run_nodes(&body, depth - 1)
                                }
                            },
                            Some(_) => Err(RuntimeError::WrongType),
                        }
                    },
                },
            },
        }
    }

    /// Executes a node sequence, in order, stopping at the first fault.
    pub fn run_nodes(&mut self, ns: &Vec<Node>, depth: u64) -> (r: Result<(), RuntimeError>)
        ensures
            r matches Ok(_) ==> spec_run_nodes(old(self)@, nodes_view(ns@), depth as nat) == Ok::<
                StateV,
                RuntimeErrorV,
            >(final(self)@),
            r matches Err(e) ==> spec_run_nodes(old(self)@, nodes_view(ns@), depth as nat)
                == Err::<StateV, RuntimeErrorV>(e@),
        decreases depth, ns@.len(), 2int,
    {
        proof {
            lemma_nodes_view(ns@);
        }
        let ghost full = nodes_view(ns@);
        let ghost st0 = self@;
        let mut i: usize = 0;
        proof {
            assert(full.skip(0) =~= full);
        }
        while i < ns.len()
            invariant
                i <= ns@.len(),
                full == nodes_view(ns@),
                full.len() == ns@.len(),
                st0 == old(self)@,
                spec_run_nodes(st0, full, depth as nat) == spec_run_nodes(
                    self@,
                    full.skip(i as int),
                    depth as nat,
                ),
            decreases depth, ns@.len() - i, 2int,
        {
            proof {
                lemma_nodes_view(ns@);
                assert(full.skip(i as int)[0] == node_view(ns@[i as int]));
            }
            let res = self.run_node(&ns[i], depth);
            match res {
                Ok(_) => {
                    proof {
                        assert(full.skip(i as int).skip(1) =~= full.skip(i as int + 1));
                    }
                    i = i + 1;
                },
                Err(e) => {
                    return Err(e);
                },
            }
        }
        proof {
            assert(full.skip(i as int) =~= Seq::<NodeV>::empty());
        }
        Ok(())
    }
}

/// Runs a whole syntax forest against a fresh state and returns that
/// state, or the fault that stopped the run.
pub fn run_tree_state(tree: Vec<Node>) -> (r: Result<State, RuntimeError>)
    ensures
        r matches Ok(st) ==> spec_run(nodes_view(tree@)) == Ok::<StateV, RuntimeErrorV>(st@),
        r matches Err(e) ==> spec_run(nodes_view(tree@)) == Err::<StateV, RuntimeErrorV>(e@),
{
    let mut st = State::new();
    match st.run_nodes(&tree, MAX_DEPTH) {
        Ok(_) => Ok(st),
        Err(e) => Err(e),
    }
}

/// Runs a whole syntax forest against a fresh state, keeping only
/// success or the fault that stopped the run.
pub fn run_tree(tree: Vec<Node>) -> (r: Result<(), RuntimeError>)
    ensures
        r matches Ok(_) ==> spec_run(nodes_view(tree@)) is Ok,
        r matches Err(e) ==> spec_run(nodes_view(tree@)) == Err::<StateV, RuntimeErrorV>(e@),
{
    match run_tree_state(tree) {
        Ok(_) => Ok(()),
        Err(e) => Err(e),
    }
}

/// What the whole pipeline yields for a source text: its tokens, their
/// tree, and the final state of running that tree, or the first fault
/// of any stage.
pub open spec fn interp_spec(text: Seq<char>) -> Result<StateV, InterpErrorV> {
    match crate::lexer::lex_spec(text) {
        Err(e) => Err(InterpErrorV::Lex(e)),
        Ok(ts) => match crate::parser::parse_spec(ts) {
            Err(e) => Err(InterpErrorV::Parse(e)),
            Ok(ns) => match spec_run(ns) {
                Ok(st) => Ok(st),
                Err(e) => Err(InterpErrorV::Runtime(e)),
            },
        },
    }
}

/// Lexes, tree-builds and runs one source text, returning the final
/// interpreter state or the first fault of any stage.
pub fn run_source(text: String) -> (r: Result<State, InterpError>)
    ensures
        r matches Ok(st) ==> interp_spec(text@) == Ok::<StateV, InterpErrorV>(st@),
        r matches Err(e) ==> interp_spec(text@) == Err::<StateV, InterpErrorV>(e@),
{
    match crate::lexer::lex(text) {
        Err(e) => Err(InterpError::Lex(e)),
        Ok(ts) => match crate::parser::parse(ts) {
            Err(e) => Err(InterpError::Parse(e)),
            Ok(tree) => match run_tree_state(tree) {
                Ok(st) => Ok(st),
                Err(e) => Err(InterpError::Runtime(e)),
            },
        },
    }
}

/// Law: `swap` is an involution.  On any stack with at least two values,
/// running `swap` twice restores the state exactly.
pub proof fn lemma_swap_involution(st: StateV, depth: nat)
    requires
        st.stack.len() >= 2,
    ensures
        (spec_run_builtin(st, Builtin::Swap, depth) matches Ok(s1) && spec_run_builtin(
            s1,
            Builtin::Swap,
            depth,
        ) == Ok::<StateV, RuntimeErrorV>(st)),
{
    let n = st.stack.len();
    let s1 = StateV {
        stack: st.stack.take(n - 2).push(st.stack[n - 1]).push(st.stack[n - 2]),
        ..st
    };
    assert(spec_run_builtin(st, Builtin::Swap, depth) == Ok::<StateV, RuntimeErrorV>(s1));
    assert(s1.stack.take(n - 2) =~= st.stack.take(n - 2));
    let s2 = StateV {
        stack: s1.stack.take(n - 2).push(s1.stack[n - 1]).push(s1.stack[n - 2]),
        ..s1
    };
    assert(s2.stack =~= st.stack);
    assert(s2 =~= st);
}

/// Law: `take` with index zero is a no-op.  Popping the index and
/// re-pushing the top leaves the remaining stack exactly as it was.
pub proof fn lemma_take_zero(st: StateV, rest: Seq<ValueV>, depth: nat)
    requires
        st.stack == rest.push(ValueV::Num(Number::U64(0))),
        rest.len() >= 1,
    ensures
        spec_run_builtin(st, Builtin::Take, depth) == Ok::<StateV, RuntimeErrorV>(
            StateV { stack: rest, ..st },
        ),
{
    let n = st.stack.len();
    assert(st.stack[n - 1] == ValueV::Num(Number::U64(0)));
    assert(st.stack.take(n - 1) =~= rest);
    let pos = rest.len() - 1;
    assert(rest.remove(pos).push(rest[pos]) =~= rest);
    assert(StateV { stack: rest.remove(pos).push(rest[pos]), ..st } =~= StateV {
        stack: rest,
        ..st
    });
}

/// Law: `take` with index one below the stack depth moves the bottom
/// value to the top.
pub proof fn lemma_take_bottom(st: StateV, rest: Seq<ValueV>, depth: nat)
    requires
        rest.len() >= 1,
        rest.len() - 1 <= u64::MAX as int,
        st.stack == rest.push(ValueV::Num(Number::U64((rest.len() - 1) as u64))),
    ensures
        spec_run_builtin(st, Builtin::Take, depth) == Ok::<StateV, RuntimeErrorV>(
            StateV { stack: rest.skip(1).push(rest[0]), ..st },
        ),
{
    let n = st.stack.len();
    assert(st.stack[n - 1] == ValueV::Num(Number::U64((rest.len() - 1) as u64)));
    assert(st.stack.take(n - 1) =~= rest);
    let idx = (rest.len() - 1) as u64;
    let pos = rest.len() - 1 - idx;
    assert(pos == 0);
    assert(rest.remove(0) =~= rest.skip(1));
    assert(StateV { stack: rest.remove(pos).push(rest[pos]), ..st } =~= StateV {
        stack: rest.skip(1).push(rest[0]),
        ..st
    });
}

} // verus!
