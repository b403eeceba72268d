//! The runtime value model: numbers, strings, booleans, vectors and
//! quotations (unexecuted node sequences).  Equality is structural and
//! deep for every variant; ordering is defined only between two numbers
//! of one kind and collapses to false for every other pairing.
use vstd::prelude::*;
use crate::error::{RuntimeError, RuntimeErrorV};
use crate::number::{
    Number, spec_add, spec_sub, spec_mul, spec_div, spec_rem, spec_cast_named, spec_num_lt,
    spec_num_le, num_lt, num_le,
};
use crate::parser::{Node, NodeV, node_view, nodes_view, lemma_nodes_view, clone_token};
use crate::lexer::Token;

verus! {

/// A runtime value.
#[derive(Debug, PartialEq)]
pub enum Value {
    Number(Number),
    Str(String),
    Boolean(bool),
    Vector(Vec<Value>),
    Function(Vec<Node>),
}

/// Mathematical model of a `Value`.
pub enum ValueV {
    Num(Number),
    Str(Seq<char>),
    Bool(bool),
    Vector(Seq<ValueV>),
    Func(Seq<NodeV>),
}

/// The model of a value.
pub open spec fn value_view(v: Value) -> ValueV
    decreases v,
{
    match v {
        Value::Number(n) => ValueV::Num(n),
        Value::Str(s) => ValueV::Str(s@),
        Value::Boolean(b) => ValueV::Bool(b),
        Value::Vector(vs) => ValueV::Vector(values_view(vs@)),
        Value::Function(ns) => ValueV::Func(nodes_view(ns@)),
    }
}

/// The models of a value sequence.
pub open spec fn values_view(s: Seq<Value>) -> Seq<ValueV>
    decreases s,
{
    if s.len() == 0 {
        Seq::empty()
    } else {
        values_view(s.drop_last()).push(value_view(s.last()))
    }
}

impl View for Value {
    type V = ValueV;

    open spec fn view(&self) -> ValueV {
        value_view(*self)
    }
}

/// Shape of `values_view`: it maps the sequence pointwise.
pub proof fn lemma_values_view(s: Seq<Value>)
    ensures
        values_view(s).len() == s.len(),
        forall|i: int| 0 <= i < s.len() ==> values_view(s)[i] == value_view(s[i]),
    decreases s.len(),
{
    if s.len() > 0 {
        lemma_values_view(s.drop_last());
    }
}

/// Pushing a value commutes with taking views.
pub proof fn lemma_values_view_push(s: Seq<Value>, v: Value)
    ensures
        values_view(s.push(v)) == values_view(s).push(value_view(v)),
{
    assert(s.push(v).drop_last() =~= s);
    assert(values_view(s.push(v)) =~= values_view(s).push(value_view(v)));
}

/// Whether two tokens are equal, compared structurally.
pub fn token_eq(a: &Token, b: &Token) -> (r: bool)
    ensures
        r == (a@ == b@),
{
    match (a, b) {
        (Token::OpenBracket, Token::OpenBracket) => true,
        (Token::CloseBracket, Token::CloseBracket) => true,
        (Token::Identifier(x), Token::Identifier(y)) => *x == *y,
        (Token::StrLit(x), Token::StrLit(y)) => *x == *y,
        (Token::Number(x), Token::Number(y)) => *x == *y,
        _ => false,
    }
}

/// Whether two nodes are equal, compared structurally and deeply.
pub fn node_eq(a: &Node, b: &Node) -> (r: bool)
    ensures
        r == (a@ == b@),
    decreases *a, 0int,
{
    match (a, b) {
        (Node::Tok(x), Node::Tok(y)) => token_eq(x, y),
        (Node::Group(x), Node::Group(y)) => {
            proof {
                lemma_nodes_view(x@);
                lemma_nodes_view(y@);
            }
            if x.len() != y.len() {
                false
            } else {
                let r = nodes_eq(x, y, 0);
                proof {
                    if r {
                        assert(nodes_view(x@) =~= nodes_view(y@));
                    } else {
                        assert(exists|m: int|
                            0 <= m < x@.len() && node_view(x@[m]) != node_view(y@[m]));
                        let m = choose|m: int|
                            0 <= m < x@.len() && node_view(x@[m]) != node_view(y@[m]);
                        assert(nodes_view(x@)[m] != nodes_view(y@)[m]);
                    }
                }
                r
            }
        },
        _ => false,
    }
}

/// Whether two node sequences agree from `i` on, compared deeply.
pub fn nodes_eq(x: &Vec<Node>, y: &Vec<Node>, i: usize) -> (r: bool)
    requires
        i <= x@.len(),
        x@.len() == y@.len(),
    ensures
        r == (forall|m: int| i <= m < x@.len() ==> node_view(x@[m]) == node_view(y@[m])),
    decreases x@, 1int, x@.len() - i,
{
    if i == x.len() {
        true
    } else if node_eq(&x[i], &y[i]) {
        nodes_eq(x, y, i + 1)
    } else {
        false
    }
}

/// Whether two values are equal: structural, deep equality in every
/// variant, quotations and vectors included.
pub fn value_eq(a: &Value, b: &Value) -> (r: bool)
    ensures
        r == (a@ == b@),
    decreases *a, 0int,
{
    match (a, b) {
        (Value::Number(x), Value::Number(y)) => *x == *y,
        (Value::Str(x), Value::Str(y)) => *x == *y,
        (Value::Boolean(x), Value::Boolean(y)) => *x == *y,
        (Value::Vector(x), Value::Vector(y)) => {
            proof {
                lemma_values_view(x@);
                lemma_values_view(y@);
            }
            if x.len() != y.len() {
                false
            } else {
                let r = values_eq(x, y, 0);
                proof {
                    if r {
                        assert(values_view(x@) =~= values_view(y@));
                    } else {
                        assert(exists|m: int|
                            0 <= m < x@.len() && value_view(x@[m]) != value_view(y@[m]));
                        let m = choose|m: int|
                            0 <= m < x@.len() && value_view(x@[m]) != value_view(y@[m]);
                        assert(values_view(x@)[m] != values_view(y@)[m]);
                    }
                }
                r
            }
        },
        (Value::Function(x), Value::Function(y)) => {
            proof {
                lemma_nodes_view(x@);
                lemma_nodes_view(y@);
            }
            if x.len() != y.len() {
                false
            } else {
                let r = nodes_eq(x, y, 0);
                proof {
                    if r {
                        assert(nodes_view(x@) =~= nodes_view(y@));
                    } else {
                        assert(exists|m: int|
                            0 <= m < x@.len() && node_view(x@[m]) != node_view(y@[m]));
                        let m = choose|m: int|
                            0 <= m < x@.len() && node_view(x@[m]) != node_view(y@[m]);
                        assert(nodes_view(x@)[m] != nodes_view(y@)[m]);
                    }
                }
                r
            }
        },
        _ => false,
    }
}

/// Whether two value sequences agree from `i` on, compared deeply.
pub fn values_eq(x: &Vec<Value>, y: &Vec<Value>, i: usize) -> (r: bool)
    requires
        i <= x@.len(),
        x@.len() == y@.len(),
    ensures
        r == (forall|m: int| i <= m < x@.len() ==> value_view(x@[m]) == value_view(y@[m])),
    decreases x@, 1int, x@.len() - i,
{
    if i == x.len() {
        true
    } else if value_eq(&x[i], &y[i]) {
        values_eq(x, y, i + 1)
    } else {
        false
    }
}

/// Copies one node, keeping its model.
pub fn clone_node(n: &Node) -> (r: Node)
    ensures
        r@ == n@,
    decreases *n, 0int,
{
    match n {
        Node::Tok(t) => Node::Tok(clone_token(t)),
        Node::Group(ns) => Node::Group(clone_nodes(ns)),
    }
}

/// Copies a node sequence, keeping its models.
pub fn clone_nodes(ns: &Vec<Node>) -> (r: Vec<Node>)
    ensures
        nodes_view(r@) == nodes_view(ns@),
        r@.len() == ns@.len(),
    decreases ns@, 1int,
{
    let mut out: Vec<Node> = Vec::new();
    let mut i: usize = 0;
    while i < ns.len()
        invariant
            i <= ns@.len(),
            out@.len() == i,
            forall|m: int| 0 <= m < i ==> node_view(out@[m]) == node_view(ns@[m]),
        decreases ns@, 0int, ns@.len() - i,
    {
        let c = clone_node(&ns[i]);
        out.push(c);
        i = i + 1;
    }
    proof {
        lemma_nodes_view(out@);
        lemma_nodes_view(ns@);
        assert(nodes_view(out@) =~= nodes_view(ns@));
    }
    out
}

/// Copies one value, keeping its model.
pub fn clone_value(v: &Value) -> (r: Value)
    ensures
        r@ == v@,
    decreases *v, 0int,
{
    match v {
        Value::Number(n) => Value::Number(*n),
        Value::Str(s) => Value::Str(s.clone()),
        Value::Boolean(b) => Value::Boolean(*b),
        Value::Vector(vs) => Value::Vector(clone_values(vs)),
        Value::Function(ns) => Value::Function(clone_nodes(ns)),
    }
}

/// Copies a value sequence, keeping its models.
pub fn clone_values(vs: &Vec<Value>) -> (r: Vec<Value>)
    ensures
        values_view(r@) == values_view(vs@),
        r@.len() == vs@.len(),
    decreases vs@, 1int,
{
    let mut out: Vec<Value> = Vec::new();
    let mut i: usize = 0;
    while i < vs.len()
        invariant
            i <= vs@.len(),
            out@.len() == i,
            forall|m: int| 0 <= m < i ==> value_view(out@[m]) == value_view(vs@[m]),
        decreases vs@, 0int, vs@.len() - i,
    {
        let c = clone_value(&vs[i]);
        out.push(c);
        i = i + 1;
    }
    proof {
        lemma_values_view(out@);
        lemma_values_view(vs@);
        assert(values_view(out@) =~= values_view(vs@));
    }
    out
}

/// The model of a runtime value result.
pub open spec fn val_res_v(r: Result<Value, RuntimeError>) -> Result<ValueV, RuntimeErrorV> {
    match r {
        Ok(v) => Ok(value_view(v)),
        Err(e) => Err(e@),
    }
}

/// What adding two values yields: numeric addition between two numbers,
/// and a wrong-type error for every other pairing.
pub open spec fn spec_val_add(a: ValueV, b: ValueV) -> Result<ValueV, RuntimeErrorV> {
    match (a, b) {
        (ValueV::Num(x), ValueV::Num(y)) => match spec_add(x, y) {
            Ok(n) => Ok(ValueV::Num(n)),
            Err(e) => Err(e),
        },
        _ => Err(RuntimeErrorV::WrongType),
    }
}

/// As `spec_val_add`, for subtraction.
pub open spec fn spec_val_sub(a: ValueV, b: ValueV) -> Result<ValueV, RuntimeErrorV> {
    match (a, b) {
        (ValueV::Num(x), ValueV::Num(y)) => match spec_sub(x, y) {
            Ok(n) => Ok(ValueV::Num(n)),
            Err(e) => Err(e),
        },
        _ => Err(RuntimeErrorV::WrongType),
    }
}

/// As `spec_val_add`, for multiplication.
pub open spec fn spec_val_mul(a: ValueV, b: ValueV) -> Result<ValueV, RuntimeErrorV> {
    match (a, b) {
        (ValueV::Num(x), ValueV::Num(y)) => match spec_mul(x, y) {
            Ok(n) => Ok(ValueV::Num(n)),
            Err(e) => Err(e),
        },
        _ => Err(RuntimeErrorV::WrongType),
    }
}

/// As `spec_val_add`, for division.
pub open spec fn spec_val_div(a: ValueV, b: ValueV) -> Result<ValueV, RuntimeErrorV> {
    match (a, b) {
        (ValueV::Num(x), ValueV::Num(y)) => match spec_div(x, y) {
            Ok(n) => Ok(ValueV::Num(n)),
            Err(e) => Err(e),
        },
        _ => Err(RuntimeErrorV::WrongType),
    }
}

/// As `spec_val_add`, for the remainder.
pub open spec fn spec_val_rem(a: ValueV, b: ValueV) -> Result<ValueV, RuntimeErrorV> {
    match (a, b) {
        (ValueV::Num(x), ValueV::Num(y)) => match spec_rem(x, y) {
            Ok(n) => Ok(ValueV::Num(n)),
            Err(e) => Err(e),
        },
        _ => Err(RuntimeErrorV::WrongType),
    }
}

/// What casting a value yields: a checked numeric re-kinding for a
/// number, and a wrong-type error for everything else.
pub open spec fn spec_val_cast(a: ValueV, s: Seq<char>) -> Result<ValueV, RuntimeErrorV> {
    match a {
        ValueV::Num(n) => match spec_cast_named(n, s) {
            Ok(m) => Ok(ValueV::Num(m)),
            Err(e) => Err(e),
        },
        _ => Err(RuntimeErrorV::WrongType),
    }
}

/// Whether `a` is strictly below `b`: only two numbers of one kind are
/// ordered; every other pairing is below nothing.
pub open spec fn spec_val_lt(a: ValueV, b: ValueV) -> bool {
    match (a, b) {
        (ValueV::Num(x), ValueV::Num(y)) => spec_num_lt(x, y),
        _ => false,
    }
}

/// As `spec_val_lt`, non-strict.
pub open spec fn spec_val_le(a: ValueV, b: ValueV) -> bool {
    match (a, b) {
        (ValueV::Num(x), ValueV::Num(y)) => spec_num_le(x, y),
        _ => false,
    }
}

impl Value {
    /// Checked addition on values.
    pub fn add(self, other: Value) -> (r: Result<Value, RuntimeError>)
        ensures
            val_res_v(r) == spec_val_add(self@, other@),
    {
        match (self, other) {
            (Value::Number(x), Value::Number(y)) => match x.add(y) {
                Ok(n) => Ok(Value::Number(n)),
                Err(e) => Err(e),
            },
            _ => Err(RuntimeError::WrongType),
        }
    }

    /// Checked subtraction on values.
    pub fn sub(self, other: Value) -> (r: Result<Value, RuntimeError>)
        ensures
            val_res_v(r) == spec_val_sub(self@, other@),
    {
        match (self, other) {
            (Value::Number(x), Value::Number(y)) => match x.sub(y) {
                Ok(n) => Ok(Value::Number(n)),
                Err(e) => Err(e),
            },
            _ => Err(RuntimeError::WrongType),
        }
    }

    /// Checked multiplication on values.
    pub fn mul(self, other: Value) -> (r: Result<Value, RuntimeError>)
        ensures
            val_res_v(r) == spec_val_mul(self@, other@),
    {
        match (self, other) {
            (Value::Number(x), Value::Number(y)) => match x.mul(y) {
                Ok(n) => Ok(Value::Number(n)),
                Err(e) => Err(e),
            },
            _ => Err(RuntimeError::WrongType),
        }
    }

    /// Checked division on values.
    pub fn div(self, other: Value) -> (r: Result<Value, RuntimeError>)
        ensures
            val_res_v(r) == spec_val_div(self@, other@),
    {
        match (self, other) {
            (Value::Number(x), Value::Number(y)) => match x.div(y) {
                Ok(n) => Ok(Value::Number(n)),
                Err(e) => Err(e),
            },
            _ => Err(RuntimeError::WrongType),
        }
    }

    /// Checked remainder on values.
    pub fn rem(self, other: Value) -> (r: Result<Value, RuntimeError>)
        ensures
            val_res_v(r) == spec_val_rem(self@, other@),
    {
        match (self, other) {
            (Value::Number(x), Value::Number(y)) => match x.rem(y) {
                Ok(n) => Ok(Value::Number(n)),
                Err(e) => Err(e),
            },
            _ => Err(RuntimeError::WrongType),
        }
    }

    /// Checked cast of a value to the numeric kind named by
    /// `result_type`.
    pub fn cast_to(&self, result_type: String) -> (r: Result<Value, RuntimeError>)
        ensures
            val_res_v(r) == spec_val_cast(self@, result_type@),
    {
        match self {
            Value::Number(n) => match n.cast_to(result_type) {
                Ok(m) => Ok(Value::Number(m)),
                Err(e) => Err(e),
            },
            _ => Err(RuntimeError::WrongType),
        }
    }
}

/// Whether `a` is strictly below `b`, as a runtime test.
pub fn val_lt(a: &Value, b: &Value) -> (r: bool)
    ensures
        r == spec_val_lt(a@, b@),
{
    match (a, b) {
        (Value::Number(x), Value::Number(y)) => num_lt(*x, *y),
        _ => false,
    }
}

/// Whether `a` is at or below `b`, as a runtime test.
pub fn val_le(a: &Value, b: &Value) -> (r: bool)
    ensures
        r == spec_val_le(a@, b@),
{
    match (a, b) {
        (Value::Number(x), Value::Number(y)) => num_le(*x, *y),
        _ => false,
    }
}

/// Law: two vectors are equal exactly when they have one length and
/// their elements are pairwise equal.
pub proof fn lemma_vector_eq(a: Seq<ValueV>, b: Seq<ValueV>)
    ensures
        (ValueV::Vector(a) == ValueV::Vector(b)) <==> (a.len() == b.len() && (forall|i: int|
            0 <= i < a.len() ==> a[i] == b[i])),
{
    if a.len() == b.len() && (forall|i: int| 0 <= i < a.len() ==> a[i] == b[i]) {
        assert(a =~= b);
    }
}

} // verus!
