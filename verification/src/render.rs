//! Deterministic, human-readable renderings of values, used by the
//! `print` and `debug` words.  Numbers render as their source literal
//! shape (`u64_10`, `i8_-3`), strings in quotes, booleans as words,
//! vectors in square brackets, and quotations in braces; the five value
//! variants are thus always distinguishable.
use vstd::prelude::*;
use crate::lexer::TokenV;
use crate::number::{Number, NumKind};
use crate::parser::{Node, NodeV, node_view, nodes_view, lemma_nodes_view};
use crate::value::{Value, ValueV, value_view, values_view, lemma_values_view};

verus! {

/// The character of one decimal digit.
pub open spec fn digit_char(d: int) -> char {
    if d == 0 {
        '0'
    } else if d == 1 {
        '1'
    } else if d == 2 {
        '2'
    } else if d == 3 {
        '3'
    } else if d == 4 {
        '4'
    } else if d == 5 {
        '5'
    } else if d == 6 {
        '6'
    } else if d == 7 {
        '7'
    } else if d == 8 {
        '8'
    } else {
        '9'
    }
}

/// The decimal digits of `n`, most significant first.
pub open spec fn dec_str(n: int) -> Seq<char>
    decreases n,
{
    if n < 10 {
        seq![digit_char(n)]
    } else {
        dec_str(n / 10).push(digit_char(n % 10))
    }
}

/// The name of a numeric kind, as it stands in literals.
pub open spec fn kind_name(k: NumKind) -> Seq<char> {
    match k {
        NumKind::I8 => seq!['i', '8'],
        NumKind::I16 => seq!['i', '1', '6'],
        NumKind::I32 => seq!['i', '3', '2'],
        NumKind::I64 => seq!['i', '6', '4'],
        NumKind::I128 => seq!['i', '1', '2', '8'],
        NumKind::U8 => seq!['u', '8'],
        NumKind::U16 => seq!['u', '1', '6'],
        NumKind::U32 => seq!['u', '3', '2'],
        NumKind::U64 => seq!['u', '6', '4'],
        NumKind::U128 => seq!['u', '1', '2', '8'],
    }
}

/// The rendering of a number: its kind's name, an underscore, and its
/// value in decimal.
pub open spec fn render_num(n: Number) -> Seq<char> {
    kind_name(n.kind()) + seq!['_'] + (if n.val() < 0 {
        seq!['-'] + dec_str(-n.val())
    } else {
        dec_str(n.val())
    })
}

/// The rendering of one value.
pub open spec fn render_val(v: ValueV) -> Seq<char>
    decreases v, 1int,
{
    match v {
        ValueV::Num(n) => render_num(n),
        ValueV::Str(s) => seq!['"'] + s + seq!['"'],
        ValueV::Bool(b) => if b {
            seq!['t', 'r', 'u', 'e']
        } else {
            seq!['f', 'a', 'l', 's', 'e']
        },
        ValueV::Vector(vs) => seq!['['] + render_vals(vs) + seq![']'],
        ValueV::Func(ns) => seq!['{', ' '] + render_nodes(ns) + seq![' ', '}'],
    }
}

/// The renderings of a value sequence, separated by spaces.
pub open spec fn render_vals(vs: Seq<ValueV>) -> Seq<char>
    decreases vs, 0int,
{
    if vs.len() == 0 {
        Seq::empty()
    } else if vs.len() == 1 {
        render_val(vs[0])
    } else {
        render_vals(vs.drop_last()) + seq![' '] + render_val(vs.last())
    }
}

/// The rendering of one syntax node, in source shape.
pub open spec fn render_node(n: NodeV) -> Seq<char>
    decreases n, 1int,
{
    match n {
        NodeV::Leaf(t) => match t {
            TokenV::OpenBracket => seq!['{'],
            TokenV::CloseBracket => seq!['}'],
            TokenV::Identifier(s) => s,
            TokenV::StrLit(s) => seq!['"'] + s + seq!['"'],
            TokenV::Number(m) => render_num(m),
        },
        NodeV::Group(ns) => seq!['{', ' '] + render_nodes(ns) + seq![' ', '}'],
    }
}

/// The renderings of a node sequence, separated by spaces.
pub open spec fn render_nodes(ns: Seq<NodeV>) -> Seq<char>
    decreases ns, 0int,
{
    if ns.len() == 0 {
        Seq::empty()
    } else if ns.len() == 1 {
        render_node(ns[0])
    } else {
        render_nodes(ns.drop_last()) + seq![' '] + render_node(ns.last())
    }
}

/// The digits of `n`, as a runtime value.
fn dec_str_x(n: u128) -> (r: Vec<char>)
    ensures
        r@ == dec_str(n as int),
    decreases n,
{
    if n < 10 {
        let c = digit_char_x(n);
        let mut v: Vec<char> = Vec::new();
        v.push(c);
        proof {
            assert(v@ =~= seq![digit_char(n as int)]);
        }
        v
    } else {
        let mut v = dec_str_x(n / 10);
        let c = digit_char_x(n % 10);
        v.push(c);
        v
    }
}

/// The character of a digit below ten, as a runtime value.
fn digit_char_x(d: u128) -> (r: char)
    requires
        d < 10,
    ensures
        r == digit_char(d as int),
{
    if d == 0 {
        '0'
    } else if d == 1 {
        '1'
    } else if d == 2 {
        '2'
    } else if d == 3 {
        '3'
    } else if d == 4 {
        '4'
    } else if d == 5 {
        '5'
    } else if d == 6 {
        '6'
    } else if d == 7 {
        '7'
    } else if d == 8 {
        '8'
    } else {
        '9'
    }
}

/// The sign and magnitude of a number's value.
fn num_mag(n: Number) -> (r: (bool, u128))
    ensures
        r.0 == (n.val() < 0),
        r.1 as int == (if n.val() < 0 {
            -n.val()
        } else {
            n.val()
        }),
{
    match n {
        Number::I8(v) => if v < 0 {
            (true, (-(v as i128)) as u128)
        } else {
            (false, v as u128)
        },
        Number::I16(v) => if v < 0 {
            (true, (-(v as i128)) as u128)
        } else {
            (false, v as u128)
        },
        Number::I32(v) => if v < 0 {
            (true, (-(v as i128)) as u128)
        } else {
            (false, v as u128)
        },
        Number::I64(v) => if v < 0 {
            (true, (-(v as i128)) as u128)
        } else {
            (false, v as u128)
        },
        Number::I128(v) => if v < 0 {
            if v == i128::MIN {
                (true, (i128::MAX as u128) + 1)
            } else {
                (true, (-v) as u128)
            }
        } else {
            (false, v as u128)
        },
        Number::U8(v) => (false, v as u128),
        Number::U16(v) => (false, v as u128),
        Number::U32(v) => (false, v as u128),
        Number::U64(v) => (false, v as u128),
        Number::U128(v) => (false, v),
    }
}

/// The name of a numeric kind, as a runtime value.
fn kind_name_x(k: NumKind) -> (r: Vec<char>)
    ensures
        r@ == kind_name(k),
{
    let mut v: Vec<char> = Vec::new();
    match k {
        NumKind::I8 => {
            v.push('i');
            v.push('8');
        },
        NumKind::I16 => {
            v.push('i');
            v.push('1');
            v.push('6');
        },
        NumKind::I32 => {
            v.push('i');
            v.push('3');
            v.push('2');
        },
        NumKind::I64 => {
            v.push('i');
            v.push('6');
            v.push('4');
        },
        NumKind::I128 => {
            v.push('i');
            v.push('1');
            v.push('2');
            v.push('8');
        },
        NumKind::U8 => {
            v.push('u');
            v.push('8');
        },
        NumKind::U16 => {
            v.push('u');
            v.push('1');
            v.push('6');
        },
        NumKind::U32 => {
            v.push('u');
            v.push('3');
            v.push('2');
        },
        NumKind::U64 => {
            v.push('u');
            v.push('6');
            v.push('4');
        },
        NumKind::U128 => {
            v.push('u');
            v.push('1');
            v.push('2');
            v.push('8');
        },
    }
    proof {
        assert(v@ =~= kind_name(k));
    }
    v
}

/// Renders a number into `out`.
fn render_num_x(n: Number, out: &mut Vec<char>)
    ensures
        final(out)@ == old(out)@ + render_num(n),
{
    let ghost start = out@;
    let kn = kind_name_x(n.kind_x());
    append_chars(out, &kn);
    out.push('_');
    let (neg, mag) = num_mag(n);
    if neg {
        out.push('-');
    }
    let ds = dec_str_x(mag);
    append_chars(out, &ds);
    proof {
        assert(out@ =~= start + render_num(n));
    }
}

/// Appends the characters of `src` to `dst`.
fn append_chars(dst: &mut Vec<char>, src: &Vec<char>)
    ensures
        final(dst)@ == old(dst)@ + src@,
{
    let mut i: usize = 0;
    while i < src.len()
        invariant
            i <= src@.len(),
            dst@ == old(dst)@ + src@.take(i as int),
        decreases src@.len() - i,
    {
        proof {
            assert((old(dst)@ + src@.take(i as int)).push(src@[i as int]) =~= old(dst)@
                + src@.take(i as int + 1));
        }
        dst.push(src[i]);
        i = i + 1;
    }
    proof {
        assert(src@.take(src@.len() as int) =~= src@);
    }
}

/// Renders one value into `out`.
pub fn render_val_x(v: &Value, out: &mut Vec<char>)
    ensures
        final(out)@ == old(out)@ + render_val(v@),
    decreases *v, 1int,
{
    let ghost start = out@;
    match v {
        Value::Number(n) => {
            render_num_x(*n, out);
        },
        Value::Str(s) => {
            out.push('"');
            let cs = crate::text::chars_of(s.as_str());
            append_chars(out, &cs);
            out.push('"');
            proof {
                assert(out@ =~= start + render_val(v@));
            }
        },
        Value::Boolean(b) => {
            if *b {
                out.push('t');
                out.push('r');
                out.push('u');
                out.push('e');
            } else {
                out.push('f');
                out.push('a');
                out.push('l');
                out.push('s');
                out.push('e');
            }
            proof {
                assert(out@ =~= start + render_val(v@));
            }
        },
        Value::Vector(vs) => {
            out.push('[');
            render_vals_x(vs, out);
            out.push(']');
            proof {
                assert(out@ =~= start + render_val(v@));
            }
        },
        Value::Function(ns) => {
            out.push('{');
            out.push(' ');
            render_nodes_x(ns, out);
            out.push(' ');
            out.push('}');
            proof {
                assert(out@ =~= start + render_val(v@));
            }
        },
    }
}

/// Renders a value sequence into `out`, space separated.
pub fn render_vals_x(vs: &Vec<Value>, out: &mut Vec<char>)
    ensures
        final(out)@ == old(out)@ + render_vals(values_view(vs@)),
    decreases vs@, 0int,
{
    let ghost start = out@;
    proof {
        lemma_values_view(vs@);
    }
    let mut i: usize = 0;
    while i < vs.len()
        invariant
            i <= vs@.len(),
            out@ == start + render_vals(values_view(vs@).take(i as int)),
        decreases vs@, 0int, vs@.len() - i,
    {
        if i > 0 {
            out.push(' ');
        }
        render_val_x(&vs[i], out);
        proof {
            lemma_values_view(vs@);
            let pre = values_view(vs@).take(i as int);
            let post = values_view(vs@).take(i as int + 1);
            assert(post.drop_last() =~= pre);
            assert(post.last() == value_view(vs@[i as int]));
            if i == 0 {
                assert(render_vals(post) =~= render_val(value_view(vs@[i as int])));
                assert(out@ =~= start + render_vals(post));
            } else {
                assert(render_vals(post) =~= render_vals(pre) + seq![' '] + render_val(
                    value_view(vs@[i as int]),
                ));
                assert(out@ =~= start + render_vals(post));
            }
        }
        i = i + 1;
    }
    proof {
        assert(values_view(vs@).take(vs@.len() as int) =~= values_view(vs@));
    }
}

/// Renders a node sequence into `out`, space separated.
pub fn render_nodes_x(ns: &Vec<Node>, out: &mut Vec<char>)
    ensures
        final(out)@ == old(out)@ + render_nodes(nodes_view(ns@)),
    decreases ns@, 0int,
{
    let ghost start = out@;
    proof {
        lemma_nodes_view(ns@);
    }
    let mut i: usize = 0;
    while i < ns.len()
        invariant
            i <= ns@.len(),
            out@ == start + render_nodes(nodes_view(ns@).take(i as int)),
        decreases ns@, 0int, ns@.len() - i,
    {
        if i > 0 {
            out.push(' ');
        }
        render_node_x(&ns[i], out);
        proof {
            lemma_nodes_view(ns@);
            let pre = nodes_view(ns@).take(i as int);
            let post = nodes_view(ns@).take(i as int + 1);
            assert(post.drop_last() =~= pre);
            assert(post.last() == node_view(ns@[i as int]));
            if i == 0 {
                assert(render_nodes(post) =~= render_node(node_view(ns@[i as int])));
                assert(out@ =~= start + render_nodes(post));
            } else {
                assert(render_nodes(post) =~= render_nodes(pre) + seq![' '] + render_node(
                    node_view(ns@[i as int]),
                ));
                assert(out@ =~= start + render_nodes(post));
            }
        }
        i = i + 1;
    }
    proof {
        assert(nodes_view(ns@).take(ns@.len() as int) =~= nodes_view(ns@));
    }
}

/// Renders one node into `out`.
pub fn render_node_x(n: &Node, out: &mut Vec<char>)
    ensures
        final(out)@ == old(out)@ + render_node(n@),
    decreases *n, 1int,
{
    let ghost start = out@;
    match n {
        Node::Tok(t) => {
            match t {
                crate::lexer::Token::OpenBracket => {
                    out.push('{');
                },
                crate::lexer::Token::CloseBracket => {
                    out.push('}');
                },
                crate::lexer::Token::Identifier(s) => {
                    let cs = crate::text::chars_of(s.as_str());
                    append_chars(out, &cs);
                },
                crate::lexer::Token::StrLit(s) => {
                    out.push('"');
                    let cs = crate::text::chars_of(s.as_str());
                    append_chars(out, &cs);
                    out.push('"');
                },
                crate::lexer::Token::Number(m) => {
                    render_num_x(*m, out);
                },
            }
            proof {
                assert(out@ =~= start + render_node(n@));
            }
        },
        Node::Group(ns) => {
            out.push('{');
            out.push(' ');
            render_nodes_x(ns, out);
            out.push(' ');
            out.push('}');
            proof {
                assert(out@ =~= start + render_node(n@));
            }
        },
    }
}

} // verus!
