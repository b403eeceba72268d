//! The tree builder: turns the flat token sequence into a forest of
//! syntax nodes, where each matched bracket pair becomes a nested group
//! (a quotation).  Unbalanced brackets are an error: a closing bracket
//! with no group open, or input ending with a group still open.
use vstd::prelude::*;
use crate::error::ParseError;
use crate::lexer::{Token, TokenV, toks_v};

verus! {

/// A syntax node: a leaf token (never a bracket) or a bracketed group.
#[derive(Debug, PartialEq)]
pub enum Node {
    Tok(Token),
    Group(Vec<Node>),
}

/// Mathematical model of a `Node`.
pub enum NodeV {
    Leaf(TokenV),
    Group(Seq<NodeV>),
}

/// The model of a node.
pub open spec fn node_view(n: Node) -> NodeV
    decreases n,
{
    match n {
        Node::Tok(t) => NodeV::Leaf(t@),
        Node::Group(ns) => NodeV::Group(nodes_view(ns@)),
    }
}

/// The models of a node sequence.
pub open spec fn nodes_view(s: Seq<Node>) -> Seq<NodeV>
    decreases s,
{
    if s.len() == 0 {
        Seq::empty()
    } else {
        nodes_view(s.drop_last()).push(node_view(s.last()))
    }
}

impl View for Node {
    type V = NodeV;

    open spec fn view(&self) -> NodeV {
        node_view(*self)
    }
}

/// Shape of `nodes_view`: it maps the sequence pointwise.
pub proof fn lemma_nodes_view(s: Seq<Node>)
    ensures
        nodes_view(s).len() == s.len(),
        forall|i: int| 0 <= i < s.len() ==> nodes_view(s)[i] == node_view(s[i]),
    decreases s.len(),
{
    if s.len() > 0 {
        lemma_nodes_view(s.drop_last());
    }
}

/// Index of the closing bracket that matches an already open group:
/// scanning from `i` with `depth` groups open beyond it.
pub open spec fn find_close(ts: Seq<TokenV>, i: int, depth: int) -> Option<int>
    decreases ts.len() - i,
{
    if i < 0 || i >= ts.len() {
        None
    } else {
        match ts[i] {
            TokenV::CloseBracket => if depth == 0 {
                Some(i)
            } else {
                find_close(ts, i + 1, depth - 1)
            },
            TokenV::OpenBracket => find_close(ts, i + 1, depth + 1),
            _ => find_close(ts, i + 1, depth),
        }
    }
}

/// Shape of `find_close`: a found index is in range and holds a closing
/// bracket.
pub proof fn lemma_find_close(ts: Seq<TokenV>, i: int, depth: int)
    requires
        0 <= i,
    ensures
        match find_close(ts, i, depth) {
            Some(j) => i <= j < ts.len() && ts[j] is CloseBracket,
            None => true,
        },
    decreases ts.len() - i,
{
    if i < ts.len() {
        match ts[i] {
            TokenV::CloseBracket => if depth != 0 {
                lemma_find_close(ts, i + 1, depth - 1);
            },
            TokenV::OpenBracket => lemma_find_close(ts, i + 1, depth + 1),
            _ => lemma_find_close(ts, i + 1, depth),
        }
    }
}

/// What building the tree yields: a closing bracket first is a stray; an
/// opening bracket takes the tokens up to its matching close as a nested
/// group, or fails unclosed; any other token is a leaf.
pub open spec fn parse_spec(ts: Seq<TokenV>) -> Result<Seq<NodeV>, ParseError>
    decreases ts.len(),
{
    if ts.len() == 0 {
        Ok(Seq::empty())
    } else {
        match ts[0] {
            TokenV::OpenBracket => match find_close(ts, 1, 0) {
                None => Err(ParseError::UnclosedBracket),
                Some(j) => {
                    proof {
                        lemma_find_close(ts, 1, 0);
                    }
                    match parse_spec(ts.subrange(1, j)) {
                        Err(e) => Err(e),
                        Ok(inner) => match parse_spec(ts.skip(j + 1)) {
                            Err(e) => Err(e),
                            Ok(rest) => Ok(seq![NodeV::Group(inner)] + rest),
                        },
                    }
                },
            },
            TokenV::CloseBracket => Err(ParseError::StrayClose),
            _ => match parse_spec(ts.skip(1)) {
                Err(e) => Err(e),
                Ok(rest) => Ok(seq![NodeV::Leaf(ts[0])] + rest),
            },
        }
    }
}

/// Copies one token, keeping its model.
pub fn clone_token(t: &Token) -> (r: Token)
    ensures
        r@ == t@,
{
    match t {
        Token::OpenBracket => Token::OpenBracket,
        Token::CloseBracket => Token::CloseBracket,
        Token::Identifier(s) => Token::Identifier(s.clone()),
        Token::StrLit(s) => Token::StrLit(s.clone()),
        Token::Number(n) => Token::Number(*n),
    }
}

/// Builds the node forest for the token range `[start, end)`.
fn parse_range(ts: &Vec<Token>, start: usize, end: usize) -> (r: Result<Vec<Node>, ParseError>)
    requires
        start <= end <= ts@.len(),
    ensures
        match r {
            Ok(ns) => parse_spec(toks_v(ts@).subrange(start as int, end as int)) == Ok::<
                Seq<NodeV>,
                ParseError,
            >(nodes_view(ns@)),
            Err(e) => parse_spec(toks_v(ts@).subrange(start as int, end as int)) == Err::<
                Seq<NodeV>,
                ParseError,
            >(e),
        },
    decreases end - start,
{
    let ghost sub = toks_v(ts@).subrange(start as int, end as int);
    if start == end {
        proof {
            assert(sub =~= Seq::<TokenV>::empty());
            assert(nodes_view(Seq::<Node>::empty()) =~= Seq::<NodeV>::empty());
        }
        return Ok(Vec::new());
    }
    proof {
        assert(sub[0] == ts@[start as int]@);
    }
    match &ts[start] {
        Token::CloseBracket => Err(ParseError::StrayClose),
        Token::OpenBracket => {
            let mut j: usize = start + 1;
            let mut depth: usize = 0;
            let mut found = false;
            while j < end && !found
                invariant
                    start + 1 <= j <= end <= ts@.len(),
                    sub == toks_v(ts@).subrange(start as int, end as int),
                    depth < j - start,
                    !found ==> find_close(sub, 1, 0) == find_close(
                        sub,
                        j - start,
                        depth as int,
                    ),
                    found ==> j < end && find_close(sub, 1, 0) == Some((j - start) as int),
                decreases end - j, 1int - (if found { 1int } else { 0int }),
            {
                proof {
                    assert(sub[j - start] == ts@[j as int]@);
                }
                let cur = &ts[j];
                match cur {
                    Token::CloseBracket => {
                        if depth == 0 {
                            found = true;
                        } else {
                            depth = depth - 1;
                            j = j + 1;
                        }
                    },
                    Token::OpenBracket => {
                        depth = depth + 1;
                        j = j + 1;
                    },
                    _ => {
                        j = j + 1;
                    },
                }
            }
            if !found {
                proof {
                    assert(find_close(sub, (end - start) as int, depth as int) is None);
                }
                return Err(ParseError::UnclosedBracket);
            }
            let inner = parse_range(ts, start + 1, j);
            match inner {
                Err(e) => {
                    proof {
                        assert(sub.subrange(1, (j - start) as int) =~= toks_v(ts@).subrange(
                            start as int + 1,
                            j as int,
                        ));
                    }
                    Err(e)
                },
                Ok(inner_ns) => {
                    let rest = parse_range(ts, j + 1, end);
                    match rest {
                        Err(e) => {
                            proof {
                                assert(sub.subrange(1, (j - start) as int) =~= toks_v(
                                    ts@,
                                ).subrange(start as int + 1, j as int));
                                assert(sub.skip((j - start) as int + 1) =~= toks_v(ts@).subrange(
                                    j as int + 1,
                                    end as int,
                                ));
                            }
                            Err(e)
                        },
                        Ok(rest_ns) => {
                            let mut result: Vec<Node> = Vec::new();
                            result.push(Node::Group(inner_ns));
                            let mut rest_mut = rest_ns;
                            let ghost rest_snap = rest_mut@;
                            result.append(&mut rest_mut);
                            proof {
                                assert(sub.subrange(1, (j - start) as int) =~= toks_v(
                                    ts@,
                                ).subrange(start as int + 1, j as int));
                                assert(sub.skip((j - start) as int + 1) =~= toks_v(ts@).subrange(
                                    j as int + 1,
                                    end as int,
                                ));
                                lemma_nodes_view(result@);
                                lemma_nodes_view(rest_snap);
                                lemma_nodes_view(inner_ns@);
                                assert(nodes_view(result@) =~= seq![
                                    NodeV::Group(nodes_view(inner_ns@)),
                                ] + nodes_view(rest_snap));
                            }
                            Ok(result)
                        },
                    }
                },
            }
        },
        _ => {
            let node = Node::Tok(clone_token(&ts[start]));
            let rest = parse_range(ts, start + 1, end);
            match rest {
                Err(e) => {
                    proof {
                        assert(sub.skip(1) =~= toks_v(ts@).subrange(start as int + 1, end as int));
                    }
                    Err(e)
                },
                Ok(rest_ns) => {
                    let mut result: Vec<Node> = Vec::new();
                    result.push(node);
                    let mut rest_mut = rest_ns;
                    let ghost rest_snap = rest_mut@;
                    result.append(&mut rest_mut);
                    proof {
                        assert(sub.skip(1) =~= toks_v(ts@).subrange(start as int + 1, end as int));
                        lemma_nodes_view(result@);
                        lemma_nodes_view(rest_snap);
                        assert(nodes_view(result@) =~= seq![NodeV::Leaf(sub[0])] + nodes_view(
                            rest_snap,
                        ));
                    }
                    Ok(result)
                },
            }
        },
    }
}

/// Builds the whole syntax forest from a token sequence, or reports the
/// first bracket fault.  The result is exactly what the specification
/// `parse_spec` names for these tokens.
pub fn parse(tokens: Vec<Token>) -> (r: Result<Vec<Node>, ParseError>)
    ensures
        match r {
            Ok(ns) => parse_spec(toks_v(tokens@)) == Ok::<Seq<NodeV>, ParseError>(
                nodes_view(ns@),
            ),
            Err(e) => parse_spec(toks_v(tokens@)) == Err::<Seq<NodeV>, ParseError>(e),
        },
{
    let n = tokens.len();
    let r = parse_range(&tokens, 0, n);
    proof {
        assert(toks_v(tokens@).subrange(0, n as int) =~= toks_v(tokens@));
    }
    r
}

/// The tokens one node came from.
pub open spec fn flat_node(n: NodeV) -> Seq<TokenV>
    decreases n, 1int,
{
    match n {
        NodeV::Leaf(t) => seq![t],
        NodeV::Group(inner) => seq![TokenV::OpenBracket] + flat_nodes(inner) + seq![
            TokenV::CloseBracket,
        ],
    }
}

/// The tokens a node sequence came from.
pub open spec fn flat_nodes(ns: Seq<NodeV>) -> Seq<TokenV>
    decreases ns, 0int,
{
    if ns.len() == 0 {
        Seq::empty()
    } else {
        flat_node(ns[0]) + flat_nodes(ns.skip(1))
    }
}

/// Whether a node holds no bracket leaf: brackets are structural only
/// once the tree exists.
pub open spec fn wf_node(n: NodeV) -> bool
    decreases n, 1int,
{
    match n {
        NodeV::Leaf(t) => !(t is OpenBracket) && !(t is CloseBracket),
        NodeV::Group(inner) => wf_nodes(inner),
    }
}

/// Whether a node sequence holds no bracket leaf anywhere.
pub open spec fn wf_nodes(ns: Seq<NodeV>) -> bool
    decreases ns, 0int,
{
    if ns.len() == 0 {
        true
    } else {
        wf_node(ns[0]) && wf_nodes(ns.skip(1))
    }
}

/// Law: tree building loses nothing.  A successfully built tree holds no
/// bracket leaves, and flattening it gives back exactly the token
/// sequence it was built from; no token is silently dropped.
pub proof fn lemma_parse_flatten(ts: Seq<TokenV>)
    ensures
        (parse_spec(ts) matches Ok(ns) ==> wf_nodes(ns) && flat_nodes(ns) == ts),
    decreases ts.len(),
{
    if ts.len() == 0 {
        if let Ok(ns) = parse_spec(ts) {
            assert(flat_nodes(ns) =~= ts);
        }
    } else {
        match ts[0] {
            TokenV::OpenBracket => {
                match find_close(ts, 1, 0) {
                    None => {},
                    Some(j) => {
                        lemma_find_close(ts, 1, 0);
                        let mid = ts.subrange(1, j);
                        let tail = ts.skip(j + 1);
                        lemma_parse_flatten(mid);
                        lemma_parse_flatten(tail);
                        if let Ok(inner) = parse_spec(mid) {
                            if let Ok(rest) = parse_spec(tail) {
                                let ns = seq![NodeV::Group(inner)] + rest;
                                assert(ns[0] == NodeV::Group(inner));
                                assert(ns.skip(1) =~= rest);
                                assert(flat_nodes(inner) == mid);
                                assert(flat_nodes(rest) == tail);
                                assert(flat_nodes(ns) == flat_node(NodeV::Group(inner))
                                    + flat_nodes(rest));
                                assert(ts[j] == TokenV::CloseBracket);
                                assert(flat_nodes(ns) =~= ts);
                                assert(wf_node(ns[0]));
                                assert(wf_nodes(ns.skip(1)));
                                assert(wf_nodes(ns));
                                assert(parse_spec(ts) == Ok::<Seq<NodeV>, ParseError>(ns));
                            }
                        }
                    },
                }
            },
            TokenV::CloseBracket => {},
            _ => {
                let tail = ts.skip(1);
                lemma_parse_flatten(tail);
                if let Ok(rest) = parse_spec(tail) {
                    let ns = seq![NodeV::Leaf(ts[0])] + rest;
                    assert(ns[0] == NodeV::Leaf(ts[0]));
                    assert(ns.skip(1) =~= rest);
                    assert(flat_nodes(rest) == tail);
                    assert(flat_nodes(ns) == flat_node(NodeV::Leaf(ts[0])) + flat_nodes(rest));
                    assert(flat_nodes(ns) =~= ts);
                    assert(wf_node(ns[0]));
                    assert(wf_nodes(ns.skip(1)));
                    assert(wf_nodes(ns));
                    assert(parse_spec(ts) == Ok::<Seq<NodeV>, ParseError>(ns));
                }
            },
        }
    }
}

/// Scanning across the flattening of a well-formed forest leaves a
/// bracket search exactly where it would be without it: the chunk is
/// balanced, so no close inside it can match a group opened before it.
proof fn lemma_find_close_skips_flat(ns: Seq<NodeV>, ts: Seq<TokenV>, i: int, d: int)
    requires
        wf_nodes(ns),
        0 <= i,
        d >= 0,
        i + flat_nodes(ns).len() <= ts.len(),
        ts.subrange(i, i + flat_nodes(ns).len()) == flat_nodes(ns),
    ensures
        find_close(ts, i, d) == find_close(ts, i + flat_nodes(ns).len(), d),
    decreases ns,
{
    if ns.len() > 0 {
        let c1 = flat_node(ns[0]);
        let c2 = flat_nodes(ns.skip(1));
        assert(flat_nodes(ns) == c1 + c2);
        assert(wf_node(ns[0]));
        assert(wf_nodes(ns.skip(1)));
        assert forall|q: int| 0 <= q < flat_nodes(ns).len() implies ts[i + q] == flat_nodes(
            ns,
        )[q] by {
            assert(ts.subrange(i, i + flat_nodes(ns).len())[q] == ts[i + q]);
        }
        let m = i + c1.len();
        assert(ts.subrange(m, m + c2.len()) =~= c2) by {
            assert forall|k: int| 0 <= k < c2.len() implies ts.subrange(m, m + c2.len())[k]
                == c2[k] by {
                assert(ts.subrange(m, m + c2.len())[k] == ts[m + k]);
                assert(ts[i + (c1.len() + k)] == flat_nodes(ns)[c1.len() + k]);
                assert(m + k == i + (c1.len() + k));
                assert(flat_nodes(ns)[c1.len() + k] == c2[k]);
            }
        }
        match ns[0] {
            NodeV::Leaf(t) => {
                assert(c1 == seq![t]);
                assert(ts[i] == t) by {
                    assert(ts.subrange(i, i + flat_nodes(ns).len())[0] == ts[i + 0]);
                    assert(flat_nodes(ns)[0] == c1[0]);
                }
                assert(find_close(ts, i, d) == find_close(ts, i + 1, d));
            },
            NodeV::Group(inner) => {
                let fi = flat_nodes(inner);
                assert(c1 == seq![TokenV::OpenBracket] + fi + seq![TokenV::CloseBracket]);
                assert(ts[i] == TokenV::OpenBracket) by {
                    assert(ts.subrange(i, i + flat_nodes(ns).len())[0] == ts[i + 0]);
                    assert(flat_nodes(ns)[0] == c1[0]);
                }
                assert(ns[0] == NodeV::Group(inner));
                assert(wf_nodes(inner));
                assert(ts.subrange(i + 1, i + 1 + fi.len()) =~= fi) by {
                    assert forall|k: int| 0 <= k < fi.len() implies ts.subrange(
                        i + 1,
                        i + 1 + fi.len(),
                    )[k] == fi[k] by {
                        assert(ts.subrange(i + 1, i + 1 + fi.len())[k] == ts[i + 1 + k]);
                        assert(ts[i + (1 + k)] == flat_nodes(ns)[1 + k]);
                        assert(i + 1 + k == i + (1 + k));
                        assert(flat_nodes(ns)[1 + k] == c1[1 + k]);
                        assert(c1[1 + k] == fi[k]);
                    }
                }
                lemma_find_close_skips_flat(inner, ts, i + 1, d + 1);
                assert(ts[i + 1 + fi.len()] == TokenV::CloseBracket) by {
                    let p: int = 1 + fi.len() as int;
                    assert(ts.subrange(i, i + flat_nodes(ns).len())[p] == ts[i + p]);
                    assert(flat_nodes(ns)[p] == c1[p]);
                    assert(c1[p] == TokenV::CloseBracket);
                }
                assert(find_close(ts, i + 1 + fi.len(), d + 1) == find_close(ts, m, d));
                assert(find_close(ts, i, d) == find_close(ts, m, d));
            },
        }
        lemma_find_close_skips_flat(ns.skip(1), ts, m, d);
    } else {
        assert(flat_nodes(ns).len() == 0);
    }
}

/// Law: tree building inverts flattening.  Building a tree from the
/// flattening of any well-formed forest gives exactly that forest back.
pub proof fn lemma_parse_of_flat(ns: Seq<NodeV>)
    requires
        wf_nodes(ns),
    ensures
        parse_spec(flat_nodes(ns)) == Ok::<Seq<NodeV>, ParseError>(ns),
    decreases ns,
{
    let ts = flat_nodes(ns);
    if ns.len() == 0 {
        assert(ts.len() == 0);
        assert(Seq::<NodeV>::empty() =~= ns);
    } else {
        let c1 = flat_node(ns[0]);
        let rest = ns.skip(1);
        let c2 = flat_nodes(rest);
        assert(ts == c1 + c2);
        assert(wf_node(ns[0]));
        assert(wf_nodes(rest));
        lemma_parse_of_flat(rest);
        match ns[0] {
            NodeV::Leaf(t) => {
                assert(c1 == seq![t]);
                assert(ts[0] == t);
                assert(!(t is OpenBracket) && !(t is CloseBracket));
                assert(ts.skip(1) =~= c2);
                assert(seq![NodeV::Leaf(t)] + rest =~= ns);
            },
            NodeV::Group(inner) => {
                let fi = flat_nodes(inner);
                assert(c1 == seq![TokenV::OpenBracket] + fi + seq![TokenV::CloseBracket]);
                assert(ts[0] == TokenV::OpenBracket);
                assert(ns[0] == NodeV::Group(inner));
                assert(wf_nodes(inner));
                assert(ts.subrange(1, 1 + fi.len() as int) =~= fi);
                lemma_find_close_skips_flat(inner, ts, 1, 0);
                let j: int = 1 + fi.len() as int;
                assert(ts[j] == TokenV::CloseBracket);
                assert(find_close(ts, j, 0) == Some(j));
                assert(find_close(ts, 1, 0) == Some(j));
                lemma_parse_of_flat(inner);
                assert(ts.subrange(1, j) == fi);
                assert(ts.skip(j + 1) =~= c2);
                assert(seq![NodeV::Group(inner)] + rest =~= ns);
            },
        }
    }
}

/// Law: a well-formed forest is determined by its tokens.  Two
/// well-formed forests with one flattening are the same forest, so a
/// token sequence never has two trees.
pub proof fn lemma_tree_unique(a: Seq<NodeV>, b: Seq<NodeV>)
    requires
        wf_nodes(a),
        wf_nodes(b),
        flat_nodes(a) == flat_nodes(b),
    ensures
        a == b,
{
    lemma_parse_of_flat(a);
    lemma_parse_of_flat(b);
}

/// Law: the built tree is the only well-formed tree of its tokens.  Any
/// well-formed forest flattening to the same token sequence is the one
/// the builder returns, so token-identical sources always build one
/// tree.
pub proof fn lemma_tree_of_tokens_unique(ts: Seq<TokenV>, other: Seq<NodeV>)
    requires
        wf_nodes(other),
        flat_nodes(other) == ts,
    ensures
        parse_spec(ts) == Ok::<Seq<NodeV>, ParseError>(other),
{
    lemma_parse_of_flat(other);
}

} // verus!
