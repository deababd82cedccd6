//! The extractor: one forward pass over a syntax tree that records macro
//! definitions, modules and ports in a symbol table, with the widths of
//! the ports resolved over the macros seen so far.

use crate::eval::{compute_packed_range_width_bits, packed_range_width};
use crate::hdl_info::{
    define_views,
    empty_table,
    option_view,
    with_port_in_last,
    Define,
    DefineView,
    HdlInfo,
    HdlInfoView,
    ModuleView,
    PortView,
};
use crate::literal::unknown_text;
use crate::syntax::{
    find_first,
    first_in_subtree,
    first_of,
    is_word,
    node_views,
    subtree_end,
    token_of,
    tokens_text,
    well_formed,
    NodeKind,
    Span,
    SyntaxNode,
    SyntaxNodeView,
    SyntaxTree,
};
use crate::text::{chars_of, decimal_string, decimal_text};
use vstd::prelude::*;

verus! {

// ---------------------------------------------------------------------------
// Identifiers

/// The kinds of node that hold the token of a name.
pub open spec fn identifier_kinds() -> Seq<NodeKind> {
    seq![NodeKind::SimpleIdentifier, NodeKind::EscapedIdentifier, NodeKind::Keyword]
}

/// The token of the first identifier or keyword in the sub-tree of the
/// node `i`.
pub open spec fn identifier_of(nodes: Seq<SyntaxNodeView>, i: int) -> Option<int> {
    match first_in_subtree(nodes, identifier_kinds(), i) {
        Some(j) => token_of(nodes, j),
        None => None,
    }
}

/// The text of the first identifier or keyword in the sub-tree of the
/// node `i`; [`unknown_text`] where there is none.
pub open spec fn identifier_text(nodes: Seq<SyntaxNodeView>, i: int) -> Seq<char> {
    match identifier_of(nodes, i) {
        Some(t) => nodes[t].text,
        None => unknown_text(),
    }
}

/// The text of the first node of kind `kind` in the sub-tree of the node
/// `i`, read as an identifier; [`unknown_text`] where there is none.
pub open spec fn named_part(nodes: Seq<SyntaxNodeView>, kind: NodeKind, i: int) -> Seq<char> {
    match first_in_subtree(nodes, seq![kind], i) {
        Some(n) => identifier_text(nodes, n),
        None => unknown_text(),
    }
}

fn one_kind(a: NodeKind) -> (v: Vec<NodeKind>)
    ensures
        v@ == seq![a],
{
    let mut v: Vec<NodeKind> = Vec::new();
    v.push(a);
    assert(v@ =~= seq![a]);
    v
}

fn two_kinds(a: NodeKind, b: NodeKind) -> (v: Vec<NodeKind>)
    ensures
        v@ == seq![a, b],
{
    let mut v: Vec<NodeKind> = Vec::new();
    v.push(a);
    v.push(b);
    assert(v@ =~= seq![a, b]);
    v
}

fn three_kinds(a: NodeKind, b: NodeKind, c: NodeKind) -> (v: Vec<NodeKind>)
    ensures
        v@ == seq![a, b, c],
{
    let mut v: Vec<NodeKind> = Vec::new();
    v.push(a);
    v.push(b);
    v.push(c);
    assert(v@ =~= seq![a, b, c]);
    v
}

/// Finds the first node of one of the kinds in the sub-tree of `i`.
fn find_in_subtree(nodes: &Vec<SyntaxNode>, kinds: &Vec<NodeKind>, i: usize) -> (r: Option<usize>)
    requires
        well_formed(node_views(nodes@)),
        i < nodes.len(),
    ensures
        match r {
            Some(k) => first_in_subtree(node_views(nodes@), kinds@, i as int) == Some(k as int)
                && i <= k < i + nodes[i as int].extent && k < nodes.len(),
            None => first_in_subtree(node_views(nodes@), kinds@, i as int) is None,
        },
{
    assert(node_views(nodes@)[i as int].extent == nodes[i as int].extent);
    find_first(nodes, kinds, i, i + nodes[i].extent)
}

/// Finds the token of the node `i`.
fn find_token(nodes: &Vec<SyntaxNode>, i: usize) -> (r: Option<usize>)
    requires
        well_formed(node_views(nodes@)),
        i < nodes.len(),
    ensures
        match r {
            Some(t) => token_of(node_views(nodes@), i as int) == Some(t as int) && t
                < nodes.len(),
            None => token_of(node_views(nodes@), i as int) is None,
        },
{
    assert(node_views(nodes@)[i as int].extent == nodes[i as int].extent);
    if nodes[i].extent > 1 {
        assert(node_views(nodes@)[i + 1].kind == nodes[i + 1].kind);
        if nodes[i + 1].kind == NodeKind::Locate {
            return Some(i + 1);
        }
    }
    None
}

fn find_identifier(nodes: &Vec<SyntaxNode>, i: usize) -> (r: Option<usize>)
    requires
        well_formed(node_views(nodes@)),
        i < nodes.len(),
    ensures
        match r {
            Some(t) => identifier_of(node_views(nodes@), i as int) == Some(t as int) && t
                < nodes.len(),
            None => identifier_of(node_views(nodes@), i as int) is None,
        },
{
    let kinds = three_kinds(
        NodeKind::SimpleIdentifier,
        NodeKind::EscapedIdentifier,
        NodeKind::Keyword,
    );
    match find_in_subtree(nodes, &kinds, i) {
        Some(j) => find_token(nodes, j),
        None => None,
    }
}

/// The token of the first identifier or keyword in the sub-tree of
/// `node`: the index of the token's node.
pub fn get_identifier(tree: &SyntaxTree, node: usize) -> (r: Option<usize>)
    requires
        node < tree@.len(),
    ensures
        match r {
            Some(t) => identifier_of(tree@, node as int) == Some(t as int) && t < tree@.len(),
            None => identifier_of(tree@, node as int) is None,
        },
{
    find_identifier(tree.nodes(), node)
}

fn text_of_identifier(nodes: &Vec<SyntaxNode>, i: usize) -> (r: String)
    requires
        well_formed(node_views(nodes@)),
        i < nodes.len(),
    ensures
        r@ == identifier_text(node_views(nodes@), i as int),
{
    match find_identifier(nodes, i) {
        Some(t) => {
            assert(node_views(nodes@)[t as int].text == nodes[t as int].text@);
            nodes[t].text.clone()
        },
        None => "unknown".to_owned(),
    }
}

fn text_of_named_part(nodes: &Vec<SyntaxNode>, kind: NodeKind, i: usize) -> (r: String)
    requires
        well_formed(node_views(nodes@)),
        i < nodes.len(),
    ensures
        r@ == named_part(node_views(nodes@), kind, i as int),
{
    match find_in_subtree(nodes, &one_kind(kind), i) {
        Some(n) => text_of_identifier(nodes, n),
        None => "unknown".to_owned(),
    }
}

// ---------------------------------------------------------------------------
// The text of an expression

/// The kinds of node whose tokens make up the text of an expression.
pub open spec fn expression_kinds() -> Seq<NodeKind> {
    seq![
        NodeKind::SimpleIdentifier,
        NodeKind::Symbol,
        NodeKind::UnsignedNumber,
        NodeKind::HexNumber,
        NodeKind::OctalNumber,
        NodeKind::BinaryNumber,
    ]
}

/// The kinds of node that hold the base of a sized number.
pub open spec fn base_kinds() -> Seq<NodeKind> {
    seq![NodeKind::HexBase, NodeKind::OctalBase, NodeKind::BinaryBase]
}

/// The kinds of node that hold the digits of a sized number.
pub open spec fn value_kinds() -> Seq<NodeKind> {
    seq![NodeKind::HexValue, NodeKind::OctalValue, NodeKind::BinaryValue]
}

/// The text of the size of the sized number at the node `t`: the tokens
/// of its size, white space behind it included; empty where it has none.
pub open spec fn size_text(nodes: Seq<SyntaxNodeView>, t: int) -> Seq<char> {
    match first_in_subtree(nodes, seq![NodeKind::Size], t) {
        Some(s) => tokens_text(nodes, s, subtree_end(nodes, s)),
        None => Seq::empty(),
    }
}

/// What the sized number at the node `t` adds to an expression: the place
/// of its base token, by which it is told from the piece before, and its
/// size, base and digits written together.
pub open spec fn number_piece(nodes: Seq<SyntaxNodeView>, t: int) -> Option<(Span, Seq<char>)> {
    match first_in_subtree(nodes, base_kinds(), t) {
        None => None,
        Some(b) => match token_of(nodes, b) {
            None => None,
            Some(bt) => match first_in_subtree(nodes, value_kinds(), t) {
                None => None,
                Some(v) => match token_of(nodes, v) {
                    None => None,
                    Some(vt) => Some(
                        (nodes[bt].span, size_text(nodes, t) + nodes[bt].text + nodes[vt].text),
                    ),
                },
            },
        },
    }
}

/// What the node `d` adds to an expression: the first identifier, symbol
/// or number in its sub-tree, as the place of its token and its text.
pub open spec fn piece_of(nodes: Seq<SyntaxNodeView>, d: int) -> Option<(Span, Seq<char>)> {
    match first_in_subtree(nodes, expression_kinds(), d) {
        None => None,
        Some(t) => if nodes[t].kind == NodeKind::HexNumber || nodes[t].kind
            == NodeKind::OctalNumber || nodes[t].kind == NodeKind::BinaryNumber {
            number_piece(nodes, t)
        } else {
            match token_of(nodes, t) {
                Some(l) => Some((nodes[l].span, nodes[l].text)),
                None => None,
            }
        },
    }
}

/// The text and the place of the last piece after the nodes `d..to` have
/// added their pieces to `acc`. A piece is added unless it stands at the
/// place of the piece added last: nested constructs show the same token
/// more than once.
pub open spec fn expression_from(
    nodes: Seq<SyntaxNodeView>,
    d: int,
    to: int,
    acc: Seq<char>,
    last: Option<Span>,
) -> (Seq<char>, Option<Span>)
    decreases to - d,
{
    if d >= to {
        (acc, last)
    } else {
        match piece_of(nodes, d) {
            Some(piece) => if last == Some(piece.0) {
                expression_from(nodes, d + 1, to, acc, last)
            } else {
                expression_from(nodes, d + 1, to, acc + piece.1, Some(piece.0))
            },
            None => expression_from(nodes, d + 1, to, acc, last),
        }
    }
}

/// The source text of the expression below the node `x`, rebuilt from the
/// tokens of its identifiers, symbols and numbers in source order, with
/// the place of the last of them. Where there is no such token the text
/// is [`unknown_text`] and there is no place.
pub open spec fn expression_of(nodes: Seq<SyntaxNodeView>, x: int) -> (Seq<char>, Option<Span>) {
    let built = expression_from(nodes, x + 1, subtree_end(nodes, x), Seq::empty(), None);
    if built.0.len() == 0 {
        (unknown_text(), None)
    } else {
        built
    }
}

fn text_of_tokens(nodes: &Vec<SyntaxNode>, from: usize, to: usize) -> (out: String)
    requires
        from <= to <= nodes.len(),
    ensures
        out@ == tokens_text(node_views(nodes@), from as int, to as int),
{
    let mut out = String::new();
    let mut k: usize = from;
    while k < to
        invariant
            from <= k <= to <= nodes.len(),
            out@ == tokens_text(node_views(nodes@), from as int, k as int),
        decreases to - k,
    {
        assert(node_views(nodes@)[k as int] == nodes[k as int]@);
        if nodes[k].kind == NodeKind::Locate {
            out.append(nodes[k].text.as_str());
        }
        k = k + 1;
    }
    out
}

fn piece_of_number(nodes: &Vec<SyntaxNode>, t: usize) -> (r: Option<(Span, String)>)
    requires
        well_formed(node_views(nodes@)),
        t < nodes.len(),
    ensures
        match r {
            Some(p) => number_piece(node_views(nodes@), t as int) == Some((p.0, p.1@)),
            None => number_piece(node_views(nodes@), t as int) is None,
        },
{
    let ghost views = node_views(nodes@);
    let bases = three_kinds(NodeKind::HexBase, NodeKind::OctalBase, NodeKind::BinaryBase);
    let values = three_kinds(NodeKind::HexValue, NodeKind::OctalValue, NodeKind::BinaryValue);
    let b: usize = match find_in_subtree(nodes, &bases, t) {
        Some(b) => b,
        None => {
            return None;
        },
    };
    let bt: usize = match find_token(nodes, b) {
        Some(x) => x,
        None => {
            return None;
        },
    };
    let v: usize = match find_in_subtree(nodes, &values, t) {
        Some(v) => v,
        None => {
            return None;
        },
    };
    let vt: usize = match find_token(nodes, v) {
        Some(x) => x,
        None => {
            return None;
        },
    };
    let mut out = match find_in_subtree(nodes, &one_kind(NodeKind::Size), t) {
        Some(s) => {
            assert(views[s as int].extent == nodes[s as int].extent);
            text_of_tokens(nodes, s, s + nodes[s].extent)
        },
        None => String::new(),
    };
    assert(views[bt as int] == nodes[bt as int]@);
    assert(views[vt as int] == nodes[vt as int]@);
    out.append(nodes[bt].text.as_str());
    out.append(nodes[vt].text.as_str());
    Some((nodes[bt].span, out))
}

fn piece(nodes: &Vec<SyntaxNode>, d: usize) -> (r: Option<(Span, String)>)
    requires
        well_formed(node_views(nodes@)),
        d < nodes.len(),
    ensures
        match r {
            Some(p) => piece_of(node_views(nodes@), d as int) == Some((p.0, p.1@)),
            None => piece_of(node_views(nodes@), d as int) is None,
        },
{
    let ghost views = node_views(nodes@);
    let mut kinds = three_kinds(
        NodeKind::SimpleIdentifier,
        NodeKind::Symbol,
        NodeKind::UnsignedNumber,
    );
    kinds.push(NodeKind::HexNumber);
    kinds.push(NodeKind::OctalNumber);
    kinds.push(NodeKind::BinaryNumber);
    assert(kinds@ =~= expression_kinds());
    match find_in_subtree(nodes, &kinds, d) {
        None => None,
        Some(t) => {
            assert(views[t as int] == nodes[t as int]@);
            let kind = nodes[t].kind;
            if kind == NodeKind::HexNumber || kind == NodeKind::OctalNumber || kind
                == NodeKind::BinaryNumber {
                piece_of_number(nodes, t)
            } else {
                match find_token(nodes, t) {
                    Some(l) => {
                        assert(views[l as int] == nodes[l as int]@);
                        Some((nodes[l].span, nodes[l].text.clone()))
                    },
                    None => None,
                }
            }
        },
    }
}

fn expression(nodes: &Vec<SyntaxNode>, x: usize) -> (r: (String, Option<Span>))
    requires
        well_formed(node_views(nodes@)),
        x < nodes.len(),
    ensures
        (r.0@, r.1) == expression_of(node_views(nodes@), x as int),
{
    let ghost views = node_views(nodes@);
    assert(views[x as int].extent == nodes[x as int].extent);
    let to: usize = x + nodes[x].extent;
    let mut acc = String::new();
    let mut last: Option<Span> = None;
    let mut d: usize = x + 1;
    while d < to
        invariant
            x < d <= to <= nodes.len(),
            views == node_views(nodes@),
            well_formed(views),
            expression_from(views, x + 1, to as int, Seq::empty(), None) == expression_from(
                views,
                d as int,
                to as int,
                acc@,
                last,
            ),
        decreases to - d,
    {
        match piece(nodes, d) {
            Some(p) => {
                let same: bool = match last {
                    Some(l) => l.offset == p.0.offset && l.len == p.0.len,
                    None => false,
                };
                if !same {
                    acc.append(p.1.as_str());
                    last = Some(p.0);
                }
            },
            None => {},
        }
        d = d + 1;
    }
    if acc.as_str().is_empty() {
        ("unknown".to_owned(), None)
    } else {
        (acc, last)
    }
}

/// Rebuilds the source text of the expression below `node` from its
/// tokens. Returns the text and the place of its last token, or `unknown`
/// and no place where it has no token.
pub fn parse_expression(tree: &SyntaxTree, node: usize) -> (r: (String, Option<Span>))
    requires
        node < tree@.len(),
    ensures
        (r.0@, r.1) == expression_of(tree@, node as int),
{
    expression(tree.nodes(), node)
}

// ---------------------------------------------------------------------------
// Widths

/// The width of the range at the node `x` over the macro table, and the
/// text of the range. A range without tokens has the width
/// [`unknown_text`] and no text. Else the width is the number of bits as
/// a decimal numeral where the range has two bounds with values, and the
/// text of the range itself where it has not.
pub open spec fn resolved_width(nodes: Seq<SyntaxNodeView>, x: int, defines: Seq<DefineView>) -> (
    Seq<char>,
    Option<Seq<char>>,
) {
    let expr = expression_of(nodes, x).0;
    if expr == unknown_text() {
        (unknown_text(), None)
    } else {
        (
            match packed_range_width(expr, defines) {
                Some(w) => decimal_text(w as nat),
                None => expr,
            },
            Some(expr),
        )
    }
}

/// The width of the port declared at the node `i`, and the text it was
/// resolved from: those of the first packed range in its sub-tree; the
/// width `1` and no text where it has none.
pub open spec fn declared_width(nodes: Seq<SyntaxNodeView>, i: int, defines: Seq<DefineView>) -> (
    Seq<char>,
    Option<Seq<char>>,
) {
    match first_in_subtree(nodes, seq![NodeKind::PackedDimensionRange], i) {
        Some(r) => resolved_width(nodes, r, defines),
        None => ("1"@, None),
    }
}

/// A port without a range is one bit wide and has no expression text.
pub proof fn lemma_scalar_port_width(
    nodes: Seq<SyntaxNodeView>,
    i: int,
    defines: Seq<DefineView>,
)
    requires
        first_in_subtree(nodes, seq![NodeKind::PackedDimensionRange], i) is None,
    ensures
        declared_width(nodes, i, defines) == ("1"@, None::<Seq<char>>),
{
}

fn resolve_range(nodes: &Vec<SyntaxNode>, x: usize, defines: &Vec<Define>) -> (r: (
    String,
    Option<String>,
))
    requires
        well_formed(node_views(nodes@)),
        x < nodes.len(),
    ensures
        (r.0@, option_view(r.1)) == resolved_width(
            node_views(nodes@),
            x as int,
            define_views(defines@),
        ),
{
    let (expr, _) = expression(nodes, x);
    let expr_chars = chars_of(expr.as_str());
    if is_word(&expr_chars, "unknown") {
        return ("unknown".to_owned(), None);
    }
    let width = match compute_packed_range_width_bits(expr.as_str(), defines) {
        Some(w) => decimal_string(w as u64),
        None => expr.clone(),
    };
    (width, Some(expr))
}

/// Resolves the packed range at `node` over the macro table. Returns the
/// width and the text of the range: the number of bits where the range
/// has two bounds with values, else the text itself.
pub fn parse_packed_dimension_range(tree: &SyntaxTree, node: usize, defines: &Vec<Define>) -> (r:
    (String, Option<String>))
    requires
        node < tree@.len(),
    ensures
        (r.0@, option_view(r.1)) == resolved_width(tree@, node as int, define_views(defines@)),
{
    resolve_range(tree.nodes(), node, defines)
}

fn width_of_declaration(nodes: &Vec<SyntaxNode>, i: usize, defines: &Vec<Define>) -> (r: (
    String,
    Option<String>,
))
    requires
        well_formed(node_views(nodes@)),
        i < nodes.len(),
    ensures
        (r.0@, option_view(r.1)) == declared_width(
            node_views(nodes@),
            i as int,
            define_views(defines@),
        ),
{
    match find_in_subtree(nodes, &one_kind(NodeKind::PackedDimensionRange), i) {
        Some(r) => resolve_range(nodes, r, defines),
        None => ("1".to_owned(), None),
    }
}

// ---------------------------------------------------------------------------
// Types

/// The type of the port declared at the node `i`: `wire` for an implicit
/// type, the first keyword of an explicit type, and [`unknown_text`]
/// where the type has no keyword or the declaration has no type.
pub open spec fn data_type_text(nodes: Seq<SyntaxNodeView>, i: int) -> Seq<char> {
    match first_in_subtree(nodes, seq![NodeKind::DataType, NodeKind::ImplicitDataType], i) {
        Some(t) => if nodes[t].kind == NodeKind::DataType {
            named_part(nodes, NodeKind::Keyword, t)
        } else {
            "wire"@
        },
        None => unknown_text(),
    }
}

/// The type of the port declared per item at the node `i`: `wire` for
/// the variable form, else as [`data_type_text`].
pub open spec fn ansi_type_text(nodes: Seq<SyntaxNodeView>, i: int) -> Seq<char> {
    if first_in_subtree(nodes, seq![NodeKind::AnsiPortDeclarationVariable], i) is Some {
        "wire"@
    } else {
        data_type_text(nodes, i)
    }
}

fn type_of_declaration(nodes: &Vec<SyntaxNode>, i: usize) -> (r: String)
    requires
        well_formed(node_views(nodes@)),
        i < nodes.len(),
    ensures
        r@ == data_type_text(node_views(nodes@), i as int),
{
    match find_in_subtree(
        nodes,
        &two_kinds(NodeKind::DataType, NodeKind::ImplicitDataType),
        i,
    ) {
        Some(t) => {
            assert(node_views(nodes@)[t as int] == nodes[t as int]@);
            if nodes[t].kind == NodeKind::DataType {
                text_of_named_part(nodes, NodeKind::Keyword, t)
            } else {
                "wire".to_owned()
            }
        },
        None => "unknown".to_owned(),
    }
}

fn type_of_ansi_declaration(nodes: &Vec<SyntaxNode>, i: usize) -> (r: String)
    requires
        well_formed(node_views(nodes@)),
        i < nodes.len(),
    ensures
        r@ == ansi_type_text(node_views(nodes@), i as int),
{
    match find_in_subtree(nodes, &one_kind(NodeKind::AnsiPortDeclarationVariable), i) {
        Some(_) => "wire".to_owned(),
        None => type_of_declaration(nodes, i),
    }
}

// ---------------------------------------------------------------------------
// The walk

/// What the walk carries from node to node.
pub struct WalkState {
    /// The symbol table so far.
    pub table: HdlInfoView,
    /// The direction that was written last on a per-item port.
    pub direction: Seq<char>,
}

/// The state before the first node.
pub open spec fn initial_state() -> WalkState {
    WalkState { table: empty_table(), direction: Seq::empty() }
}

/// The table after a macro definition at the node `i`.
pub open spec fn after_macro(nodes: Seq<SyntaxNodeView>, i: int, t: HdlInfoView) -> HdlInfoView {
    let value = match first_in_subtree(nodes, seq![NodeKind::MacroText], i) {
        Some(m) => match token_of(nodes, m) {
            Some(k) => nodes[k].text,
            None => unknown_text(),
        },
        None => unknown_text(),
    };
    HdlInfoView {
        defines: t.defines.push(
            DefineView { name: named_part(nodes, NodeKind::TextMacroName, i), value },
        ),
        modules: t.modules,
    }
}

/// The table after a module declaration at the node `i`.
pub open spec fn after_module(nodes: Seq<SyntaxNodeView>, i: int, t: HdlInfoView) -> HdlInfoView {
    HdlInfoView {
        defines: t.defines,
        modules: t.modules.push(
            ModuleView {
                name: named_part(nodes, NodeKind::ModuleIdentifier, i),
                ports: Seq::empty(),
            },
        ),
    }
}

/// The name of the port identifier at the node `p`.
pub open spec fn listed_name(nodes: Seq<SyntaxNodeView>, p: int) -> Seq<char> {
    named_part(nodes, NodeKind::Identifier, p)
}

/// The table `t` after the port identifiers among the nodes `from..to`
/// were added as ports that share everything but their names with
/// `shared`.
pub open spec fn with_listed_ports(
    nodes: Seq<SyntaxNodeView>,
    from: int,
    to: int,
    shared: PortView,
    t: HdlInfoView,
) -> HdlInfoView
    decreases to - from,
{
    if from >= to {
        t
    } else {
        let before = with_listed_ports(nodes, from, to - 1, shared, t);
        if nodes[to - 1].kind == NodeKind::PortIdentifier {
            with_port_in_last(
                before,
                PortView {
                    name: listed_name(nodes, to - 1),
                    direction: shared.direction,
                    port_type: shared.port_type,
                    width: shared.width,
                    width_expression: shared.width_expression,
                },
            )
        } else {
            before
        }
    }
}

/// The names of the port identifiers among the nodes `from..to`, in
/// source order.
pub open spec fn listed_names(nodes: Seq<SyntaxNodeView>, from: int, to: int) -> Seq<Seq<char>>
    decreases to - from,
{
    if from >= to {
        Seq::empty()
    } else if nodes[to - 1].kind == NodeKind::PortIdentifier {
        listed_names(nodes, from, to - 1).push(listed_name(nodes, to - 1))
    } else {
        listed_names(nodes, from, to - 1)
    }
}

/// The ports of the given names that share everything else with `shared`.
pub open spec fn ports_named(names: Seq<Seq<char>>, shared: PortView) -> Seq<PortView> {
    Seq::new(
        names.len(),
        |k: int|
            PortView {
                name: names[k],
                direction: shared.direction,
                port_type: shared.port_type,
                width: shared.width,
                width_expression: shared.width_expression,
            },
    )
}

/// A grouped declaration adds one port for each identifier of its list,
/// in source order, behind the ports of the module opened last, and all
/// of them have the declaration's direction, type, width and expression
/// text. Nothing else in the table changes, and where no module was
/// opened the table stays as it is.
pub proof fn lemma_grouped_ports(
    nodes: Seq<SyntaxNodeView>,
    from: int,
    to: int,
    shared: PortView,
    t: HdlInfoView,
)
    ensures
        t.modules.len() == 0 ==> with_listed_ports(nodes, from, to, shared, t) == t,
        t.modules.len() > 0 ==> with_listed_ports(nodes, from, to, shared, t) == (HdlInfoView {
            defines: t.defines,
            modules: t.modules.drop_last().push(
                ModuleView {
                    name: t.modules.last().name,
                    ports: t.modules.last().ports + ports_named(
                        listed_names(nodes, from, to),
                        shared,
                    ),
                },
            ),
        }),
    decreases to - from,
{
    if from >= to {
        if t.modules.len() > 0 {
            assert(ports_named(listed_names(nodes, from, to), shared) =~= Seq::empty());
            assert(t.modules.last().ports + Seq::<PortView>::empty() =~= t.modules.last().ports);
            assert(t.modules.drop_last().push(t.modules.last()) =~= t.modules);
        }
    } else {
        lemma_grouped_ports(nodes, from, to - 1, shared, t);
        if t.modules.len() > 0 {
            let before = with_listed_ports(nodes, from, to - 1, shared, t);
            let names = listed_names(nodes, from, to - 1);
            assert(before.modules.drop_last() =~= t.modules.drop_last());
            if nodes[to - 1].kind == NodeKind::PortIdentifier {
                let name = listed_name(nodes, to - 1);
                assert(ports_named(names.push(name), shared) =~= ports_named(names, shared).push(
                    PortView {
                        name,
                        direction: shared.direction,
                        port_type: shared.port_type,
                        width: shared.width,
                        width_expression: shared.width_expression,
                    },
                ));
                assert((t.modules.last().ports + ports_named(names, shared)).push(
                    PortView {
                        name,
                        direction: shared.direction,
                        port_type: shared.port_type,
                        width: shared.width,
                        width_expression: shared.width_expression,
                    },
                ) =~= t.modules.last().ports + ports_named(names.push(name), shared));
            }
        }
    }
}

/// The kinds of node that give a grouped declaration its direction.
pub open spec fn direction_kinds() -> Seq<NodeKind> {
    seq![NodeKind::InputDeclaration, NodeKind::OutputDeclaration, NodeKind::InoutDeclaration]
}

/// The table after a grouped port declaration at the node `i`: direction,
/// type and width are resolved once, and every identifier of the name
/// list becomes a port of the module opened last. A declaration without
/// a direction adds nothing.
pub open spec fn after_port_declaration(nodes: Seq<SyntaxNodeView>, i: int, t: HdlInfoView)
    -> HdlInfoView {
    match first_in_subtree(nodes, direction_kinds(), i) {
        None => t,
        Some(d) => {
            let width = declared_width(nodes, i, t.defines);
            let shared = PortView {
                name: Seq::empty(),
                direction: identifier_text(nodes, d),
                port_type: data_type_text(nodes, i),
                width: width.0,
                width_expression: width.1,
            };
            match first_in_subtree(nodes, seq![NodeKind::ListOfPortIdentifiers], i) {
                Some(l) => with_listed_ports(nodes, l, subtree_end(nodes, l), shared, t),
                None => t,
            }
        },
    }
}

/// The direction of the per-item port declared at the node `i`: the one
/// written on it, else the one written last before it.
pub open spec fn ansi_direction(nodes: Seq<SyntaxNodeView>, i: int, last: Seq<char>) -> Seq<char> {
    match first_in_subtree(nodes, seq![NodeKind::PortDirection], i) {
        Some(d) => identifier_text(nodes, d),
        None => last,
    }
}

/// The state after a per-item port declaration at the node `i`. A
/// declaration without a port identifier changes nothing.
pub open spec fn after_ansi_port(nodes: Seq<SyntaxNodeView>, i: int, s: WalkState) -> WalkState {
    match first_in_subtree(nodes, seq![NodeKind::PortIdentifier], i) {
        None => s,
        Some(p) => {
            let direction = ansi_direction(nodes, i, s.direction);
            let width = declared_width(nodes, i, s.table.defines);
            WalkState {
                table: with_port_in_last(
                    s.table,
                    PortView {
                        name: identifier_text(nodes, p),
                        direction,
                        port_type: ansi_type_text(nodes, i),
                        width: width.0,
                        width_expression: width.1,
                    },
                ),
                direction,
            }
        },
    }
}

/// A per-item port that has no direction of its own takes the direction
/// written last before it, and leaves that direction as it is.
pub proof fn lemma_direction_is_inherited(nodes: Seq<SyntaxNodeView>, i: int, s: WalkState)
    requires
        first_in_subtree(nodes, seq![NodeKind::PortIdentifier], i) is Some,
        first_in_subtree(nodes, seq![NodeKind::PortDirection], i) is None,
        s.table.modules.len() > 0,
    ensures
        after_ansi_port(nodes, i, s).direction == s.direction,
        after_ansi_port(nodes, i, s).table.modules.last().ports.last().direction == s.direction,
        after_ansi_port(nodes, i, s).table.modules.last().ports.len()
            == s.table.modules.last().ports.len() + 1,
{
}

/// The state after the node `i`. A node of any other kind than the four
/// leaves the state as it is.
pub open spec fn after_node(nodes: Seq<SyntaxNodeView>, i: int, s: WalkState) -> WalkState {
    match nodes[i].kind {
        NodeKind::TextMacroDefinition => WalkState {
            table: after_macro(nodes, i, s.table),
            direction: s.direction,
        },
        NodeKind::ModuleDeclaration => WalkState {
            table: after_module(nodes, i, s.table),
            direction: s.direction,
        },
        NodeKind::PortDeclaration => WalkState {
            table: after_port_declaration(nodes, i, s.table),
            direction: s.direction,
        },
        NodeKind::AnsiPortDeclaration => after_ansi_port(nodes, i, s),
        _ => s,
    }
}

/// The state after the nodes from `i` on, taken in source order.
pub open spec fn walk_from(nodes: Seq<SyntaxNodeView>, i: int, s: WalkState) -> WalkState
    decreases nodes.len() - i,
{
    if i < 0 || i >= nodes.len() {
        s
    } else {
        walk_from(nodes, i + 1, after_node(nodes, i, s))
    }
}

/// Whether the table `after` holds what `before` holds and leaves it in
/// place: the macros of `before` come first, its modules keep their
/// places and names, every module but its last is as it was, and its last
/// has the ports it had, in their order, before any further ones.
pub open spec fn grown_from(before: HdlInfoView, after: HdlInfoView) -> bool {
    &&& before.defines.len() <= after.defines.len()
    &&& forall|k: int| 0 <= k < before.defines.len() ==> after.defines[k] == before.defines[k]
    &&& before.modules.len() <= after.modules.len()
    &&& forall|k: int| 0 <= k < before.modules.len() - 1 ==> after.modules[k] == before.modules[k]
    &&& before.modules.len() > 0 ==> {
        let last = before.modules.len() - 1;
        &&& after.modules[last].name == before.modules[last].name
        &&& before.modules[last].ports.len() <= after.modules[last].ports.len()
        &&& forall|p: int|
            0 <= p < before.modules[last].ports.len() ==> after.modules[last].ports[p]
                == before.modules[last].ports[p]
    }
}

/// No node takes anything out of the table or changes a module other than
/// the one opened last: ports are only ever added behind the ports of
/// that module.
pub proof fn lemma_node_grows_table(nodes: Seq<SyntaxNodeView>, i: int, s: WalkState)
    ensures
        grown_from(s.table, after_node(nodes, i, s).table),
{
    let t = s.table;
    match nodes[i].kind {
        NodeKind::PortDeclaration => {
            match first_in_subtree(nodes, direction_kinds(), i) {
                None => {},
                Some(d) => {
                    let width = declared_width(nodes, i, t.defines);
                    let shared = PortView {
                        name: Seq::empty(),
                        direction: identifier_text(nodes, d),
                        port_type: data_type_text(nodes, i),
                        width: width.0,
                        width_expression: width.1,
                    };
                    match first_in_subtree(nodes, seq![NodeKind::ListOfPortIdentifiers], i) {
                        Some(l) => {
                            lemma_grouped_ports(nodes, l, subtree_end(nodes, l), shared, t);
                        },
                        None => {},
                    }
                },
            }
        },
        _ => {},
    }
}

/// The walk only adds to the table: whatever state it starts in, the
/// table of that state is still in place at its end.
pub proof fn lemma_walk_grows_table(nodes: Seq<SyntaxNodeView>, i: int, s: WalkState)
    ensures
        grown_from(s.table, walk_from(nodes, i, s).table),
    decreases nodes.len() - i,
{
    if 0 <= i < nodes.len() {
        let next = after_node(nodes, i, s);
        lemma_node_grows_table(nodes, i, s);
        lemma_walk_grows_table(nodes, i + 1, next);
        let end = walk_from(nodes, i + 1, next).table;
        assert(grown_from(s.table, end)) by {
            if s.table.modules.len() > 0 {
                let last = s.table.modules.len() - 1;
                if next.table.modules.len() > s.table.modules.len() {
                    assert(end.modules[last] == next.table.modules[last]);
                }
            }
        }
    }
}

/// The symbol table of a syntax tree.
pub open spec fn extracted(nodes: Seq<SyntaxNodeView>) -> HdlInfoView {
    walk_from(nodes, 0, initial_state()).table
}

fn record_macro(nodes: &Vec<SyntaxNode>, i: usize, table: &mut HdlInfo)
    requires
        well_formed(node_views(nodes@)),
        i < nodes.len(),
    ensures
        final(table)@ == after_macro(node_views(nodes@), i as int, old(table)@),
{
    let name = text_of_named_part(nodes, NodeKind::TextMacroName, i);
    let value = match find_in_subtree(nodes, &one_kind(NodeKind::MacroText), i) {
        Some(m) => match find_token(nodes, m) {
            Some(k) => {
                assert(node_views(nodes@)[k as int] == nodes[k as int]@);
                nodes[k].text.clone()
            },
            None => "unknown".to_owned(),
        },
        None => "unknown".to_owned(),
    };
    table.add_define(name.as_str(), value.as_str());
}

fn record_module(nodes: &Vec<SyntaxNode>, i: usize, table: &mut HdlInfo)
    requires
        well_formed(node_views(nodes@)),
        i < nodes.len(),
    ensures
        final(table)@ == after_module(node_views(nodes@), i as int, old(table)@),
{
    let name = text_of_named_part(nodes, NodeKind::ModuleIdentifier, i);
    table.add_module(name.as_str());
}

fn record_port_declaration(nodes: &Vec<SyntaxNode>, i: usize, table: &mut HdlInfo)
    requires
        well_formed(node_views(nodes@)),
        i < nodes.len(),
    ensures
        final(table)@ == after_port_declaration(node_views(nodes@), i as int, old(table)@),
{
    let ghost views = node_views(nodes@);
    let directions = three_kinds(
        NodeKind::InputDeclaration,
        NodeKind::OutputDeclaration,
        NodeKind::InoutDeclaration,
    );
    let d: usize = match find_in_subtree(nodes, &directions, i) {
        Some(d) => d,
        None => {
            return ;
        },
    };
    let direction = text_of_identifier(nodes, d);
    let port_type = type_of_declaration(nodes, i);
    let (width, width_expression) = width_of_declaration(nodes, i, table.get_defines());
    let ghost shared = PortView {
        name: Seq::empty(),
        direction: direction@,
        port_type: port_type@,
        width: width@,
        width_expression: option_view(width_expression),
    };
    let l: usize = match find_in_subtree(nodes, &one_kind(NodeKind::ListOfPortIdentifiers), i) {
        Some(l) => l,
        None => {
            return ;
        },
    };
    assert(views[l as int].extent == nodes[l as int].extent);
    let to: usize = l + nodes[l].extent;
    let mut p: usize = l;
    while p < to
        invariant
            l <= p <= to <= nodes.len(),
            views == node_views(nodes@),
            well_formed(views),
            shared == (PortView {
                name: Seq::empty(),
                direction: direction@,
                port_type: port_type@,
                width: width@,
                width_expression: option_view(width_expression),
            }),
            table@ == with_listed_ports(views, l as int, p as int, shared, old(table)@),
        decreases to - p,
    {
        assert(views[p as int] == nodes[p as int]@);
        if nodes[p].kind == NodeKind::PortIdentifier {
            let name = text_of_named_part(nodes, NodeKind::Identifier, p);
            table.add_ports(
                name.as_str(),
                direction.as_str(),
                port_type.as_str(),
                width.as_str(),
                &width_expression,
            );
        }
        p = p + 1;
    }
}

fn record_ansi_port(nodes: &Vec<SyntaxNode>, i: usize, table: &mut HdlInfo, direction: &mut String)
    requires
        well_formed(node_views(nodes@)),
        i < nodes.len(),
    ensures
        (WalkState { table: final(table)@, direction: final(direction)@ }) == after_ansi_port(
            node_views(nodes@),
            i as int,
            WalkState { table: old(table)@, direction: old(direction)@ },
        ),
{
    let p: usize = match find_in_subtree(nodes, &one_kind(NodeKind::PortIdentifier), i) {
        Some(p) => p,
        None => {
            return ;
        },
    };
    let name = text_of_identifier(nodes, p);
    match find_in_subtree(nodes, &one_kind(NodeKind::PortDirection), i) {
        Some(d) => {
            *direction = text_of_identifier(nodes, d);
        },
        None => {},
    }
    let port_type = type_of_ansi_declaration(nodes, i);
    let (width, width_expression) = width_of_declaration(nodes, i, table.get_defines());
    table.add_ports(
        name.as_str(),
        direction.as_str(),
        port_type.as_str(),
        width.as_str(),
        &width_expression,
    );
}

/// Extracts the symbol table of one source file from its syntax tree, in
/// one pass over the nodes in source order. A macro definition is
/// recorded with its name and its replacement text. A module declaration
/// opens a module. A grouped port declaration adds one port for each
/// identifier of its list, all with the declaration's direction, type and
/// width. A per-item port declaration adds one port, with its own
/// direction or the one written last. Every other construct is passed
/// over.
pub fn parse_module(tree: &SyntaxTree) -> (table: HdlInfo)
    ensures
        table@ == extracted(tree@),
{
    let nodes = tree.nodes();
    let ghost views = node_views(nodes@);
    let mut table = HdlInfo::new();
    let mut direction = String::new();
    let mut i: usize = 0;
    while i < nodes.len()
        invariant
            i <= nodes.len(),
            views == node_views(nodes@),
            well_formed(views),
            walk_from(views, 0, initial_state()) == walk_from(
                views,
                i as int,
                WalkState { table: table@, direction: direction@ },
            ),
        decreases nodes.len() - i,
    {
        assert(views[i as int] == nodes[i as int]@);
        match nodes[i].kind {
            NodeKind::TextMacroDefinition => {
                record_macro(nodes, i, &mut table);
            },
            NodeKind::ModuleDeclaration => {
                record_module(nodes, i, &mut table);
            },
            NodeKind::PortDeclaration => {
                record_port_declaration(nodes, i, &mut table);
            },
            NodeKind::AnsiPortDeclaration => {
                record_ansi_port(nodes, i, &mut table, &mut direction);
            },
            _ => {},
        }
        i = i + 1;
    }
    table
}

} // verus!
