//! The syntax tree that the extractor walks: the nodes of a parsed source
//! file in source order, each with the kind of construct it stands for and
//! the number of nodes of its sub-tree. Tokens are leaves that carry their
//! place in the source and their text.

use crate::text::chars_of;
use vstd::prelude::*;

verus! {

/// The kinds of construct that the extractor tells apart. Every other
/// construct is [`NodeKind::Other`].
#[derive(Clone, Copy, PartialEq, Eq, Structural, Debug)]
pub enum NodeKind {
    /// A token: a piece of the source text.
    Locate,
    SimpleIdentifier,
    EscapedIdentifier,
    Keyword,
    Symbol,
    UnsignedNumber,
    HexNumber,
    OctalNumber,
    BinaryNumber,
    Size,
    HexBase,
    OctalBase,
    BinaryBase,
    HexValue,
    OctalValue,
    BinaryValue,
    TextMacroDefinition,
    TextMacroName,
    MacroText,
    ModuleDeclaration,
    ModuleIdentifier,
    PortDeclaration,
    InputDeclaration,
    OutputDeclaration,
    InoutDeclaration,
    DataType,
    ImplicitDataType,
    PackedDimensionRange,
    ListOfPortIdentifiers,
    PortIdentifier,
    Identifier,
    AnsiPortDeclaration,
    PortDirection,
    AnsiPortDeclarationVariable,
    Other,
}

/// The place of a token in the source text.
#[derive(Clone, Copy, PartialEq, Eq, Structural, Debug)]
pub struct Span {
    pub offset: usize,
    pub len: usize,
}

/// One node of the tree.
#[derive(Debug, Clone)]
pub struct SyntaxNode {
    pub kind: NodeKind,
    /// The number of nodes of the sub-tree, this node counted.
    pub extent: usize,
    /// The place of the token; of no meaning for other nodes.
    pub span: Span,
    /// The text of the token; of no meaning for other nodes.
    pub text: String,
}

/// What a [`SyntaxNode`] holds.
pub struct SyntaxNodeView {
    pub kind: NodeKind,
    pub extent: int,
    pub span: Span,
    pub text: Seq<char>,
}

impl View for SyntaxNode {
    type V = SyntaxNodeView;

    open spec fn view(&self) -> SyntaxNodeView {
        SyntaxNodeView { kind: self.kind, extent: self.extent as int, span: self.span, text: self.text@ }
    }
}

impl SyntaxNode {
    /// A token at the given place with the given text.
    pub fn token(offset: usize, len: usize, text: &str) -> (n: SyntaxNode)
        ensures
            n@ == (SyntaxNodeView {
                kind: NodeKind::Locate,
                extent: 1,
                span: Span { offset, len },
                text: text@,
            }),
    {
        SyntaxNode {
            kind: NodeKind::Locate,
            extent: 1,
            span: Span { offset, len },
            text: text.to_owned(),
        }
    }

    /// A node of the given kind whose sub-tree has `extent` nodes.
    pub fn inner(kind: NodeKind, extent: usize) -> (n: SyntaxNode)
        ensures
            n@ == (SyntaxNodeView {
                kind,
                extent: extent as int,
                span: Span { offset: 0, len: 0 },
                text: Seq::empty(),
            }),
    {
        SyntaxNode { kind, extent, span: Span { offset: 0, len: 0 }, text: String::new() }
    }
}

/// The views of a sequence of nodes.
pub open spec fn node_views(nodes: Seq<SyntaxNode>) -> Seq<SyntaxNodeView> {
    Seq::new(nodes.len(), |i: int| nodes[i]@)
}

/// The index behind the sub-tree of the node `i`.
pub open spec fn subtree_end(nodes: Seq<SyntaxNodeView>, i: int) -> int {
    i + nodes[i].extent
}

/// Whether every sub-tree has at least its own node and lies within the
/// sequence.
pub open spec fn extents_in_bounds(nodes: Seq<SyntaxNodeView>) -> bool {
    forall|i: int|
        0 <= i < nodes.len() ==> 1 <= (#[trigger] nodes[i]).extent && i + nodes[i].extent
            <= nodes.len()
}

/// Whether the sub-tree of a node that lies in the sub-tree of another
/// ends within it.
pub open spec fn extents_nested(nodes: Seq<SyntaxNodeView>) -> bool {
    forall|i: int, j: int|
        #![trigger nodes[i], nodes[j]]
        0 <= i < j < nodes.len() && j < i + nodes[i].extent ==> j + nodes[j].extent <= i
            + nodes[i].extent
}

/// Whether the sequence is a forest written in source order: each node is
/// followed by the nodes of its sub-tree.
pub open spec fn well_formed(nodes: Seq<SyntaxNodeView>) -> bool {
    extents_in_bounds(nodes) && extents_nested(nodes)
}

/// A syntax tree: a well-formed sequence of nodes.
#[derive(Debug)]
pub struct SyntaxTree {
    nodes: Vec<SyntaxNode>,
}

impl View for SyntaxTree {
    type V = Seq<SyntaxNodeView>;

    closed spec fn view(&self) -> Seq<SyntaxNodeView> {
        node_views(self.nodes@)
    }
}

/// Whether the sub-trees of the nodes below `upto` are in bounds and hold
/// their nodes' sub-trees.
spec fn checked_upto(nodes: Seq<SyntaxNodeView>, upto: int) -> bool {
    &&& forall|i: int|
        0 <= i < upto ==> 1 <= (#[trigger] nodes[i]).extent && i + nodes[i].extent <= nodes.len()
    &&& forall|i: int, j: int|
        #![trigger nodes[i], nodes[j]]
        0 <= i < upto && i < j < nodes.len() && j < i + nodes[i].extent ==> j + nodes[j].extent
            <= i + nodes[i].extent
}

impl SyntaxTree {
    #[verifier::type_invariant]
    spec fn inv(self) -> bool {
        well_formed(node_views(self.nodes@))
    }

    /// The tree of the given nodes; `None` where they are not well formed.
    pub fn new(nodes: Vec<SyntaxNode>) -> (r: Option<SyntaxTree>)
        ensures
            r is Some <==> well_formed(node_views(nodes@)),
            r matches Some(t) ==> t@ == node_views(nodes@),
    {
        let n: usize = nodes.len();
        let ghost views = node_views(nodes@);
        let mut i: usize = 0;
        while i < n
            invariant
                i <= n,
                n == nodes.len(),
                views == node_views(nodes@),
                checked_upto(views, i as int),
            decreases n - i,
        {
            let extent: usize = nodes[i].extent;
            assert(views[i as int].extent == extent);
            if extent < 1 || extent > n - i {
                return None;
            }
            let end: usize = i + extent;
            let mut j: usize = i + 1;
            while j < end
                invariant
                    i < j <= end <= n,
                    end == i + extent,
                    extent == views[i as int].extent,
                    n == nodes.len(),
                    views == node_views(nodes@),
                    forall|k: int|
                        i < k < j ==> k + (#[trigger] views[k]).extent <= end,
                decreases end - j,
            {
                assert(views[j as int].extent == nodes[j as int].extent);
                if nodes[j].extent > end - j {
                    assert(!(views[j as int].extent + j <= views[i as int].extent + i));
                    return None;
                }
                j = j + 1;
            }
            i = i + 1;
        }
        Some(SyntaxTree { nodes })
    }

    /// The nodes in source order.
    pub fn nodes(&self) -> (r: &Vec<SyntaxNode>)
        ensures
            node_views(r@) == self@,
            well_formed(self@),
    {
        proof {
            use_type_invariant(self);
        }
        &self.nodes
    }

    /// The number of nodes.
    pub fn len(&self) -> (n: usize)
        ensures
            n == self@.len(),
    {
        self.nodes.len()
    }
}

// ---------------------------------------------------------------------------
// Searching

/// The first index in `from..to` whose node has one of the kinds.
pub open spec fn first_of(nodes: Seq<SyntaxNodeView>, kinds: Seq<NodeKind>, from: int, to: int)
    -> Option<int>
    decreases to - from,
{
    if from >= to {
        None
    } else if kinds.contains(nodes[from].kind) {
        Some(from)
    } else {
        first_of(nodes, kinds, from + 1, to)
    }
}

/// The first node of one of the kinds in the sub-tree of the node `i`,
/// that node counted.
pub open spec fn first_in_subtree(nodes: Seq<SyntaxNodeView>, kinds: Seq<NodeKind>, i: int)
    -> Option<int> {
    first_of(nodes, kinds, i, subtree_end(nodes, i))
}

/// Tests whether `kind` is one of `kinds`.
pub fn kind_in(kind: NodeKind, kinds: &Vec<NodeKind>) -> (r: bool)
    ensures
        r == kinds@.contains(kind),
{
    let mut k: usize = 0;
    while k < kinds.len()
        invariant
            k <= kinds.len(),
            forall|m: int| 0 <= m < k ==> kinds@[m] != kind,
        decreases kinds.len() - k,
    {
        if kinds[k] == kind {
            return true;
        }
        k = k + 1;
    }
    false
}

/// Finds the first node in `from..to` that has one of the kinds.
pub fn find_first(nodes: &Vec<SyntaxNode>, kinds: &Vec<NodeKind>, from: usize, to: usize) -> (r:
    Option<usize>)
    requires
        to <= nodes.len(),
    ensures
        match r {
            Some(k) => first_of(node_views(nodes@), kinds@, from as int, to as int) == Some(
                k as int,
            ) && from <= k < to,
            None => first_of(node_views(nodes@), kinds@, from as int, to as int) is None,
        },
{
    let mut i: usize = from;
    while i < to
        invariant
            from <= i,
            to <= nodes.len(),
            first_of(node_views(nodes@), kinds@, from as int, to as int) == first_of(
                node_views(nodes@),
                kinds@,
                i as int,
                to as int,
            ),
        decreases to - i,
    {
        if kind_in(nodes[i].kind, kinds) {
            return Some(i);
        }
        i = i + 1;
    }
    None
}

/// The token of the node `i`: the node behind it, where that is a token
/// of its sub-tree.
pub open spec fn token_of(nodes: Seq<SyntaxNodeView>, i: int) -> Option<int> {
    if i + 1 < subtree_end(nodes, i) && i + 1 < nodes.len() && nodes[i + 1].kind
        == NodeKind::Locate {
        Some(i + 1)
    } else {
        None
    }
}

/// The texts of the tokens in `from..to`, one after another.
pub open spec fn tokens_text(nodes: Seq<SyntaxNodeView>, from: int, to: int) -> Seq<char>
    decreases to - from,
{
    if from >= to {
        Seq::empty()
    } else if nodes[to - 1].kind == NodeKind::Locate {
        tokens_text(nodes, from, to - 1) + nodes[to - 1].text
    } else {
        tokens_text(nodes, from, to - 1)
    }
}

/// The kind that a construct name stands for; [`NodeKind::Other`] for a
/// name that the extractor does not know.
pub open spec fn kind_of_name(name: Seq<char>) -> NodeKind {
    if name == "Locate"@ {
        NodeKind::Locate
    } else if name == "SimpleIdentifier"@ {
        NodeKind::SimpleIdentifier
    } else if name == "EscapedIdentifier"@ {
        NodeKind::EscapedIdentifier
    } else if name == "Keyword"@ {
        NodeKind::Keyword
    } else if name == "Symbol"@ {
        NodeKind::Symbol
    } else if name == "UnsignedNumber"@ {
        NodeKind::UnsignedNumber
    } else if name == "HexNumber"@ {
        NodeKind::HexNumber
    } else if name == "OctalNumber"@ {
        NodeKind::OctalNumber
    } else if name == "BinaryNumber"@ {
        NodeKind::BinaryNumber
    } else if name == "Size"@ {
        NodeKind::Size
    } else if name == "HexBase"@ {
        NodeKind::HexBase
    } else if name == "OctalBase"@ {
        NodeKind::OctalBase
    } else if name == "BinaryBase"@ {
        NodeKind::BinaryBase
    } else if name == "HexValue"@ {
        NodeKind::HexValue
    } else if name == "OctalValue"@ {
        NodeKind::OctalValue
    } else if name == "BinaryValue"@ {
        NodeKind::BinaryValue
    } else if name == "TextMacroDefinition"@ {
        NodeKind::TextMacroDefinition
    } else if name == "TextMacroName"@ {
        NodeKind::TextMacroName
    } else if name == "MacroText"@ {
        NodeKind::MacroText
    } else if name == "ModuleDeclaration"@ {
        NodeKind::ModuleDeclaration
    } else if name == "ModuleIdentifier"@ {
        NodeKind::ModuleIdentifier
    } else if name == "PortDeclaration"@ {
        NodeKind::PortDeclaration
    } else if name == "InputDeclaration"@ {
        NodeKind::InputDeclaration
    } else if name == "OutputDeclaration"@ {
        NodeKind::OutputDeclaration
    } else if name == "InoutDeclaration"@ {
        NodeKind::InoutDeclaration
    } else if name == "DataType"@ {
        NodeKind::DataType
    } else if name == "ImplicitDataType"@ {
        NodeKind::ImplicitDataType
    } else if name == "PackedDimensionRange"@ {
        NodeKind::PackedDimensionRange
    } else if name == "ListOfPortIdentifiers"@ {
        NodeKind::ListOfPortIdentifiers
    } else if name == "PortIdentifier"@ {
        NodeKind::PortIdentifier
    } else if name == "Identifier"@ {
        NodeKind::Identifier
    } else if name == "AnsiPortDeclaration"@ {
        NodeKind::AnsiPortDeclaration
    } else if name == "PortDirection"@ {
        NodeKind::PortDirection
    } else if name == "AnsiPortDeclarationVariable"@ {
        NodeKind::AnsiPortDeclarationVariable
    } else {
        NodeKind::Other
    }
}

/// Tests whether `chars` is the text `word`.
pub fn is_word(chars: &Vec<char>, word: &str) -> (r: bool)
    ensures
        r == (chars@ == word@),
{
    let w = chars_of(word);
    if w.len() != chars.len() {
        return false;
    }
    let mut i: usize = 0;
    while i < w.len()
        invariant
            i <= w.len(),
            w.len() == chars.len(),
            w@ == word@,
            forall|k: int| 0 <= k < i ==> chars@[k] == w@[k],
        decreases w.len() - i,
    {
        if chars[i] != w[i] {
            return false;
        }
        i = i + 1;
    }
    assert(chars@ =~= w@);
    true
}

impl NodeKind {
    /// The kind that a construct name stands for.
    pub fn from_name(name: &str) -> (kind: NodeKind)
        ensures
            kind == kind_of_name(name@),
    {
        let n = chars_of(name);
        if is_word(&n, "Locate") {
            NodeKind::Locate
        } else if is_word(&n, "SimpleIdentifier") {
            NodeKind::SimpleIdentifier
        } else if is_word(&n, "EscapedIdentifier") {
            NodeKind::EscapedIdentifier
        } else if is_word(&n, "Keyword") {
            NodeKind::Keyword
        } else if is_word(&n, "Symbol") {
            NodeKind::Symbol
        } else if is_word(&n, "UnsignedNumber") {
            NodeKind::UnsignedNumber
        } else if is_word(&n, "HexNumber") {
            NodeKind::HexNumber
        } else if is_word(&n, "OctalNumber") {
            NodeKind::OctalNumber
        } else if is_word(&n, "BinaryNumber") {
            NodeKind::BinaryNumber
        } else if is_word(&n, "Size") {
            NodeKind::Size
        } else if is_word(&n, "HexBase") {
            NodeKind::HexBase
        } else if is_word(&n, "OctalBase") {
            NodeKind::OctalBase
        } else if is_word(&n, "BinaryBase") {
            NodeKind::BinaryBase
        } else if is_word(&n, "HexValue") {
            NodeKind::HexValue
        } else if is_word(&n, "OctalValue") {
            NodeKind::OctalValue
        } else if is_word(&n, "BinaryValue") {
            NodeKind::BinaryValue
        } else if is_word(&n, "TextMacroDefinition") {
            NodeKind::TextMacroDefinition
        } else if is_word(&n, "TextMacroName") {
            NodeKind::TextMacroName
        } else if is_word(&n, "MacroText") {
            NodeKind::MacroText
        } else if is_word(&n, "ModuleDeclaration") {
            NodeKind::ModuleDeclaration
        } else if is_word(&n, "ModuleIdentifier") {
            NodeKind::ModuleIdentifier
        } else if is_word(&n, "PortDeclaration") {
            NodeKind::PortDeclaration
        } else if is_word(&n, "InputDeclaration") {
            NodeKind::InputDeclaration
        } else if is_word(&n, "OutputDeclaration") {
            NodeKind::OutputDeclaration
        } else if is_word(&n, "InoutDeclaration") {
            NodeKind::InoutDeclaration
        } else if is_word(&n, "DataType") {
            NodeKind::DataType
        } else if is_word(&n, "ImplicitDataType") {
            NodeKind::ImplicitDataType
        } else if is_word(&n, "PackedDimensionRange") {
            NodeKind::PackedDimensionRange
        } else if is_word(&n, "ListOfPortIdentifiers") {
            NodeKind::ListOfPortIdentifiers
        } else if is_word(&n, "PortIdentifier") {
            NodeKind::PortIdentifier
        } else if is_word(&n, "Identifier") {
            NodeKind::Identifier
        } else if is_word(&n, "AnsiPortDeclaration") {
            NodeKind::AnsiPortDeclaration
        } else if is_word(&n, "PortDirection") {
            NodeKind::PortDirection
        } else if is_word(&n, "AnsiPortDeclarationVariable") {
            NodeKind::AnsiPortDeclarationVariable
        } else {
            NodeKind::Other
        }
    }
}

} // verus!
