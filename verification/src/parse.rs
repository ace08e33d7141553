//! Parsing and querying with tree-sitter, into plain values.

use crate::items::{put, views, views_empty};
use crate::lang::Language;
use crate::syntax::{assemble, NodeInfo, NodeLabel, Syntax, SyntaxTree};
use crate::text::{after_last, after_last_text, byte_count, byte_length, contains_char};
use tree_sitter::StreamingIterator;
use vstd::prelude::*;
use vstd::string::StrSliceExecFns;
use vstd::utf8::is_ascii_chars;

verus! {

/// A tree-sitter syntax tree.
#[verifier::external_type_specification]
#[verifier::external_body]
pub struct ExTree(tree_sitter::Tree);

/// A position in a tree-sitter syntax tree.
#[verifier::external_type_specification]
#[verifier::external_body]
pub struct ExTreeCursor<'tree>(tree_sitter::TreeCursor<'tree>);

/// The error of a query that tree-sitter does not accept.
#[verifier::external_type_specification]
#[verifier::external_body]
pub struct ExQueryError(tree_sitter::QueryError);

/// One node that a query captured, under the name of the capture.
pub struct Capture {
    pub name: String,
    pub start: usize,
    pub end: usize,
    pub row: usize,
    pub column: usize,
}

/// The contents of a [`Capture`].
pub struct CaptureView {
    pub name: Seq<char>,
    pub start: int,
    pub end: int,
    pub row: int,
    pub column: int,
}

impl View for Capture {
    type V = CaptureView;

    open spec fn view(&self) -> CaptureView {
        CaptureView {
            name: self.name@,
            start: self.start as int,
            end: self.end as int,
            row: self.row as int,
            column: self.column as int,
        }
    }
}

/// The captures of one match.
pub struct Match {
    pub captures: Vec<Capture>,
}

impl View for Match {
    type V = Seq<CaptureView>;

    open spec fn view(&self) -> Seq<CaptureView> {
        views(self.captures@)
    }
}

/// The language and the text that a tree was parsed from.
pub uninterp spec fn tree_origin(tree: tree_sitter::Tree) -> (Language, Seq<char>);

/// The nodes of a tree, in document order.
pub uninterp spec fn tree_nodes(tree: tree_sitter::Tree) -> Seq<NodeLabel>;

/// The nodes of the tree that a cursor walks, in document order.
pub uninterp spec fn cursor_nodes(cursor: tree_sitter::TreeCursor<'_>) -> Seq<NodeLabel>;

/// The matches of a query on a tree, in the order in which they are found; `None`
/// where the grammar of the tree refuses the query.
pub uninterp spec fn tree_matches(tree: tree_sitter::Tree, query: Seq<char>) -> Option<
    Seq<Seq<CaptureView>>,
>;

/// The longest query that is asked, in characters.
pub const MAX_QUERY_LEN: usize = 1024;

/// Whether a text can be parsed. The parser counts bytes in 32 bits. That of Kotlin
/// looks for the end of the line behind an annotation, and does not stop at the end
/// of the text instead.
pub open spec fn is_parseable(lang: Language, source: Seq<char>) -> bool {
    &&& byte_count(source) < u32::MAX
    &&& lang == Language::Kotlin ==> !after_last(source, '\n').contains('@')
}

/// Whether a text can be parsed.
pub fn can_parse(lang: Language, source: &str) -> (b: bool)
    ensures
        b == is_parseable(lang, source@),
{
    byte_length(source) < u32::MAX as usize && (lang != Language::Kotlin || !contains_char(
        after_last_text(source, '\n'),
        '@',
    ))
}

/// Whether a query can be asked: it is short, and all its characters are ASCII ones.
/// What other characters mean in a query depends on the locale of the process.
pub open spec fn is_plain(query: Seq<char>) -> bool {
    query.len() <= MAX_QUERY_LEN && is_ascii_chars(query)
}

/// `Parser::set_language` with the grammar of the language, and `Parser::parse`. It
/// claims that there is a tree, which belongs to the language and the text: the
/// parser accepts the version of each of the grammars, and without a callback it
/// gives no tree only where it has no grammar. Nothing is said of the nodes: what
/// some grammars make of characters that are not ASCII ones depends on the locale of
/// the process.
#[verifier::external_body]
fn parse_tree(lang: Language, source: &str) -> (tree: Option<tree_sitter::Tree>)
    requires
        is_parseable(lang, source@),
    ensures
        tree is Some,
        tree_origin(tree->0) == (lang, source@),
{
    let grammar: tree_sitter::Language = match lang {
        Language::C => tree_sitter_c::LANGUAGE.into(),
        Language::Cpp => tree_sitter_cpp::LANGUAGE.into(),
        Language::CSharp => tree_sitter_c_sharp::LANGUAGE.into(),
        Language::Dart => tree_sitter_dart::LANGUAGE.into(),
        Language::Go => tree_sitter_go::LANGUAGE.into(),
        Language::Hcl => tree_sitter_hcl::LANGUAGE.into(),
        Language::Java => tree_sitter_java::LANGUAGE.into(),
        Language::Kotlin => tree_sitter_kotlin_ng::LANGUAGE.into(),
        Language::Lua => tree_sitter_lua::LANGUAGE.into(),
    };
    let mut parser = tree_sitter::Parser::new();
    parser.set_language(&grammar).ok()?;
    parser.parse(source, None)
}

/// `Tree::walk`: a cursor on the nodes of the tree.
#[verifier::external_body]
fn walk_tree(tree: &tree_sitter::Tree) -> (cursor: tree_sitter::TreeCursor<'_>)
    ensures
        cursor_nodes(cursor) == tree_nodes(*tree),
{
    tree.walk()
}

/// `Node::descendant_count` of the root: the number of nodes of the tree.
#[verifier::external_body]
fn node_count(tree: &tree_sitter::Tree) -> (count: usize)
    ensures
        count == tree_nodes(*tree).len(),
{
    tree.root_node().descendant_count()
}

/// `TreeCursor::goto_descendant`, and what `Node` and `TreeCursor` say of the
/// node that it goes to: the node with that number in document order. The
/// cursor stays on its tree.
#[verifier::external_body]
fn node_at(cursor: &mut tree_sitter::TreeCursor<'_>, index: usize) -> (info: NodeInfo)
    requires
        index < cursor_nodes(*old(cursor)).len(),
    ensures
        cursor_nodes(*final(cursor)) == cursor_nodes(*old(cursor)),
        info@ == cursor_nodes(*old(cursor))[index as int],
{
    cursor.goto_descendant(index);
    NodeInfo {
        kind: cursor.node().kind().to_owned(),
        field: cursor.field_name().map(|name| name.to_owned()),
        named: cursor.node().is_named(),
        start: cursor.node().start_byte(),
        end: cursor.node().end_byte(),
        row: cursor.node().start_position().row,
        column: cursor.node().start_position().column,
        depth: cursor.depth() as usize,
    }
}

/// `Query::new` for the language of the tree and `QueryCursor::matches` from its
/// root: the captures of each match, with the positions of their nodes. It claims
/// that they depend on the tree and the query alone.
#[verifier::external_body]
fn run_query(tree: &tree_sitter::Tree, source: &str, query: &str) -> (answer: Result<
    Vec<Match>,
    tree_sitter::QueryError,
>)
    requires
        source@ == tree_origin(*tree).1,
        is_plain(query@),
    ensures
        match answer {
            Ok(found) => tree_matches(*tree, query@) == Some(views(found@)),
            Err(_) => tree_matches(*tree, query@) is None,
        },
{
    let query = tree_sitter::Query::new(&tree.language(), query)?;
    let mut cursor = tree_sitter::QueryCursor::new();
    let mut found = cursor.matches(&query, tree.root_node(), source.as_bytes());
    let mut all = Vec::new();
    while let Some(m) = found.next() {
        let captures = m.captures().iter().map(|c| Capture {
            name: query.capture_names()[c.index as usize].to_owned(),
            start: c.node.start_byte(),
            end: c.node.end_byte(),
            row: c.node.start_position().row,
            column: c.node.start_position().column,
        });
        all.push(Match { captures: captures.collect() });
    }
    Ok(all)
}

/// The nodes of a tree, in document order.
fn read_nodes(tree: &tree_sitter::Tree) -> (nodes: Vec<NodeInfo>)
    ensures
        views(nodes@) == tree_nodes(*tree),
{
    let ghost labels = tree_nodes(*tree);
    let count: usize = node_count(tree);
    let mut cursor = walk_tree(tree);
    let mut nodes: Vec<NodeInfo> = Vec::new();
    proof {
        views_empty::<NodeInfo>();
        assert(labels.subrange(0, 0) =~= Seq::empty());
    }
    let mut i: usize = 0;
    while i < count
        invariant
            i <= count,
            count == labels.len(),
            cursor_nodes(cursor) == labels,
            views(nodes@) == labels.subrange(0, i as int),
        decreases count - i,
    {
        let info = node_at(&mut cursor, i);
        put(&mut nodes, info);
        assert(labels.subrange(0, i as int) + seq![labels[i as int]] =~= labels.subrange(
            0,
            i + 1,
        ));
        i += 1;
    }
    assert(labels.subrange(0, count as int) =~= labels);
    nodes
}

/// The text and the nodes of a tree.
pub open spec fn syntax_of(tree: tree_sitter::Tree) -> Syntax {
    assemble(tree_origin(tree).1, tree_nodes(tree))
}

/// The matches of a query on a tree; `None` where the grammar of the tree refuses the
/// query, or where it cannot be asked.
pub open spec fn answer_to(tree: tree_sitter::Tree, query: Seq<char>) -> Option<
    Seq<Seq<CaptureView>>,
> {
    if is_plain(query) {
        tree_matches(tree, query)
    } else {
        None
    }
}

/// A parsed file: its nodes, and the tree that queries run on.
pub struct Parsed {
    tree: tree_sitter::Tree,
    syntax: SyntaxTree,
}

impl Parsed {
    /// The tree that the file was parsed into.
    pub closed spec fn tree(&self) -> tree_sitter::Tree {
        self.tree
    }

    #[verifier::type_invariant]
    spec fn inv(self) -> bool {
        self.syntax@ == syntax_of(self.tree)
    }

    /// The nodes of the file.
    pub fn syntax(&self) -> (syntax: &SyntaxTree)
        ensures
            syntax@ == syntax_of(self.tree()),
    {
        proof {
            use_type_invariant(self);
        }
        &self.syntax
    }

    /// The captures of each match of a query; `None` where the grammar of the
    /// language refuses the query, or where it cannot be asked.
    pub(crate) fn query(&self, query: &str) -> (answer: Option<Vec<Match>>)
        ensures
            answered(answer) == answer_to(self.tree(), query@),
    {
        proof {
            use_type_invariant(self);
        }
        if query.unicode_len() > MAX_QUERY_LEN || !query.is_ascii() {
            return None;
        }
        match run_query(&self.tree, self.syntax.source(), query) {
            Ok(found) => Some(found),
            Err(_) => None,
        }
    }
}

/// The captures of each match, where there is an answer.
pub open spec fn answered(answer: Option<Vec<Match>>) -> Option<Seq<Seq<CaptureView>>> {
    match answer {
        Some(found) => Some(views(found@)),
        None => None,
    }
}

/// Parses a text, where that can be done.
pub fn parse(lang: Language, source: &str) -> (parsed: Option<Parsed>)
    ensures
        match parsed {
            Some(p) => is_parseable(lang, source@) && tree_origin(p.tree()) == (lang, source@),
            None => !is_parseable(lang, source@),
        },
{
    if !can_parse(lang, source) {
        return None;
    }
    match parse_tree(lang, source) {
        None => None,
        Some(tree) => {
            let nodes = read_nodes(&tree);
            let syntax = SyntaxTree::build(source, nodes);
            Some(Parsed { tree, syntax })
        },
    }
}

} // verus!
