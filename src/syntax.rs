//! Syntax-tree queries over Rust source text, and reading their captures.
use streaming_iterator::StreamingIterator;
use vstd::prelude::*;

verus! {

/// One captured node of a query match: capture index, start byte, end byte.
pub type Capture = (u32, usize, usize);

/// The matches that a tree-sitter query over the Rust grammar finds in a
/// source text, each as its list of captures; `None` where the query does not
/// compile or the text cannot be parsed.
pub uninterp spec fn query_result(query: Seq<char>, src: Seq<u8>) -> Option<Seq<Seq<Capture>>>;

/// The captures held by a list of matches.
pub open spec fn matches_view(v: Seq<Vec<Capture>>) -> Seq<Seq<Capture>> {
    v.map_values(|m: Vec<Capture>| m@)
}

/// Relies on tree_sitter's `Parser::parse` (with tree_sitter_rust's grammar),
/// `Query::new` and `QueryCursor::matches`: a fresh parse with no old tree and
/// no timeout depends on the query text and the source alone.
#[verifier::external_body]
pub(crate) fn run_query(query: &str, src: &[u8]) -> (r: Option<Vec<Vec<Capture>>>)
    ensures
        r is None ==> query_result(query@, src@) is None,
        r matches Some(v) ==> query_result(query@, src@) == Some(matches_view(v@)),
{
    let language: tree_sitter::Language = tree_sitter_rust::LANGUAGE.into();
    let mut parser = tree_sitter::Parser::new();
    parser.set_language(&language).ok()?;
    let compiled = tree_sitter::Query::new(&language, query).ok()?;
    let tree = parser.parse(src, None)?;
    let mut cursor = tree_sitter::QueryCursor::new();
    let mut found = cursor.matches(&compiled, tree.root_node(), src);
    let mut out = Vec::new();
    while let Some(m) = found.next() {
        out.push(m.captures.iter().map(|c| (c.index, c.node.start_byte(), c.node.end_byte())).collect());
    }
    Some(out)
}

/// The byte range of the first capture of `m` with the given index.
pub open spec fn find_capture(m: Seq<Capture>, index: u32) -> Option<(int, int)>
    decreases m.len(),
{
    if m.len() == 0 {
        None
    } else if m[0].0 == index {
        Some((m[0].1 as int, m[0].2 as int))
    } else {
        find_capture(m.drop_first(), index)
    }
}

/// The text of the first capture of `m` with the given index, where it lies
/// within `src`.
pub open spec fn capture_text(src: Seq<u8>, m: Seq<Capture>, index: u32) -> Option<Seq<u8>> {
    match find_capture(m, index) {
        Some((start, end)) => if 0 <= start <= end <= src.len() {
            Some(src.subrange(start, end))
        } else {
            None
        },
        None => None,
    }
}

/// The byte range of the first capture of `m` with the given index.
pub fn capture_range(m: &Vec<Capture>, index: u32) -> (r: Option<(usize, usize)>)
    ensures
        match r {
            Some((start, end)) => find_capture(m@, index) == Some((start as int, end as int)),
            None => find_capture(m@, index) is None,
        },
{
    let mut i: usize = 0;
    assert(m@.subrange(0, m@.len() as int) =~= m@);
    while i < m.len()
        invariant
            i <= m@.len(),
            find_capture(m@, index) == find_capture(m@.subrange(i as int, m@.len() as int), index),
        decreases m.len() - i,
    {
        let ghost rest = m@.subrange(i as int, m@.len() as int);
        assert(rest.drop_first() =~= m@.subrange(i + 1, m@.len() as int));
        let (k, start, end) = m[i];
        if k == index {
            return Some((start, end));
        }
        i += 1;
    }
    None
}

/// A copy of the text of the first capture of `m` with the given index, where
/// it lies within `src`.
pub fn capture_bytes(src: &[u8], m: &Vec<Capture>, index: u32) -> (r: Option<Vec<u8>>)
    ensures
        match r {
            Some(t) => capture_text(src@, m@, index) == Some(t@),
            None => capture_text(src@, m@, index) is None,
        },
{
    match capture_range(m, index) {
        Some((start, end)) => if start <= end && end <= src.len() {
            Some(crate::text::copy_range(src, start, end))
        } else {
            None
        },
        None => None,
    }
}

} // verus!
