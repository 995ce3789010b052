//! The loader: from source texts to a document.

use vstd::prelude::*;
use crate::error::{outcome, ErrorKind, ErrorKindView, LoadError, LoadErrorView};
use crate::lexer::{tokenize, tokens_of};
use crate::model::Document;
use crate::parser::{parse, parse_file, Input};
use crate::syntax::{lemma_views_empty, lemma_views_push, views, SyntaxTree, SyntaxTreeView};
use crate::text::chars_of;
use crate::validate::{names_cycle, validate, verdict, Verdict};

verus! {

/// A source: a name, by which errors speak of it, and its text.
#[derive(Debug)]
pub struct Source {
    pub name: String,
    pub text: String,
}

/// A `Source` as values.
pub struct SourceView {
    pub name: Seq<char>,
    pub text: Seq<char>,
}

impl View for Source {
    type V = SourceView;

    open spec fn view(&self) -> SourceView {
        SourceView { name: self.name@, text: self.text@ }
    }
}

/// The syntax tree of the text of source number `index`, or the first
/// lexical or syntax error in it.
pub open spec fn parsed_source(index: usize, text: Seq<char>) -> Result<
    SyntaxTreeView,
    ErrorKindView,
> {
    match tokens_of(index, text) {
        Err(e) => Err(ErrorKindView::Lex(e)),
        Ok(tokens) => match parse_file(Input { source: index, text, tokens }) {
            Err(e) => Err(ErrorKindView::Syntax(e)),
            Ok(tree) => Ok(tree),
        },
    }
}

/// The syntax trees of the first `n` sources, or the error of the first
/// source that has one.
pub open spec fn parsed_sources(sources: Seq<SourceView>, n: int) -> Result<
    Seq<SyntaxTreeView>,
    ErrorKindView,
>
    decreases n,
{
    if n <= 0 {
        Ok(Seq::empty())
    } else {
        match parsed_sources(sources, n - 1) {
            Err(e) => Err(e),
            Ok(trees) => match parsed_source((n - 1) as usize, sources[n - 1].text) {
                Err(e) => Err(e),
                Ok(tree) => Ok(trees.push(tree)),
            },
        }
    }
}

/// How the load of `sources` ends.
pub open spec fn load_verdict(sources: Seq<SourceView>) -> Verdict {
    match parsed_sources(sources, sources.len() as int) {
        Err(e) => Verdict::Fails(e),
        Ok(trees) => verdict(trees),
    }
}

/// The names of the sources, in order.
pub open spec fn source_names(sources: Seq<SourceView>) -> Seq<Seq<char>> {
    Seq::new(sources.len(), |i: int| sources[i].name)
}

/// Whether `r` is what the load of `sources` yields: the document, or the
/// error with the names of the sources.
pub open spec fn loaded(r: Result<Document, LoadError>, sources: Seq<SourceView>) -> bool {
    match load_verdict(sources) {
        Verdict::Fails(e) => r matches Err(x) && x@ == (LoadErrorView {
            kind: e,
            sources: source_names(sources),
        }),
        Verdict::Cyclic { graph, names } => r matches Err(x) && x@.sources == source_names(sources)
            && (x@.kind matches ErrorKindView::CyclicDefinition { path } && names_cycle(
            graph,
            names,
            path,
        )),
        Verdict::Passes(d) => r matches Ok(document) && document@ == d && d.wf(),
    }
}

/// Lexes and parses the text of source number `index`.
pub fn parse_source(index: usize, text: &str) -> (r: Result<SyntaxTree, ErrorKind>)
    ensures
        outcome(r) == parsed_source(index, text@),
{
    let chars = chars_of(text);
    let tokens = match tokenize(index, &chars) {
        Ok(tokens) => tokens,
        Err(e) => {
            return Err(ErrorKind::Lex(e));
        },
    };
    match parse(index, &chars, &tokens) {
        Ok(tree) => Ok(tree),
        Err(e) => Err(ErrorKind::Syntax(e)),
    }
}

/// The names of the sources, in order.
fn names_of(sources: &Vec<Source>) -> (names: Vec<String>)
    ensures
        views(names@) == source_names(views(sources@)),
{
    let mut names: Vec<String> = Vec::new();
    let mut k: usize = 0;
    while k < sources.len()
        invariant
            k <= sources@.len(),
            names@.len() == k,
            forall|i: int| 0 <= i < k ==> (#[trigger] names@[i])@ == sources@[i].name@,
        decreases sources@.len() - k,
    {
        names.push(sources[k].name.clone());
        k += 1;
    }
    assert(views(names@) =~= source_names(views(sources@)));
    names
}

/// Loads the sources: lexes and parses each in order, then checks them
/// against each other and links them into a document. The first error ends
/// the load, and no document is made.
pub fn load(sources: &Vec<Source>) -> (r: Result<Document, LoadError>)
    ensures
        loaded(r, views(sources@)),
{
    let mut trees: Vec<SyntaxTree> = Vec::new();
    proof {
        lemma_views_empty::<SyntaxTree>();
    }
    let mut k: usize = 0;
    while k < sources.len()
        invariant
            k <= sources@.len(),
            parsed_sources(views(sources@), k as int) == Ok::<Seq<SyntaxTreeView>, ErrorKindView>(
                views(trees@),
            ),
        decreases sources@.len() - k,
    {
        assert(views(sources@)[k as int] == sources@[k as int]@);
        match parse_source(k, sources[k].text.as_str()) {
            Ok(tree) => {
                proof {
                    lemma_views_push(trees@, tree);
                }
                trees.push(tree);
            },
            Err(kind) => {
                proof {
                    lemma_parse_error_stays(views(sources@), k as int + 1, sources@.len() as int);
                }
                return Err(LoadError { kind, sources: names_of(sources) });
            },
        }
        k += 1;
    }
    match validate(&trees) {
        Ok(document) => {
            document.well_formed();
            Ok(document)
        },
        Err(kind) => Err(LoadError { kind, sources: names_of(sources) }),
    }
}

/// An error among the first `n` sources is the error of any more of them.
pub proof fn lemma_parse_error_stays(sources: Seq<SourceView>, n: int, m: int)
    requires
        n <= m,
        parsed_sources(sources, n) is Err,
    ensures
        parsed_sources(sources, m) == parsed_sources(sources, n),
    decreases m - n,
{
    if n < m {
        lemma_parse_error_stays(sources, n, m - 1);
    }
}

} // verus!
