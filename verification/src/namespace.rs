//! The namespace: the declarations of all sources, gathered before any name
//! is resolved.
//!
//! Every declaration belongs to a module: the one named by the latest
//! `module` declaration before it in its source, or the module without a
//! name. A module may be continued in any source.

use vstd::prelude::*;
use crate::index::NameIndex;
use crate::model::qualified_name;
use crate::syntax::{
    lemma_views_empty, lemma_views_push, opt_view, views, DeclKind, DeclarationView, SyntaxTree,
    SyntaxTreeView,
};
use crate::text::{push_char, same_text};
use crate::token::Location;
use vstd::string::StringExecFns;

verus! {

/// An import: the module `module` may refer to the names of module `name`.
#[derive(Debug)]
pub struct Import {
    pub module: String,
    pub name: String,
    pub location: Location,
}

/// An `Import` as values.
pub struct ImportView {
    pub module: Seq<char>,
    pub name: Seq<char>,
    pub location: Location,
}

impl View for Import {
    type V = ImportView;

    open spec fn view(&self) -> ImportView {
        ImportView { module: self.module@, name: self.name@, location: self.location }
    }
}

/// A declaration that defines a name, with the module that it belongs to.
pub struct EntryView {
    pub module: Seq<char>,
    pub declaration: DeclarationView,
}

impl EntryView {
    /// The qualified name that the entry defines.
    pub open spec fn qualified(self) -> Seq<char> {
        qualified_name(self.module, self.declaration.name)
    }
}

/// What the sources declare: the names of their modules, each once, in the
/// order in which they first occur; their imports; their defining
/// declarations; and the documentation comments that precede no defining
/// declaration; each in source order.
pub struct NamespaceView {
    pub modules: Seq<Seq<char>>,
    pub imports: Seq<ImportView>,
    pub entries: Seq<EntryView>,
    pub docs: Seq<Seq<char>>,
}

/// The index of the first name from `k` on that equals `name`.
pub open spec fn index_of(names: Seq<Seq<char>>, name: Seq<char>, k: int) -> Option<usize>
    decreases names.len() - k,
{
    if k < 0 || k >= names.len() {
        None
    } else if names[k] == name {
        Some(k as usize)
    } else {
        index_of(names, name, k + 1)
    }
}

/// `modules`, with `name` added unless it is there.
pub open spec fn with_module(modules: Seq<Seq<char>>, name: Seq<char>) -> Seq<Seq<char>> {
    if index_of(modules, name, 0) is Some {
        modules
    } else {
        modules.push(name)
    }
}

/// `docs`, with `doc` added if there is one.
pub open spec fn with_doc(docs: Seq<Seq<char>>, doc: Option<Seq<char>>) -> Seq<Seq<char>> {
    match doc {
        Some(text) => docs.push(text),
        None => docs,
    }
}

/// The module in force behind the first `n` declarations of a source.
pub open spec fn module_at(declarations: Seq<DeclarationView>, n: int) -> Seq<char>
    decreases n,
{
    if n <= 0 {
        Seq::empty()
    } else if declarations[n - 1].kind == DeclKind::Module {
        declarations[n - 1].name
    } else {
        module_at(declarations, n - 1)
    }
}

/// The namespace `ns` with one more declaration, met while `module` is in
/// force.
pub open spec fn with_declaration(
    ns: NamespaceView,
    module: Seq<char>,
    d: DeclarationView,
) -> NamespaceView {
    match d.kind {
        DeclKind::Module => NamespaceView {
            modules: with_module(ns.modules, d.name),
            docs: with_doc(ns.docs, d.doc),
            ..ns
        },
        DeclKind::Use => NamespaceView {
            modules: with_module(ns.modules, module),
            imports: ns.imports.push(ImportView { module, name: d.name, location: d.location }),
            docs: with_doc(ns.docs, d.doc),
            ..ns
        },
        _ => NamespaceView {
            modules: with_module(ns.modules, module),
            entries: ns.entries.push(EntryView { module, declaration: d }),
            ..ns
        },
    }
}

/// The namespace `ns` with the first `n` declarations of a source.
pub open spec fn with_declarations(
    ns: NamespaceView,
    declarations: Seq<DeclarationView>,
    n: int,
) -> NamespaceView
    decreases n,
{
    if n <= 0 {
        ns
    } else {
        with_declaration(
            with_declarations(ns, declarations, n - 1),
            module_at(declarations, n - 1),
            declarations[n - 1],
        )
    }
}

/// The namespace `ns` with all of one source.
pub open spec fn with_tree(ns: NamespaceView, tree: SyntaxTreeView) -> NamespaceView {
    let all = with_declarations(ns, tree.declarations, tree.declarations.len() as int);
    NamespaceView { docs: with_doc(all.docs, tree.trailing_doc), ..all }
}

/// The namespace of the first `n` sources.
pub open spec fn gathered(trees: Seq<SyntaxTreeView>, n: int) -> NamespaceView
    decreases n,
{
    if n <= 0 {
        NamespaceView {
            modules: Seq::empty(),
            imports: Seq::empty(),
            entries: Seq::empty(),
            docs: Seq::empty(),
        }
    } else {
        with_tree(gathered(trees, n - 1), trees[n - 1])
    }
}

/// The namespace of all sources.
pub open spec fn namespace_of(trees: Seq<SyntaxTreeView>) -> NamespaceView {
    gathered(trees, trees.len() as int)
}

/// An index that `index_of` yields lies at or behind `k` and holds `name`.
pub proof fn lemma_index_of_found(names: Seq<Seq<char>>, name: Seq<char>, k: int)
    requires
        names.len() <= usize::MAX,
    ensures
        index_of(names, name, k) matches Some(i) ==> k <= i < names.len() && names[i as int]
            == name,
    decreases names.len() - k,
{
    if 0 <= k < names.len() && names[k] != name {
        lemma_index_of_found(names, name, k + 1);
    }
}

/// Where `index_of` yields nothing, no name from `k` on is `name`.
pub proof fn lemma_index_of_none(names: Seq<Seq<char>>, name: Seq<char>, k: int)
    requires
        0 <= k,
        index_of(names, name, k) is None,
    ensures
        forall|i: int| k <= i < names.len() ==> names[i] != name,
    decreases names.len() - k,
{
    if k < names.len() {
        lemma_index_of_none(names, name, k + 1);
    }
}

/// Where name `i` is the first from `k` on that equals `name`, it is the
/// one that is found from `k` on.
pub proof fn lemma_index_of_hit(names: Seq<Seq<char>>, name: Seq<char>, i: int, k: int)
    requires
        0 <= k <= i < names.len() <= usize::MAX,
        names[i] == name,
        forall|j: int| k <= j < i ==> names[j] != name,
    ensures
        index_of(names, name, k) == Some(i as usize),
    decreases i - k,
{
    if k < i {
        lemma_index_of_hit(names, name, i, k + 1);
    }
}

/// Where no name equals `name`, none is found.
pub proof fn lemma_index_of_miss(names: Seq<Seq<char>>, name: Seq<char>, k: int)
    requires
        0 <= k,
        forall|j: int| 0 <= j < names.len() ==> names[j] != name,
    ensures
        index_of(names, name, k) is None,
    decreases names.len() - k,
{
    if k < names.len() {
        lemma_index_of_miss(names, name, k + 1);
    }
}

/// A name that is found stays where it is when another is added; the added
/// name is found.
pub proof fn lemma_index_of_push(names: Seq<Seq<char>>, added: Seq<char>, name: Seq<char>, k: int)
    requires
        0 <= k <= names.len(),
    ensures
        index_of(names, name, k) is Some ==> index_of(names.push(added), name, k) == index_of(
            names,
            name,
            k,
        ),
        index_of(names.push(added), added, k) is Some,
    decreases names.len() - k,
{
    let longer = names.push(added);
    if k < names.len() {
        assert(longer[k] == names[k]);
        lemma_index_of_push(names, added, name, k + 1);
    } else {
        assert(longer[k] == added);
    }
}

/// No name occurs twice.
pub open spec fn distinct(names: Seq<Seq<char>>) -> bool {
    forall|i: int, j: int| 0 <= i < j < names.len() ==> names[i] != names[j]
}

impl NamespaceView {
    /// The module names are distinct, and the module of every entry and of
    /// every import is among them.
    pub open spec fn wf(self) -> bool {
        &&& distinct(self.modules)
        &&& forall|i: int|
            0 <= i < self.entries.len() ==> index_of(
                self.modules,
                (#[trigger] self.entries[i]).module,
                0,
            ) is Some
        &&& forall|i: int|
            0 <= i < self.imports.len() ==> index_of(
                self.modules,
                (#[trigger] self.imports[i]).module,
                0,
            ) is Some
    }
}

/// Adding a module keeps the names distinct, makes the module known and
/// keeps every known module known.
pub proof fn lemma_with_module(modules: Seq<Seq<char>>, name: Seq<char>)
    requires
        distinct(modules),
    ensures
        distinct(with_module(modules, name)),
        index_of(with_module(modules, name), name, 0) is Some,
        forall|other: Seq<char>|
            index_of(modules, other, 0) is Some ==> index_of(with_module(modules, name), other, 0)
                is Some,
{
    lemma_index_of_push(modules, name, name, 0);
    assert forall|other: Seq<char>| index_of(modules, other, 0) is Some implies index_of(
        with_module(modules, name),
        other,
        0,
    ) is Some by {
        lemma_index_of_push(modules, name, other, 0);
    }
    if index_of(modules, name, 0) is None {
        lemma_index_of_none(modules, name, 0);
    }
}

/// One more declaration keeps a namespace well formed.
pub proof fn lemma_with_declaration_wf(ns: NamespaceView, module: Seq<char>, d: DeclarationView)
    requires
        ns.wf(),
    ensures
        with_declaration(ns, module, d).wf(),
{
    lemma_with_module(ns.modules, module);
    lemma_with_module(ns.modules, d.name);
}

/// The declarations of a source keep a namespace well formed.
pub proof fn lemma_with_declarations_wf(
    ns: NamespaceView,
    declarations: Seq<DeclarationView>,
    n: int,
)
    requires
        ns.wf(),
    ensures
        with_declarations(ns, declarations, n).wf(),
    decreases n,
{
    if n > 0 {
        lemma_with_declarations_wf(ns, declarations, n - 1);
        lemma_with_declaration_wf(
            with_declarations(ns, declarations, n - 1),
            module_at(declarations, n - 1),
            declarations[n - 1],
        );
    }
}

/// The namespace of any sources is well formed.
pub proof fn lemma_gathered_wf(trees: Seq<SyntaxTreeView>, n: int)
    ensures
        gathered(trees, n).wf(),
    decreases n,
{
    if n > 0 {
        lemma_gathered_wf(trees, n - 1);
        lemma_with_declarations_wf(
            gathered(trees, n - 1),
            trees[n - 1].declarations,
            trees[n - 1].declarations.len() as int,
        );
    }
}

/// Where `earlier` yields nothing, no name from `i` up to `j` equals name `j`.
pub proof fn lemma_earlier_none(names: Seq<Seq<char>>, j: int, i: int)
    requires
        0 <= i,
        earlier(names, j, i) is None,
    ensures
        forall|k: int| i <= k < j ==> names[k] != names[j],
    decreases j - i,
{
    if i < j {
        lemma_earlier_none(names, j, i + 1);
    }
}

/// What `earlier` yields lies between `i` and `j` and equals name `j`.
pub proof fn lemma_earlier_found(names: Seq<Seq<char>>, j: int, i: int)
    requires
        j < names.len() <= usize::MAX,
    ensures
        earlier(names, j, i) matches Some(k) ==> i <= k < j && names[k as int] == names[j],
    decreases j - i,
{
    if 0 <= i < j && names[i] != names[j] {
        lemma_earlier_found(names, j, i + 1);
    }
}

/// Where no duplicate is found from `j` on, no name from `j` on repeats an
/// earlier one.
pub proof fn lemma_no_duplicate(names: Seq<Seq<char>>, j: int)
    requires
        0 <= j,
        duplicate_from(names, j) is None,
    ensures
        forall|a: int, b: int| 0 <= a < b < names.len() && j <= b ==> names[a] != names[b],
    decreases names.len() - j,
{
    if j < names.len() {
        lemma_earlier_none(names, j, 0);
        lemma_no_duplicate(names, j + 1);
    }
}

/// A duplicate that is found is a pair of equal names, the earlier first.
pub proof fn lemma_duplicate_found(names: Seq<Seq<char>>, j: int)
    requires
        names.len() <= usize::MAX,
    ensures
        duplicate_from(names, j) matches Some((a, b)) ==> a < b < names.len() && j <= b
            && names[a as int] == names[b as int],
    decreases names.len() - j,
{
    if 0 <= j < names.len() {
        lemma_earlier_found(names, j, 0);
        if earlier(names, j, 0) is None {
            lemma_duplicate_found(names, j + 1);
        }
    }
}

/// The qualified names of the entries, in order.
pub open spec fn qualified_names(entries: Seq<EntryView>) -> Seq<Seq<char>> {
    Seq::new(entries.len(), |i: int| entries[i].qualified())
}

/// The index below `j` of the first name that equals name `j`, looking from
/// `i` on.
pub open spec fn earlier(names: Seq<Seq<char>>, j: int, i: int) -> Option<usize>
    decreases j - i,
{
    if i < 0 || i >= j {
        None
    } else if names[i] == names[j] {
        Some(i as usize)
    } else {
        earlier(names, j, i + 1)
    }
}

/// The first name from `j` on that repeats an earlier one, with the first
/// that it repeats before it.
pub open spec fn duplicate_from(names: Seq<Seq<char>>, j: int) -> Option<(usize, usize)>
    decreases names.len() - j,
{
    if j < 0 || j >= names.len() {
        None
    } else {
        match earlier(names, j, 0) {
            Some(i) => Some((i, j as usize)),
            None => duplicate_from(names, j + 1),
        }
    }
}

/// The first pair of equal names: the first name that repeats an earlier
/// one, and the first that it repeats.
pub open spec fn first_duplicate(names: Seq<Seq<char>>) -> Option<(usize, usize)> {
    duplicate_from(names, 0)
}

/// A defining declaration in the namespace: its module, its qualified name,
/// and where it stands: `index` among the declarations of source `source`.
#[derive(Debug)]
pub struct Entry {
    pub module: String,
    pub qualified: String,
    pub source: usize,
    pub index: usize,
}

/// The namespace under construction.
#[derive(Debug)]
pub struct Namespace {
    pub modules: Vec<String>,
    pub imports: Vec<Import>,
    pub entries: Vec<Entry>,
    pub docs: Vec<String>,
}

impl Entry {
    /// The entry stands for `v`, a declaration of `trees`.
    pub open spec fn models(&self, trees: Seq<SyntaxTree>, v: EntryView) -> bool {
        &&& self.source < trees.len()
        &&& self.index < trees[self.source as int].declarations@.len()
        &&& trees[self.source as int].declarations@[self.index as int]@ == v.declaration
        &&& self.module@ == v.module
        &&& self.qualified@ == v.qualified()
    }
}

impl Namespace {
    /// The namespace stands for `v`, gathered from `trees`.
    pub open spec fn models(&self, trees: Seq<SyntaxTree>, v: NamespaceView) -> bool {
        &&& views(self.modules@) == v.modules
        &&& views(self.imports@) == v.imports
        &&& views(self.docs@) == v.docs
        &&& self.entries@.len() == v.entries.len()
        &&& forall|i: int|
            0 <= i < self.entries@.len() ==> (#[trigger] self.entries@[i]).models(
                trees,
                v.entries[i],
            )
    }
}

/// The qualified name of `name` in module `module`.
pub fn qualify(module: &String, name: &String) -> (out: String)
    ensures
        out@ == qualified_name(module@, name@),
{
    if module.as_str().is_empty() {
        name.clone()
    } else {
        let mut out = module.clone();
        push_char(&mut out, '.');
        out.append(name.as_str());
        out
    }
}

/// The index of `name` among `names`.
pub fn position(names: &Vec<String>, name: &String) -> (r: Option<usize>)
    ensures
        r == index_of(views(names@), name@, 0),
        r matches Some(i) ==> i < names@.len() && names@[i as int]@ == name@,
{
    let mut i: usize = 0;
    while i < names.len()
        invariant
            i <= names@.len(),
            index_of(views(names@), name@, 0) == index_of(views(names@), name@, i as int),
        decreases names@.len() - i,
    {
        if same_text(names[i].as_str(), name.as_str()) {
            return Some(i);
        }
        i += 1;
    }
    None
}

/// Adds `name` to `modules` unless it is there.
fn add_module(modules: &mut Vec<String>, name: &String)
    ensures
        views(final(modules)@) == with_module(views(old(modules)@), name@),
{
    if position(modules, name).is_none() {
        proof {
            lemma_views_push(modules@, *name);
        }
        modules.push(name.clone());
    }
}

/// Adds `doc` to `docs` if there is one.
fn add_doc(docs: &mut Vec<String>, doc: &Option<String>)
    ensures
        views(final(docs)@) == with_doc(views(old(docs)@), opt_view(*doc)),
{
    match doc {
        Some(text) => {
            proof {
                lemma_views_push(docs@, *text);
            }
            docs.push(text.clone());
        },
        None => {},
    }
}

/// Gathers the declarations of all sources.
pub fn gather(trees: &Vec<SyntaxTree>) -> (ns: Namespace)
    ensures
        ns.models(trees@, namespace_of(views(trees@))),
{
    let mut ns = Namespace {
        modules: Vec::new(),
        imports: Vec::new(),
        entries: Vec::new(),
        docs: Vec::new(),
    };
    proof {
        lemma_views_empty::<String>();
        lemma_views_empty::<Import>();
    }
    let mut t: usize = 0;
    while t < trees.len()
        invariant
            t <= trees@.len(),
            ns.models(trees@, gathered(views(trees@), t as int)),
        decreases trees@.len() - t,
    {
        let tree = &trees[t];
        let ghost base = gathered(views(trees@), t as int);
        let ghost declarations = views(tree.declarations@);
        assert(views(trees@)[t as int] == tree@);
        let mut module = String::new();
        let mut d: usize = 0;
        while d < tree.declarations.len()
            invariant
                t < trees@.len(),
                tree == &trees@[t as int],
                declarations == views(tree.declarations@),
                d <= tree.declarations@.len(),
                module@ == module_at(declarations, d as int),
                ns.models(trees@, with_declarations(base, declarations, d as int)),
            decreases tree.declarations@.len() - d,
        {
            let declaration = &tree.declarations[d];
            let ghost before = with_declarations(base, declarations, d as int);
            assert(declarations[d as int] == declaration@);
            match declaration.kind {
                DeclKind::Module => {
                    add_module(&mut ns.modules, &declaration.name);
                    add_doc(&mut ns.docs, &declaration.doc);
                    module = declaration.name.clone();
                },
                DeclKind::Use => {
                    add_module(&mut ns.modules, &module);
                    add_doc(&mut ns.docs, &declaration.doc);
                    let import = Import {
                        module: module.clone(),
                        name: declaration.name.clone(),
                        location: declaration.location,
                    };
                    proof {
                        lemma_views_push(ns.imports@, import);
                    }
                    ns.imports.push(import);
                },
                _ => {
                    add_module(&mut ns.modules, &module);
                    let entry = Entry {
                        module: module.clone(),
                        qualified: qualify(&module, &declaration.name),
                        source: t,
                        index: d,
                    };
                    ns.entries.push(entry);
                },
            }
            d += 1;
        }
        add_doc(&mut ns.docs, &tree.trailing_doc);
        t += 1;
    }
    ns
}

impl Namespace {
    /// The qualified names of the entries, in order.
    pub open spec fn names(&self) -> Seq<Seq<char>> {
        Seq::new(self.entries@.len(), |i: int| self.entries@[i].qualified@)
    }

    /// An index of the qualified names of the entries.
    pub fn index(&self) -> (index: NameIndex)
        ensures
            index.names() == self.names(),
    {
        let mut names: Vec<String> = Vec::new();
        let mut k: usize = 0;
        while k < self.entries.len()
            invariant
                k <= self.entries@.len(),
                names@.len() == k,
                forall|i: int| 0 <= i < k ==> (#[trigger] names@[i])@ == self.entries@[i].qualified@,
            decreases self.entries@.len() - k,
        {
            names.push(self.entries[k].qualified.clone());
            k += 1;
        }
        assert(views(names@) =~= self.names());
        NameIndex::new(names)
    }
}

/// No name before the one that `index_of` yields equals `name`.
pub proof fn lemma_index_of_first(names: Seq<Seq<char>>, name: Seq<char>, k: int)
    requires
        0 <= k,
        names.len() <= usize::MAX,
    ensures
        index_of(names, name, k) matches Some(i) ==> forall|j: int| k <= j < i ==> names[j] != name,
    decreases names.len() - k,
{
    if k < names.len() && names[k] != name {
        lemma_index_of_first(names, name, k + 1);
    }
}

/// Where name `f` is the first from `i` on that equals name `j`, and comes
/// before it, it is the one that `earlier` yields.
pub proof fn lemma_earlier_hit(names: Seq<Seq<char>>, j: int, f: int, i: int)
    requires
        0 <= i <= f < j < names.len() <= usize::MAX,
        names[f] == names[j],
        forall|k: int| i <= k < f ==> names[k] != names[j],
    ensures
        earlier(names, j, i) == Some(f as usize),
    decreases f - i,
{
    if i < f {
        lemma_earlier_hit(names, j, f, i + 1);
    }
}

/// Where no name from `i` up to `j` equals name `j`, `earlier` yields none.
pub proof fn lemma_earlier_miss(names: Seq<Seq<char>>, j: int, i: int)
    requires
        0 <= i,
        forall|k: int| i <= k < j ==> names[k] != names[j],
    ensures
        earlier(names, j, i) is None,
    decreases j - i,
{
    if i < j {
        lemma_earlier_miss(names, j, i + 1);
    }
}

} // verus!
