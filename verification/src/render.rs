//! The renderer: from a document to its documentation in Markdown.
//!
//! After the documentation comments that belong to no definition come the
//! modules, in order, each with a heading and its definitions in
//! declaration order. The spec functions below say what is written for
//! each; `Document::to_text` is proved to write exactly that.

use vstd::prelude::*;
use vstd::string::StringExecFns;
use crate::model::{
    chain_linked, definition_linked, definitions_linked, fields_linked, function_linked,
    functions_linked, target_name, type_linked, Definition, DefinitionKind, DefinitionView,
    Document, DocumentView, Field, FieldView, Function, FunctionView, Module, Reference, Target,
    Type,
};
use crate::syntax::{opt_view, views};
use crate::text::push_char;

verus! {

/// The first `n` names of a type, each but the first behind a `<`.
pub open spec fn opened(definitions: Seq<DefinitionView>, chain: Seq<Reference>, n: int) -> Seq<
    char,
>
    decreases n,
{
    if n <= 0 {
        Seq::empty()
    } else if n == 1 {
        target_name(definitions, chain[0].target)
    } else {
        opened(definitions, chain, n - 1).push('<') + target_name(definitions, chain[n - 1].target)
    }
}

/// `n` closing angle brackets.
pub open spec fn closers(n: int) -> Seq<char>
    decreases n,
{
    if n <= 0 {
        Seq::empty()
    } else {
        closers(n - 1).push('>')
    }
}

/// A type as it is written: `list<pointer<point>>`.
pub open spec fn type_text(definitions: Seq<DefinitionView>, chain: Seq<Reference>) -> Seq<char> {
    opened(definitions, chain, chain.len() as int) + closers(chain.len() - 1)
}

/// A field as an item of a list: its name and, if it has one, its type.
pub open spec fn field_text(definitions: Seq<DefinitionView>, f: FieldView) -> Seq<char> {
    match f.ty {
        Some(chain) => "- `"@ + f.name + ": "@ + type_text(definitions, chain) + "`\n"@,
        None => "- `"@ + f.name + "`\n"@,
    }
}

/// The first `n` fields, one item each.
pub open spec fn fields_text(
    definitions: Seq<DefinitionView>,
    fields: Seq<FieldView>,
    n: int,
) -> Seq<
    char,
>
    decreases n,
{
    if n <= 0 {
        Seq::empty()
    } else {
        fields_text(definitions, fields, n - 1) + field_text(definitions, fields[n - 1])
    }
}

/// The fields as a list with a blank line behind it; nothing where there
/// are none.
pub open spec fn fields_block(definitions: Seq<DefinitionView>, fields: Seq<FieldView>) -> Seq<
    char,
> {
    if fields.len() == 0 {
        Seq::empty()
    } else {
        fields_text(definitions, fields, fields.len() as int) + "\n"@
    }
}

/// A documentation comment, as it was written, and a blank line; nothing
/// where there is none.
pub open spec fn doc_text(doc: Option<Seq<char>>) -> Seq<char> {
    match doc {
        Some(text) => text + "\n\n"@,
        None => Seq::empty(),
    }
}

/// A type that may be missing, behind `label`; nothing where it is missing.
pub open spec fn labelled_type(
    definitions: Seq<DefinitionView>,
    label: Seq<char>,
    ty: Option<Seq<Reference>>,
) -> Seq<char> {
    match ty {
        Some(chain) => label + "`"@ + type_text(definitions, chain) + "`\n\n"@,
        None => Seq::empty(),
    }
}

/// The heading of a function of the interface `owner`, and its
/// documentation.
pub open spec fn function_head(owner: Seq<char>, f: FunctionView) -> Seq<char> {
    "### "@ + owner + "."@ + f.name + "\n\n"@ + doc_text(f.doc)
}

/// A function of the interface `owner`: a heading, its documentation, its
/// parameters and its result.
pub open spec fn function_text(
    definitions: Seq<DefinitionView>,
    owner: Seq<char>,
    f: FunctionView,
) -> Seq<
    char,
> {
    function_head(owner, f) + fields_block(definitions, f.params) + labelled_type(
        definitions,
        "Returns "@,
        f.result,
    )
}

/// The first `n` functions of the interface `owner`.
pub open spec fn functions_text(
    definitions: Seq<DefinitionView>,
    owner: Seq<char>,
    functions: Seq<FunctionView>,
    n: int,
) -> Seq<char>
    decreases n,
{
    if n <= 0 {
        Seq::empty()
    } else {
        functions_text(definitions, owner, functions, n - 1) + function_text(
            definitions,
            owner,
            functions[n - 1],
        )
    }
}

/// What a kind of definition is called.
pub open spec fn kind_text(kind: DefinitionKind) -> Seq<char> {
    match kind {
        DefinitionKind::TypeAlias => "Type alias"@,
        DefinitionKind::Record => "Record"@,
        DefinitionKind::Variant => "Variant"@,
        DefinitionKind::Interface => "Interface"@,
    }
}

/// The heading of a definition, with its qualified name, then its kind and
/// its documentation.
pub open spec fn definition_head(d: DefinitionView) -> Seq<char> {
    "## "@ + d.qualified + "\n\n"@ + kind_text(d.kind) + "\n\n"@ + doc_text(d.doc)
}

/// A definition: a heading with its qualified name, its kind, its
/// documentation, its target, its members and its functions.
pub open spec fn definition_text(definitions: Seq<DefinitionView>, d: DefinitionView) -> Seq<char> {
    definition_head(d) + labelled_type(definitions, "Alias of "@, d.target) + fields_block(
        definitions,
        d.members,
    ) + functions_text(definitions, d.qualified, d.functions, d.functions.len() as int)
}

/// Those of the first `n` definitions that belong to the module at index
/// `module`.
pub open spec fn module_definitions_text(
    definitions: Seq<DefinitionView>,
    module: usize,
    n: int,
) -> Seq<
    char,
>
    decreases n,
{
    if n <= 0 {
        Seq::empty()
    } else if definitions[n - 1].module == module {
        module_definitions_text(definitions, module, n - 1) + definition_text(
            definitions,
            definitions[n - 1],
        )
    } else {
        module_definitions_text(definitions, module, n - 1)
    }
}

/// The heading of a module.
pub open spec fn module_heading(name: Seq<char>) -> Seq<char> {
    if name.len() == 0 {
        "# Module\n\n"@
    } else {
        "# Module "@ + name + "\n\n"@
    }
}

/// The first `n` modules, each with its heading and its definitions.
pub open spec fn modules_text(document: DocumentView, n: int) -> Seq<char>
    decreases n,
{
    if n <= 0 {
        Seq::empty()
    } else {
        modules_text(document, n - 1) + module_heading(document.modules[n - 1].name)
            + module_definitions_text(
            document.definitions,
            (n - 1) as usize,
            document.definitions.len() as int,
        )
    }
}

/// The first `n` documentation comments, each with a blank line behind it.
pub open spec fn docs_text(docs: Seq<Seq<char>>, n: int) -> Seq<char>
    decreases n,
{
    if n <= 0 {
        Seq::empty()
    } else {
        docs_text(docs, n - 1) + docs[n - 1] + "\n\n"@
    }
}

/// The documentation of a document.
pub open spec fn rendering(document: DocumentView) -> Seq<char> {
    docs_text(document.docs, document.docs.len() as int) + modules_text(
        document,
        document.modules.len() as int,
    )
}

fn write_name(out: &mut String, definitions: &Vec<Definition>, target: Target)
    requires
        target matches Target::Definition(i) ==> i < definitions@.len(),
    ensures
        final(out)@ == old(out)@ + target_name(views(definitions@), target),
{
    match target {
        Target::Primitive(p) => out.append(p.as_str()),
        Target::Constructor(c) => out.append(c.as_str()),
        Target::Definition(i) => out.append(definitions[i].qualified.as_str()),
    }
}

fn write_type(out: &mut String, definitions: &Vec<Definition>, ty: &Type)
    requires
        chain_linked(ty@, definitions@.len() as int),
    ensures
        final(out)@ == old(out)@ + type_text(views(definitions@), ty@),
{
    let n = ty.chain.len();
    let mut k: usize = 0;
    assert(out@ =~= old(out)@ + opened(views(definitions@), ty@, 0));
    while k < n
        invariant
            n == ty@.len(),
            k <= n,
            chain_linked(ty@, definitions@.len() as int),
            out@ == old(out)@ + opened(views(definitions@), ty@, k as int),
        decreases n - k,
    {
        if k > 0 {
            push_char(out, '<');
        }
        write_name(out, definitions, ty.chain[k].target);
        k += 1;
        assert(out@ =~= old(out)@ + opened(views(definitions@), ty@, k as int));
    }
    let mut c: usize = 1;
    assert(out@ =~= old(out)@ + opened(views(definitions@), ty@, n as int) + closers(0));
    while c < n
        invariant
            n == ty@.len(),
            1 <= c,
            c == 1 || c <= n,
            out@ == old(out)@ + opened(views(definitions@), ty@, n as int) + closers(c - 1),
        decreases n - c,
    {
        push_char(out, '>');
        c += 1;
        assert(out@ =~= old(out)@ + opened(views(definitions@), ty@, n as int) + closers(c - 1));
    }
    assert(closers(c - 1) == closers(n - 1));
    assert(out@ =~= old(out)@ + type_text(views(definitions@), ty@));
}

fn write_field(out: &mut String, definitions: &Vec<Definition>, f: &Field)
    requires
        type_linked(f@.ty, definitions@.len() as int),
    ensures
        final(out)@ == old(out)@ + field_text(views(definitions@), f@),
{
    out.append("- `");
    out.append(f.name.as_str());
    match &f.ty {
        Some(ty) => {
            out.append(": ");
            write_type(out, definitions, ty);
        },
        None => {},
    }
    out.append("`\n");
    assert(out@ =~= old(out)@ + field_text(views(definitions@), f@));
}

fn write_fields(out: &mut String, definitions: &Vec<Definition>, fields: &Vec<Field>)
    requires
        fields_linked(views(fields@), definitions@.len() as int),
    ensures
        final(out)@ == old(out)@ + fields_text(
            views(definitions@),
            views(fields@),
            fields@.len() as int,
        ),
{
    let mut k: usize = 0;
    assert(out@ =~= old(out)@ + fields_text(views(definitions@), views(fields@), 0));
    while k < fields.len()
        invariant
            k <= fields@.len(),
            fields_linked(views(fields@), definitions@.len() as int),
            out@ == old(out)@ + fields_text(views(definitions@), views(fields@), k as int),
        decreases fields@.len() - k,
    {
        assert(views(fields@)[k as int] == fields@[k as int]@);
        write_field(out, definitions, &fields[k]);
        k += 1;
        assert(out@ =~= old(out)@ + fields_text(views(definitions@), views(fields@), k as int));
    }
}

fn write_fields_block(out: &mut String, definitions: &Vec<Definition>, fields: &Vec<Field>)
    requires
        fields_linked(views(fields@), definitions@.len() as int),
    ensures
        final(out)@ == old(out)@ + fields_block(views(definitions@), views(fields@)),
{
    if fields.len() > 0 {
        write_fields(out, definitions, fields);
        out.append("\n");
    }
    assert(out@ =~= old(out)@ + fields_block(views(definitions@), views(fields@)));
}

fn write_doc(out: &mut String, doc: &Option<String>)
    ensures
        final(out)@ == old(out)@ + doc_text(opt_view(*doc)),
{
    match doc {
        Some(text) => {
            out.append(text.as_str());
            out.append("\n\n");
            assert(out@ =~= old(out)@ + doc_text(opt_view(*doc)));
        },
        None => {
            assert(out@ =~= old(out)@ + doc_text(opt_view(*doc)));
        },
    }
}

fn write_labelled_type(
    out: &mut String,
    definitions: &Vec<Definition>,
    label: &str,
    ty: &Option<Type>,
)
    requires
        type_linked(opt_view(*ty), definitions@.len() as int),
    ensures
        final(out)@ == old(out)@ + labelled_type(views(definitions@), label@, opt_view(*ty)),
{
    match ty {
        Some(chain) => {
            out.append(label);
            out.append("`");
            write_type(out, definitions, chain);
            out.append("`\n\n");
            assert(out@ =~= old(out)@ + labelled_type(
                views(definitions@),
                label@,
                opt_view(*ty),
            ));
        },
        None => {
            assert(out@ =~= old(out)@ + labelled_type(
                views(definitions@),
                label@,
                opt_view(*ty),
            ));
        },
    }
}

fn write_function_head(out: &mut String, owner: &String, f: &Function)
    ensures
        final(out)@ == old(out)@ + function_head(owner@, f@),
{
    out.append("### ");
    out.append(owner.as_str());
    out.append(".");
    out.append(f.name.as_str());
    out.append("\n\n");
    write_doc(out, &f.doc);
    assert(out@ =~= old(out)@ + function_head(owner@, f@));
}

fn write_function(out: &mut String, definitions: &Vec<Definition>, owner: &String, f: &Function)
    requires
        function_linked(f@, definitions@.len() as int),
    ensures
        final(out)@ == old(out)@ + function_text(views(definitions@), owner@, f@),
{
    write_function_head(out, owner, f);
    write_fields_block(out, definitions, &f.params);
    write_labelled_type(out, definitions, "Returns ", &f.result);
    assert(out@ =~= old(out)@ + function_text(views(definitions@), owner@, f@));
}

fn write_functions(
    out: &mut String,
    definitions: &Vec<Definition>,
    owner: &String,
    functions: &Vec<Function>,
)
    requires
        functions_linked(views(functions@), definitions@.len() as int),
    ensures
        final(out)@ == old(out)@ + functions_text(
            views(definitions@),
            owner@,
            views(functions@),
            functions@.len() as int,
        ),
{
    let mut k: usize = 0;
    assert(out@ =~= old(out)@ + functions_text(views(definitions@), owner@, views(functions@), 0));
    while k < functions.len()
        invariant
            k <= functions@.len(),
            functions_linked(views(functions@), definitions@.len() as int),
            out@ == old(out)@ + functions_text(
                views(definitions@),
                owner@,
                views(functions@),
                k as int,
            ),
        decreases functions@.len() - k,
    {
        assert(views(functions@)[k as int] == functions@[k as int]@);
        write_function(out, definitions, owner, &functions[k]);
        k += 1;
        assert(out@ =~= old(out)@ + functions_text(
            views(definitions@),
            owner@,
            views(functions@),
            k as int,
        ));
    }
}

/// What a kind of definition is called.
fn kind_label(kind: DefinitionKind) -> (s: &'static str)
    ensures
        s@ == kind_text(kind),
{
    match kind {
        DefinitionKind::TypeAlias => "Type alias",
        DefinitionKind::Record => "Record",
        DefinitionKind::Variant => "Variant",
        DefinitionKind::Interface => "Interface",
    }
}

fn write_definition_head(out: &mut String, d: &Definition)
    ensures
        final(out)@ == old(out)@ + definition_head(d@),
{
    out.append("## ");
    out.append(d.qualified.as_str());
    out.append("\n\n");
    out.append(kind_label(d.kind));
    out.append("\n\n");
    write_doc(out, &d.doc);
    assert(out@ =~= old(out)@ + definition_head(d@));
}

fn write_definition(out: &mut String, definitions: &Vec<Definition>, d: &Definition)
    requires
        definition_linked(d@, definitions@.len() as int),
    ensures
        final(out)@ == old(out)@ + definition_text(views(definitions@), d@),
{
    write_definition_head(out, d);
    write_labelled_type(out, definitions, "Alias of ", &d.target);
    write_fields_block(out, definitions, &d.members);
    write_functions(out, definitions, &d.qualified, &d.functions);
    assert(out@ =~= old(out)@ + definition_text(views(definitions@), d@));
}

fn write_module(out: &mut String, definitions: &Vec<Definition>, module: &Module, index: usize)
    requires
        definitions_linked(views(definitions@), definitions@.len() as int),
    ensures
        final(out)@ == old(out)@ + module_heading(module@.name) + module_definitions_text(
            views(definitions@),
            index,
            definitions@.len() as int,
        ),
{
    if module.name.as_str().is_empty() {
        out.append("# Module\n\n");
    } else {
        out.append("# Module ");
        out.append(module.name.as_str());
        out.append("\n\n");
    }
    assert(out@ =~= old(out)@ + module_heading(module@.name) + module_definitions_text(
        views(definitions@),
        index,
        0,
    ));
    let mut k: usize = 0;
    while k < definitions.len()
        invariant
            k <= definitions@.len(),
            definitions_linked(views(definitions@), definitions@.len() as int),
            out@ == old(out)@ + module_heading(module@.name) + module_definitions_text(
                views(definitions@),
                index,
                k as int,
            ),
        decreases definitions@.len() - k,
    {
        assert(views(definitions@)[k as int] == definitions@[k as int]@);
        if definitions[k].module == index {
            write_definition(out, definitions, &definitions[k]);
        }
        k += 1;
        assert(out@ =~= old(out)@ + module_heading(module@.name) + module_definitions_text(
            views(definitions@),
            index,
            k as int,
        ));
    }
}

impl Document {
    /// The documentation of the document, in Markdown.
    pub fn to_text(&self) -> (text: String)
        ensures
            text@ == rendering(self@),
    {
        self.well_formed();
        let docs = self.docs();
        let modules = self.modules();
        let definitions = self.definitions();
        let mut out = String::new();
        let mut k: usize = 0;
        assert(out@ =~= docs_text(self@.docs, 0));
        while k < docs.len()
            invariant
                k <= docs@.len(),
                views(docs@) == self@.docs,
                out@ == docs_text(self@.docs, k as int),
            decreases docs@.len() - k,
        {
            assert(views(docs@)[k as int] == docs@[k as int]@);
            out.append(docs[k].as_str());
            out.append("\n\n");
            k += 1;
            assert(out@ =~= docs_text(self@.docs, k as int));
        }
        let ghost head = out@;
        let mut m: usize = 0;
        assert(out@ =~= head + modules_text(self@, 0));
        while m < modules.len()
            invariant
                m <= modules@.len(),
                views(modules@) == self@.modules,
                views(definitions@) == self@.definitions,
                self@.wf(),
                out@ == head + modules_text(self@, m as int),
            decreases modules@.len() - m,
        {
            assert(views(modules@)[m as int] == modules@[m as int]@);
            write_module(&mut out, definitions, &modules[m], m);
            m += 1;
            assert(out@ =~= head + modules_text(self@, m as int));
        }
        out
    }
}

} // verus!
