//! Declarations of macros, libraries, imports and exports.
use crate::error::{CompileError, Problem};
use crate::expand::forms::{
    as_proper_list, clone_expr, expand_error, is_symbol, is_the_symbol, list_items, proper_items,
    required_symbol, symbol_name, symbol_of, symbol_value,
};
use crate::frontend::ast::{forms_of, lemma_list_form, Expr, ExprKind, Form, FormKind};
use crate::names::{name_texts, Duplicate, NameMap, NameSet};
use crate::text::same;
use vstd::prelude::*;

verus! {

broadcast use vstd::seq_lib::group_seq_properties;

/// A clause of a macro: what a use looks like and what it stands for.
pub struct SyntaxRule {
    pub pattern: Expr,
    pub template: Expr,
}

/// A macro: the names that stand for themselves in patterns, its clauses, and what the names of
/// the place of its definition are called.
pub struct SyntaxRules {
    pub literals: NameSet,
    pub rules: Vec<SyntaxRule>,
    pub definition_values: NameMap<String>,
}

/// The meaning of a macro.
pub struct Transformer {
    pub literals: Set<Seq<char>>,
    pub rules: Seq<(Form, Form)>,
    pub values: Map<Seq<char>, Seq<char>>,
}

/// The patterns and templates of a row of clauses.
pub open spec fn rule_forms(rules: Seq<SyntaxRule>) -> Seq<(Form, Form)> {
    rules.map_values(|rule: SyntaxRule| (rule.pattern@, rule.template@))
}

impl View for SyntaxRules {
    type V = Transformer;

    open spec fn view(&self) -> Transformer {
        Transformer {
            literals: self.literals@,
            rules: rule_forms(self.rules@),
            values: self.definition_values@,
        }
    }
}

impl Duplicate for SyntaxRules {
    fn duplicate(&self) -> (copy: Self) {
        let mut rules: Vec<SyntaxRule> = Vec::new();
        let mut index: usize = 0;
        while index < self.rules.len()
            invariant
                index <= self.rules@.len(),
                rule_forms(rules@) == rule_forms(self.rules@).subrange(0, index as int),
            decreases self.rules@.len() - index,
        {
            let ghost done = rule_forms(rules@);
            let pattern = clone_expr(&self.rules[index].pattern);
            let template = clone_expr(&self.rules[index].template);
            rules.push(SyntaxRule { pattern, template });
            assert(rule_forms(rules@) =~= done.push((pattern@, template@)));
            assert(rule_forms(rules@) =~= rule_forms(self.rules@).subrange(0, index + 1));
            index = index + 1;
        }
        assert(rule_forms(rules@) =~= rule_forms(self.rules@));
        SyntaxRules { literals: self.literals.duplicate(), rules, definition_values: self.definition_values.duplicate_map() }
    }
}

/// What a library hands out under a name: something that it calls by another name.
pub struct ExportSpec {
    pub external: String,
    pub internal: String,
}

/// The outer and the inner name of each of a row of exports.
pub open spec fn export_names(exports: Seq<ExportSpec>) -> Seq<(Seq<char>, Seq<char>)> {
    exports.map_values(|export: ExportSpec| (export.external@, export.internal@))
}

/// What is imported: all that a library exports, or a part of it, or that under other names.
pub enum ImportSet {
    Library(Vec<String>),
    Only { set: Box<ImportSet>, names: Vec<String> },
    Except { set: Box<ImportSet>, names: Vec<String> },
    Prefix { set: Box<ImportSet>, prefix: String },
    Rename { set: Box<ImportSet>, renames: Vec<(String, String)> },
}

/// The meaning of an import set.
pub enum Import {
    Library(Seq<Seq<char>>),
    Only { set: Box<Import>, names: Seq<Seq<char>> },
    Except { set: Box<Import>, names: Seq<Seq<char>> },
    Prefix { set: Box<Import>, prefix: Seq<char> },
    Rename { set: Box<Import>, renames: Seq<(Seq<char>, Seq<char>)> },
}

/// The characters of a row of pairs of names.
pub open spec fn pair_texts(pairs: Seq<(String, String)>) -> Seq<(Seq<char>, Seq<char>)> {
    pairs.map_values(|pair: (String, String)| (pair.0@, pair.1@))
}

/// The meaning of an import set.
pub open spec fn import_of(import: ImportSet) -> Import
    decreases import,
{
    match import {
        ImportSet::Library(name) => Import::Library(name_texts(name@)),
        ImportSet::Only { set, names } => Import::Only {
            set: Box::new(import_of(*set)),
            names: name_texts(names@),
        },
        ImportSet::Except { set, names } => Import::Except {
            set: Box::new(import_of(*set)),
            names: name_texts(names@),
        },
        ImportSet::Prefix { set, prefix } => Import::Prefix { set: Box::new(import_of(*set)), prefix: prefix@ },
        ImportSet::Rename { set, renames } => Import::Rename {
            set: Box::new(import_of(*set)),
            renames: pair_texts(renames@),
        },
    }
}

impl View for ImportSet {
    type V = Import;

    open spec fn view(&self) -> Import {
        import_of(*self)
    }
}

/// The meaning of a row of import sets.
pub open spec fn imports_of(imports: Seq<ImportSet>) -> Seq<Import> {
    imports.map_values(|import: ImportSet| import_of(import))
}

/// The items of a list without tail that starts with `keyword`.
pub open spec fn keyword_items(form: Form, keyword: Seq<char>) -> Option<Seq<Form>> {
    match proper_items(form) {
        Some(items) => if items.len() > 0 && is_the_symbol(items[0], keyword) { Some(items) } else { None },
        None => None,
    }
}

/// The items of a list without tail that starts with `keyword`.
fn keyword_list<'a>(form: &'a Expr, keyword: &str) -> (items: Option<&'a Vec<Expr>>)
    ensures
        match items {
            Some(items) => keyword_items(form@, keyword@) == Some(forms_of(items@)) && items@.len() > 0
                && form.kind == (ExprKind::List { items: *items, tail: None }),
            None => keyword_items(form@, keyword@) is None,
        },
{
    match as_proper_list(form) {
        Some(items) => {
            if items.len() > 0 {
                assert(forms_of(items@)[0] == items@[0]@);
                if is_symbol(&items[0], keyword) {
                    return Some(items);
                }
            }
            None
        },
        None => None,
    }
}

/// The names that symbols from one on are, behind the names `found`.
pub open spec fn identifiers(items: Seq<Form>, index: nat, context: Seq<char>, found: Seq<Seq<char>>) -> Result<
    Seq<Seq<char>>,
    Problem,
>
    decreases items.len() - index,
{
    if index >= items.len() {
        Ok(found)
    } else {
        match required_symbol(items[index as int], context) {
            Err(problem) => Err(problem),
            Ok(name) => identifiers(items, index + 1, context, found.push(name)),
        }
    }
}

/// The names that the symbols from `start` on are.
pub fn parse_identifier_list(items: &Vec<Expr>, start: usize, context: &str) -> (result: Result<Vec<String>, CompileError>)
    requires
        start <= items@.len(),
    ensures
        match result {
            Ok(names) => identifiers(forms_of(items@), start as nat, context@, Seq::empty()) == Ok::<
                Seq<Seq<char>>,
                Problem,
            >(name_texts(names@)),
            Err(error) => identifiers(forms_of(items@), start as nat, context@, Seq::empty()) == Err::<
                Seq<Seq<char>>,
                Problem,
            >(error@),
        },
{
    let mut names: Vec<String> = Vec::new();
    let mut index: usize = start;
    assert(name_texts(names@) =~= Seq::<Seq<char>>::empty());
    while index < items.len()
        invariant
            index <= items@.len(),
            identifiers(forms_of(items@), start as nat, context@, Seq::empty()) == identifiers(
                forms_of(items@),
                index as nat,
                context@,
                name_texts(names@),
            ),
        decreases items@.len() - index,
    {
        assert(forms_of(items@)[index as int] == items@[index as int]@);
        let name = symbol_name(&items[index], context)?;
        let ghost found = name_texts(names@);
        names.push(name);
        assert(name_texts(names@) =~= found.push(name@));
        index = index + 1;
    }
    Ok(names)
}

/// The parts of the name of a library.
pub open spec fn library_name_of(form: Form) -> Result<Seq<Seq<char>>, Problem> {
    match proper_items(form) {
        None => Err(Problem::Expand("library names must be proper lists of identifiers"@)),
        Some(items) => identifiers(items, 0, "library name"@, Seq::empty()),
    }
}

fn parse_library_name_expr(expr: &Expr) -> (result: Result<Vec<String>, CompileError>)
    ensures
        match result {
            Ok(names) => library_name_of(expr@) == Ok::<Seq<Seq<char>>, Problem>(name_texts(names@)),
            Err(error) => library_name_of(expr@) == Err::<Seq<Seq<char>>, Problem>(error@),
        },
{
    match as_proper_list(expr) {
        None => expand_error("library names must be proper lists of identifiers"),
        Some(items) => parse_identifier_list(items, 0, "library name"),
    }
}

/// The old and the new name of a rename clause.
pub open spec fn rename_pair(form: Form) -> Result<(Seq<char>, Seq<char>), Problem> {
    match proper_items(form) {
        Some(items) => if items.len() != 2 {
            Err(Problem::Expand("rename entries must be two-item lists"@))
        } else {
            match required_symbol(items[0], "rename source"@) {
                Err(problem) => Err(problem),
                Ok(source) => match required_symbol(items[1], "rename target"@) {
                    Err(problem) => Err(problem),
                    Ok(target) => Ok((source, target)),
                },
            }
        },
        None => Err(Problem::Expand("rename entries must be two-item lists"@)),
    }
}

fn parse_rename_pair(expr: &Expr) -> (result: Result<(String, String), CompileError>)
    ensures
        match result {
            Ok(pair) => rename_pair(expr@) == Ok::<(Seq<char>, Seq<char>), Problem>((pair.0@, pair.1@)),
            Err(error) => rename_pair(expr@) == Err::<(Seq<char>, Seq<char>), Problem>(error@),
        },
{
    if let Some(items) = as_proper_list(expr) {
        if items.len() == 2 {
            assert(forms_of(items@)[0] == items@[0]@);
            assert(forms_of(items@)[1] == items@[1]@);
            let source = symbol_name(&items[0], "rename source")?;
            let target = symbol_name(&items[1], "rename target")?;
            return Ok((source, target));
        }
    }
    expand_error("rename entries must be two-item lists")
}

/// The rename clauses from one on, behind those found.
pub open spec fn rename_pairs(items: Seq<Form>, index: nat, found: Seq<(Seq<char>, Seq<char>)>) -> Result<
    Seq<(Seq<char>, Seq<char>)>,
    Problem,
>
    decreases items.len() - index,
{
    if index >= items.len() {
        Ok(found)
    } else {
        match rename_pair(items[index as int]) {
            Err(problem) => Err(problem),
            Ok(pair) => rename_pairs(items, index + 1, found.push(pair)),
        }
    }
}

fn parse_rename_pairs(items: &Vec<Expr>, start: usize) -> (result: Result<Vec<(String, String)>, CompileError>)
    requires
        start <= items@.len(),
    ensures
        match result {
            Ok(pairs) => rename_pairs(forms_of(items@), start as nat, Seq::empty()) == Ok::<
                Seq<(Seq<char>, Seq<char>)>,
                Problem,
            >(pair_texts(pairs@)),
            Err(error) => rename_pairs(forms_of(items@), start as nat, Seq::empty()) == Err::<
                Seq<(Seq<char>, Seq<char>)>,
                Problem,
            >(error@),
        },
{
    let mut pairs: Vec<(String, String)> = Vec::new();
    let mut index: usize = start;
    assert(pair_texts(pairs@) =~= Seq::<(Seq<char>, Seq<char>)>::empty());
    while index < items.len()
        invariant
            index <= items@.len(),
            rename_pairs(forms_of(items@), start as nat, Seq::empty()) == rename_pairs(
                forms_of(items@),
                index as nat,
                pair_texts(pairs@),
            ),
        decreases items@.len() - index,
    {
        assert(forms_of(items@)[index as int] == items@[index as int]@);
        let pair = parse_rename_pair(&items[index])?;
        let ghost found = pair_texts(pairs@);
        pairs.push(pair);
        assert(pair_texts(pairs@) =~= found.push((pair.0@, pair.1@)));
        index = index + 1;
    }
    Ok(pairs)
}

/// What an import set says.
pub open spec fn import_set_of(form: Form) -> Result<Import, Problem>
    decreases form,
{
    match form.kind {
        FormKind::List { items, tail: None } => if items.len() == 0 {
            Err(Problem::Expand("import set may not be empty"@))
        } else {
            let keyword = symbol_of(items[0]);
            if keyword == Some("only"@) {
                if items.len() < 3 {
                    Err(Problem::Expand("only import set requires a base set and at least one identifier"@))
                } else {
                    match import_set_of(items[1]) {
                        Err(problem) => Err(problem),
                        Ok(set) => match identifiers(items, 2, "only import set identifiers"@, Seq::empty()) {
                            Err(problem) => Err(problem),
                            Ok(names) => Ok(Import::Only { set: Box::new(set), names }),
                        },
                    }
                }
            } else if keyword == Some("except"@) {
                if items.len() < 3 {
                    Err(Problem::Expand("except import set requires a base set and at least one identifier"@))
                } else {
                    match import_set_of(items[1]) {
                        Err(problem) => Err(problem),
                        Ok(set) => match identifiers(items, 2, "except import set identifiers"@, Seq::empty()) {
                            Err(problem) => Err(problem),
                            Ok(names) => Ok(Import::Except { set: Box::new(set), names }),
                        },
                    }
                }
            } else if keyword == Some("prefix"@) {
                if items.len() != 3 {
                    Err(Problem::Expand("prefix import set requires a base set and a prefix identifier"@))
                } else {
                    match import_set_of(items[1]) {
                        Err(problem) => Err(problem),
                        Ok(set) => match required_symbol(items[2], "prefix import set prefix"@) {
                            Err(problem) => Err(problem),
                            Ok(prefix) => Ok(Import::Prefix { set: Box::new(set), prefix }),
                        },
                    }
                }
            } else if keyword == Some("rename"@) {
                if items.len() < 3 {
                    Err(Problem::Expand("rename import set requires a base set and at least one rename clause"@))
                } else {
                    match import_set_of(items[1]) {
                        Err(problem) => Err(problem),
                        Ok(set) => match rename_pairs(items, 2, Seq::empty()) {
                            Err(problem) => Err(problem),
                            Ok(renames) => Ok(Import::Rename { set: Box::new(set), renames }),
                        },
                    }
                }
            } else {
                match library_name_of(form) {
                    Err(problem) => Err(problem),
                    Ok(name) => Ok(Import::Library(name)),
                }
            }
        },
        _ => Err(Problem::Expand("import entries must be library names or import sets"@)),
    }
}

/// What an import set says.
pub fn parse_import_set(expr: &Expr) -> (result: Result<ImportSet, CompileError>)
    ensures
        match result {
            Ok(set) => import_set_of(expr@) == Ok::<Import, Problem>(set@),
            Err(error) => import_set_of(expr@) == Err::<Import, Problem>(error@),
        },
    decreases *expr,
{
    proof {
        lemma_list_form(*expr);
    }
    if let ExprKind::List { items, tail: None } = &expr.kind {
        if items.len() == 0 {
            return expand_error("import set may not be empty");
        }
        assert(forms_of(items@)[0] == items@[0]@);
        if let Some(keyword) = symbol_value(&items[0]) {
            if same(keyword, "only") {
                if items.len() < 3 {
                    return expand_error("only import set requires a base set and at least one identifier");
                }
                assert(forms_of(items@)[1] == items@[1]@);
                let set = Box::new(parse_import_set(&items[1])?);
                let names = parse_identifier_list(items, 2, "only import set identifiers")?;
                return Ok(ImportSet::Only { set, names });
            }
            if same(keyword, "except") {
                if items.len() < 3 {
                    return expand_error("except import set requires a base set and at least one identifier");
                }
                assert(forms_of(items@)[1] == items@[1]@);
                let set = Box::new(parse_import_set(&items[1])?);
                let names = parse_identifier_list(items, 2, "except import set identifiers")?;
                return Ok(ImportSet::Except { set, names });
            }
            if same(keyword, "prefix") {
                if items.len() != 3 {
                    return expand_error("prefix import set requires a base set and a prefix identifier");
                }
                assert(forms_of(items@)[1] == items@[1]@);
                assert(forms_of(items@)[2] == items@[2]@);
                let set = Box::new(parse_import_set(&items[1])?);
                let prefix = symbol_name(&items[2], "prefix import set prefix")?;
                return Ok(ImportSet::Prefix { set, prefix });
            }
            if same(keyword, "rename") {
                if items.len() < 3 {
                    return expand_error("rename import set requires a base set and at least one rename clause");
                }
                assert(forms_of(items@)[1] == items@[1]@);
                let set = Box::new(parse_import_set(&items[1])?);
                let renames = parse_rename_pairs(items, 2)?;
                return Ok(ImportSet::Rename { set, renames });
            }
        }
        let name = parse_library_name_expr(expr)?;
        return Ok(ImportSet::Library(name));
    }
    expand_error("import entries must be library names or import sets")
}

/// The import sets from one on, behind those found.
pub open spec fn import_sets(items: Seq<Form>, index: nat, found: Seq<Import>) -> Result<Seq<Import>, Problem>
    decreases items.len() - index,
{
    if index >= items.len() {
        Ok(found)
    } else {
        match import_set_of(items[index as int]) {
            Err(problem) => Err(problem),
            Ok(import) => import_sets(items, index + 1, found.push(import)),
        }
    }
}

/// The import sets of an import declaration.
#[verifier::opaque]
pub open spec fn import_declaration(form: Form) -> Result<Option<Seq<Import>>, Problem> {
    match keyword_items(form, "import"@) {
        None => Ok(None),
        Some(items) => match import_sets(items, 1, Seq::empty()) {
            Err(problem) => Err(problem),
            Ok(imports) => Ok(Some(imports)),
        },
    }
}

/// The import sets of an import declaration.
pub fn parse_import(form: &Expr) -> (result: Result<Option<Vec<ImportSet>>, CompileError>)
    ensures
        match result {
            Ok(Some(imports)) => import_declaration(form@) == Ok::<Option<Seq<Import>>, Problem>(
                Some(imports_of(imports@)),
            ),
            Ok(None) => import_declaration(form@) == Ok::<Option<Seq<Import>>, Problem>(None),
            Err(error) => import_declaration(form@) == Err::<Option<Seq<Import>>, Problem>(error@),
        },
{
    reveal(import_declaration);
    match keyword_list(form, "import") {
        None => Ok(None),
        Some(items) => {
            let mut imports: Vec<ImportSet> = Vec::new();
            let mut index: usize = 1;
            assert(imports_of(imports@) =~= Seq::<Import>::empty());
            while index < items.len()
                invariant
                    1 <= index <= items@.len(),
                    import_sets(forms_of(items@), 1, Seq::empty()) == import_sets(
                        forms_of(items@),
                        index as nat,
                        imports_of(imports@),
                    ),
                    keyword_items(form@, "import"@) == Some(forms_of(items@)),
                decreases items@.len() - index,
            {
                reveal(import_declaration);
                assert(forms_of(items@)[index as int] == items@[index as int]@);
                let import = parse_import_set(&items[index])?;
                let ghost found = imports_of(imports@);
                imports.push(import);
                assert(imports_of(imports@) =~= found.push(import@));
                index = index + 1;
            }
            Ok(Some(imports))
        },
    }
}

/// The outer and the inner name of an export.
pub open spec fn export_of(form: Form) -> Result<(Seq<char>, Seq<char>), Problem> {
    match form.kind {
        FormKind::Symbol(name) => Ok((name, name)),
        _ => match keyword_items(form, "rename"@) {
            Some(items) => if items.len() == 3 {
                match required_symbol(items[1], "export rename source"@) {
                    Err(problem) => Err(problem),
                    Ok(internal) => match required_symbol(items[2], "export rename target"@) {
                        Err(problem) => Err(problem),
                        Ok(external) => Ok((external, internal)),
                    },
                }
            } else {
                Err(Problem::Expand("export entries must be identifiers or (rename internal external)"@))
            },
            None => Err(Problem::Expand("export entries must be identifiers or (rename internal external)"@)),
        },
    }
}

fn parse_export_entry(item: &Expr) -> (result: Result<ExportSpec, CompileError>)
    ensures
        match result {
            Ok(export) => export_of(item@) == Ok::<(Seq<char>, Seq<char>), Problem>(
                (export.external@, export.internal@),
            ),
            Err(error) => export_of(item@) == Err::<(Seq<char>, Seq<char>), Problem>(error@),
        },
{
    if let ExprKind::Symbol(symbol) = &item.kind {
        return Ok(ExportSpec { external: symbol.clone(), internal: symbol.clone() });
    }
    if let Some(items) = keyword_list(item, "rename") {
        if items.len() == 3 {
            assert(forms_of(items@)[1] == items@[1]@);
            assert(forms_of(items@)[2] == items@[2]@);
            let internal = symbol_name(&items[1], "export rename source")?;
            let external = symbol_name(&items[2], "export rename target")?;
            return Ok(ExportSpec { external, internal });
        }
    }
    expand_error("export entries must be identifiers or (rename internal external)")
}

/// The exports from one on, behind those found.
pub open spec fn export_list(items: Seq<Form>, index: nat, found: Seq<(Seq<char>, Seq<char>)>) -> Result<
    Seq<(Seq<char>, Seq<char>)>,
    Problem,
>
    decreases items.len() - index,
{
    if index >= items.len() {
        Ok(found)
    } else {
        match export_of(items[index as int]) {
            Err(problem) => Err(problem),
            Ok(export) => export_list(items, index + 1, found.push(export)),
        }
    }
}

/// The exports of an export declaration.
#[verifier::opaque]
pub open spec fn export_declaration(form: Form) -> Result<Option<Seq<(Seq<char>, Seq<char>)>>, Problem> {
    match keyword_items(form, "export"@) {
        None => Ok(None),
        Some(items) => match export_list(items, 1, Seq::empty()) {
            Err(problem) => Err(problem),
            Ok(exports) => Ok(Some(exports)),
        },
    }
}

/// The exports of an export declaration.
pub fn parse_export(form: &Expr) -> (result: Result<Option<Vec<ExportSpec>>, CompileError>)
    ensures
        match result {
            Ok(Some(exports)) => export_declaration(form@) == Ok::<
                Option<Seq<(Seq<char>, Seq<char>)>>,
                Problem,
            >(Some(export_names(exports@))),
            Ok(None) => export_declaration(form@) == Ok::<Option<Seq<(Seq<char>, Seq<char>)>>, Problem>(None),
            Err(error) => export_declaration(form@) == Err::<
                Option<Seq<(Seq<char>, Seq<char>)>>,
                Problem,
            >(error@),
        },
{
    reveal(export_declaration);
    match keyword_list(form, "export") {
        None => Ok(None),
        Some(items) => {
            let mut exports: Vec<ExportSpec> = Vec::new();
            let mut index: usize = 1;
            assert(export_names(exports@) =~= Seq::<(Seq<char>, Seq<char>)>::empty());
            while index < items.len()
                invariant
                    1 <= index <= items@.len(),
                    export_list(forms_of(items@), 1, Seq::empty()) == export_list(
                        forms_of(items@),
                        index as nat,
                        export_names(exports@),
                    ),
                    keyword_items(form@, "export"@) == Some(forms_of(items@)),
                decreases items@.len() - index,
            {
                reveal(export_declaration);
                assert(forms_of(items@)[index as int] == items@[index as int]@);
                let export = parse_export_entry(&items[index])?;
                let ghost found = export_names(exports@);
                exports.push(export);
                assert(export_names(exports@) =~= found.push((export.external@, export.internal@)));
                index = index + 1;
            }
            Ok(Some(exports))
        },
    }
}

/// The name of a library, if a form is one.
#[verifier::opaque]
pub open spec fn library_form(form: Form) -> Option<Seq<Seq<char>>> {
    match keyword_items(form, "define-library"@) {
        None => None,
        Some(items) => if items.len() < 2 {
            None
        } else {
            match library_name_of(items[1]) {
                Ok(name) => Some(name),
                Err(_) => None,
            }
        },
    }
}

/// The name of a library, if a form is one. Its declarations are the items behind the name.
pub fn parse_define_library_form(form: &Expr) -> (result: Option<(Vec<String>, &Vec<Expr>)>)
    ensures
        match result {
            Some((name, items)) => library_form(form@) == Some(name_texts(name@)) && list_items(form@) == forms_of(
                items@,
            ) && items@.len() >= 2 && form.kind == (ExprKind::List { items: *items, tail: None }),
            None => library_form(form@) is None,
        },
{
    reveal(library_form);
    proof {
        lemma_list_form(*form);
    }
    if let Some(items) = keyword_list(form, "define-library") {
        if items.len() >= 2 {
            assert(forms_of(items@)[1] == items@[1]@);
            if let Ok(name) = parse_library_name_expr(&items[1]) {
                return Some((name, items));
            }
        }
    }
    None
}

/// The forms that a `begin` holds: the items of the list behind the first.
pub fn parse_begin_declaration(form: &Expr) -> (items: Option<&Vec<Expr>>)
    ensures
        match items {
            Some(items) => keyword_items(form@, "begin"@) == Some(forms_of(items@)) && items@.len() > 0
                && form.kind == (ExprKind::List { items: *items, tail: None }),
            None => keyword_items(form@, "begin"@) is None,
        },
{
    keyword_list(form, "begin")
}

/// The pattern and the template of a clause.
pub open spec fn rule_of(form: Form) -> Result<(Form, Form), Problem> {
    match proper_items(form) {
        None => Err(Problem::Expand("syntax-rules clause must be a two-item list"@)),
        Some(items) => if items.len() != 2 {
            Err(Problem::Expand("syntax-rules clause must contain a pattern and template"@))
        } else {
            Ok((items[0], items[1]))
        },
    }
}

/// The clauses from one on, behind those found.
pub open spec fn rule_list(items: Seq<Form>, index: nat, found: Seq<(Form, Form)>) -> Result<
    Seq<(Form, Form)>,
    Problem,
>
    decreases items.len() - index,
{
    if index >= items.len() {
        Ok(found)
    } else {
        match rule_of(items[index as int]) {
            Err(problem) => Err(problem),
            Ok(rule) => rule_list(items, index + 1, found.push(rule)),
        }
    }
}

fn parse_rule(rule: &Expr) -> (result: Result<SyntaxRule, CompileError>)
    ensures
        match result {
            Ok(parsed) => rule_of(rule@) == Ok::<(Form, Form), Problem>((parsed.pattern@, parsed.template@)),
            Err(error) => rule_of(rule@) == Err::<(Form, Form), Problem>(error@),
        },
{
    match as_proper_list(rule) {
        None => expand_error("syntax-rules clause must be a two-item list"),
        Some(items) => {
            if items.len() != 2 {
                return expand_error("syntax-rules clause must contain a pattern and template");
            }
            assert(forms_of(items@)[0] == items@[0]@);
            assert(forms_of(items@)[1] == items@[1]@);
            Ok(SyntaxRule { pattern: clone_expr(&items[0]), template: clone_expr(&items[1]) })
        },
    }
}

fn parse_rules(items: &Vec<Expr>, start: usize) -> (result: Result<Vec<SyntaxRule>, CompileError>)
    requires
        start <= items@.len(),
    ensures
        match result {
            Ok(rules) => rule_list(forms_of(items@), start as nat, Seq::empty()) == Ok::<
                Seq<(Form, Form)>,
                Problem,
            >(rule_forms(rules@)),
            Err(error) => rule_list(forms_of(items@), start as nat, Seq::empty()) == Err::<
                Seq<(Form, Form)>,
                Problem,
            >(error@),
        },
{
    let mut rules: Vec<SyntaxRule> = Vec::new();
    let mut index: usize = start;
    assert(rule_forms(rules@) =~= Seq::<(Form, Form)>::empty());
    while index < items.len()
        invariant
            index <= items@.len(),
            rule_list(forms_of(items@), start as nat, Seq::empty()) == rule_list(
                forms_of(items@),
                index as nat,
                rule_forms(rules@),
            ),
        decreases items@.len() - index,
    {
        assert(forms_of(items@)[index as int] == items@[index as int]@);
        let rule = parse_rule(&items[index])?;
        let ghost found = rule_forms(rules@);
        rules.push(rule);
        assert(rule_forms(rules@) =~= found.push((rule.pattern@, rule.template@)));
        index = index + 1;
    }
    Ok(rules)
}

/// What a `syntax-rules` form describes, where names are called as `values` says.
pub open spec fn transformer_of(form: Form, values: Map<Seq<char>, Seq<char>>) -> Result<Transformer, Problem> {
    match proper_items(form) {
        None => Err(Problem::Expand("syntax-rules transformer must be a list"@)),
        Some(items) => if items.len() < 3 || !is_the_symbol(items[0], "syntax-rules"@) {
            Err(Problem::Expand("define-syntax requires a syntax-rules transformer"@))
        } else {
            match proper_items(items[1]) {
                None => Err(Problem::Expand("syntax-rules literal list must be a proper list"@)),
                Some(literals) => match identifiers(literals, 0, "syntax-rules literal"@, Seq::empty()) {
                    Err(problem) => Err(problem),
                    Ok(literals) => match rule_list(items, 2, Seq::empty()) {
                        Err(problem) => Err(problem),
                        Ok(rules) => Ok(Transformer { literals: literals.to_set(), rules, values }),
                    },
                },
            }
        },
    }
}

/// What a `syntax-rules` form describes, where names are called as `values` says.
pub fn parse_syntax_rules(expr: &Expr, values: &NameMap<String>) -> (result: Result<SyntaxRules, CompileError>)
    ensures
        match result {
            Ok(rules) => transformer_of(expr@, values@) == Ok::<Transformer, Problem>(rules@),
            Err(error) => transformer_of(expr@, values@) == Err::<Transformer, Problem>(error@),
        },
{
    match as_proper_list(expr) {
        None => expand_error("syntax-rules transformer must be a list"),
        Some(items) => {
            if items.len() < 3 {
                return expand_error("define-syntax requires a syntax-rules transformer");
            }
            assert(forms_of(items@)[0] == items@[0]@);
            assert(forms_of(items@)[1] == items@[1]@);
            if !is_symbol(&items[0], "syntax-rules") {
                return expand_error("define-syntax requires a syntax-rules transformer");
            }
            match as_proper_list(&items[1]) {
                None => expand_error("syntax-rules literal list must be a proper list"),
                Some(literal_items) => {
                    let literals = parse_identifier_list(literal_items, 0, "syntax-rules literal")?;
                    let rules = parse_rules(items, 2)?;
                    Ok(
                        SyntaxRules {
                            literals: NameSet { names: literals },
                            rules,
                            definition_values: values.duplicate_map(),
                        },
                    )
                },
            }
        },
    }
}

/// The name and the meaning of a macro definition, if a form is one.
#[verifier::opaque]
pub open spec fn syntax_definition(form: Form, values: Map<Seq<char>, Seq<char>>) -> Result<
    Option<(Seq<char>, Transformer)>,
    Problem,
> {
    match keyword_items(form, "define-syntax"@) {
        None => Ok(None),
        Some(items) => if items.len() != 3 {
            Ok(None)
        } else {
            match required_symbol(items[1], "define-syntax name"@) {
                Err(problem) => Err(problem),
                Ok(name) => match transformer_of(items[2], values) {
                    Err(problem) => Err(problem),
                    Ok(transformer) => Ok(Some((name, transformer))),
                },
            }
        },
    }
}

/// The name and the meaning of a macro definition, if a form is one.
pub fn parse_define_syntax(form: &Expr, values: &NameMap<String>) -> (result: Result<
    Option<(String, SyntaxRules)>,
    CompileError,
>)
    ensures
        match result {
            Ok(Some((name, rules))) => syntax_definition(form@, values@) == Ok::<
                Option<(Seq<char>, Transformer)>,
                Problem,
            >(Some((name@, rules@))),
            Ok(None) => syntax_definition(form@, values@) == Ok::<Option<(Seq<char>, Transformer)>, Problem>(None),
            Err(error) => syntax_definition(form@, values@) == Err::<
                Option<(Seq<char>, Transformer)>,
                Problem,
            >(error@),
        },
{
    reveal(syntax_definition);
    if let Some(items) = keyword_list(form, "define-syntax") {
        if items.len() == 3 {
            assert(forms_of(items@)[1] == items@[1]@);
            assert(forms_of(items@)[2] == items@[2]@);
            let name = symbol_name(&items[1], "define-syntax name")?;
            let rules = parse_syntax_rules(&items[2], values)?;
            return Ok(Some((name, rules)));
        }
    }
    Ok(None)
}

/// The name that a definition defines, if a form is one.
#[verifier::opaque]
pub open spec fn defined_name(form: Form) -> Result<Option<Seq<char>>, Problem> {
    match keyword_items(form, "define"@) {
        None => Ok(None),
        Some(items) => if items.len() < 3 {
            Ok(None)
        } else {
            match items[1].kind {
                FormKind::Symbol(name) => Ok(Some(name)),
                FormKind::List { items: head, tail } => if head.len() == 0 {
                    Err(Problem::Expand("define target must be an identifier or parameter list"@))
                } else {
                    match required_symbol(head[0], "procedure definition name"@) {
                        Err(problem) => Err(problem),
                        Ok(name) => Ok(Some(name)),
                    }
                },
                _ => Err(Problem::Expand("define target must be an identifier or parameter list"@)),
            }
        },
    }
}

/// The name that a definition defines, if a form is one.
pub fn parse_define_name(form: &Expr) -> (result: Result<Option<String>, CompileError>)
    ensures
        match result {
            Ok(Some(name)) => defined_name(form@) == Ok::<Option<Seq<char>>, Problem>(Some(name@)),
            Ok(None) => defined_name(form@) == Ok::<Option<Seq<char>>, Problem>(None),
            Err(error) => defined_name(form@) == Err::<Option<Seq<char>>, Problem>(error@),
        },
{
    reveal(defined_name);
    if let Some(items) = keyword_list(form, "define") {
        if items.len() >= 3 {
            assert(forms_of(items@)[1] == items@[1]@);
            proof {
                lemma_list_form(items@[1]);
            }
            return match &items[1].kind {
                ExprKind::Symbol(symbol) => Ok(Some(symbol.clone())),
                ExprKind::List { items: head, tail: _ } => {
                    if head.len() == 0 {
                        return expand_error("define target must be an identifier or parameter list");
                    }
                    assert(forms_of(head@)[0] == head@[0]@);
                    let name = symbol_name(&head[0], "procedure definition name")?;
                    Ok(Some(name))
                },
                _ => expand_error("define target must be an identifier or parameter list"),
            };
        }
    }
    Ok(None)
}

/// The names that a form of a library defines, besides those known.
pub open spec fn names_in_form(form: Form, names: Set<Seq<char>>) -> Result<Set<Seq<char>>, Problem>
    decreases form, 1nat, 0nat,
{
    if keyword_items(form, "begin"@) is Some {
        names_in_items(form, 1, names)
    } else {
        match export_declaration(form) {
            Err(problem) => Err(problem),
            Ok(Some(_)) => Ok(names),
            Ok(None) => match import_declaration(form) {
                Err(problem) => Err(problem),
                Ok(Some(_)) => Ok(names),
                Ok(None) => match syntax_definition(form, Map::empty()) {
                    Err(problem) => Err(problem),
                    Ok(Some((name, _))) => Ok(names.insert(name)),
                    Ok(None) => match defined_name(form) {
                        Err(problem) => Err(problem),
                        Ok(Some(name)) => Ok(names.insert(name)),
                        Ok(None) => Ok(names),
                    },
                },
            },
        }
    }
}

/// The names that the items of a list from one on define, besides those known.
pub open spec fn names_in_items(form: Form, index: nat, names: Set<Seq<char>>) -> Result<Set<Seq<char>>, Problem>
    decreases form, 0nat, list_items(form).len() - index,
{
    if index >= list_items(form).len() {
        Ok(names)
    } else {
        match names_in_form(list_items(form)[index as int], names) {
            Err(problem) => Err(problem),
            Ok(names) => names_in_items(form, index + 1, names),
        }
    }
}

fn collect_top_level_names_in_form(form: &Expr, names: &mut NameSet) -> (result: Result<(), CompileError>)
    ensures
        match result {
            Ok(_) => names_in_form(form@, old(names)@) == Ok::<Set<Seq<char>>, Problem>(final(names)@),
            Err(error) => names_in_form(form@, old(names)@) == Err::<Set<Seq<char>>, Problem>(error@),
        },
    decreases *form, 1nat,
{
    if parse_begin_declaration(form).is_some() {
        return collect_top_level_names_in_items(form, 1, names);
    }
    if parse_export(form)?.is_some() {
        return Ok(());
    }
    if parse_import(form)?.is_some() {
        return Ok(());
    }
    let macro_values: NameMap<String> = NameMap::new();
    if let Some((name, _)) = parse_define_syntax(form, &macro_values)? {
        names.insert(name);
        return Ok(());
    }
    if let Some(name) = parse_define_name(form)? {
        names.insert(name);
    }
    Ok(())
}

/// Collects the names that the items of a list from `start` on define.
pub fn collect_top_level_names_in_items(form: &Expr, start: usize, names: &mut NameSet) -> (result: Result<
    (),
    CompileError,
>)
    requires
        form.kind is List,
        start <= list_items(form@).len(),
    ensures
        match result {
            Ok(_) => names_in_items(form@, start as nat, old(names)@) == Ok::<Set<Seq<char>>, Problem>(
                final(names)@,
            ),
            Err(error) => names_in_items(form@, start as nat, old(names)@) == Err::<Set<Seq<char>>, Problem>(
                error@,
            ),
        },
    decreases *form, 0nat,
{
    proof {
        lemma_list_form(*form);
    }
    if let ExprKind::List { items, tail: _ } = &form.kind {
        let mut index: usize = start;
        while index < items.len()
            invariant
                index <= items@.len(),
                list_items(form@) == forms_of(items@),
                form.kind matches ExprKind::List { items: all, tail: _ } && *items == all,
                names_in_items(form@, start as nat, old(names)@) == names_in_items(
                    form@,
                    index as nat,
                    names@,
                ),
            decreases items@.len() - index,
        {
            assert(forms_of(items@)[index as int] == items@[index as int]@);
            collect_top_level_names_in_form(&items[index], names)?;
            index = index + 1;
        }
    }
    Ok(())
}

} // verus!
