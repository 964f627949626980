use crate::ast::{
    view_items, BaseType, Comment, CommentV, Field, FieldV, FunctionDecl, FunctionV, IdentV, ItemV, Module,
    ModuleV, NamespaceDecl, NamespaceItem, NamespaceV, StructDecl, StructV, TypeKind, TypeKindV,
    TypeV,
};
use crate::grammar::{base_keyword, is_id_char};
use vstd::prelude::*;

verus! {

// ---------------------------------------------------------------------------
// The canonical printer: a parsed tree written back as schema text. The
// format is plain — one declaration per line, one field per line, no
// indentation — and chosen so that re-parsing the text yields a tree
// structurally equal to the one printed. The `wf_*` predicates say which
// trees can be printed faithfully: identifiers made of identifier
// characters, user type names that are not base-type keywords, comment
// lines without line breaks, and notifications without results or body.
// ---------------------------------------------------------------------------

// ---- well-formedness -------------------------------------------------------
pub open spec fn wf_ident(id: IdentV) -> bool {
    id.text.len() > 0 && forall|k: int| 0 <= k < id.text.len() ==> is_id_char(id.text[k])
}

/// A printable user type name: an identifier that is not a base-type
/// keyword.
pub open spec fn wf_user_name(n: Seq<char>) -> bool {
    &&& n.len() > 0
    &&& forall|k: int| 0 <= k < n.len() ==> is_id_char(n[k])
    &&& n != base_keyword(BaseType::Bool)
    &&& n != base_keyword(BaseType::Int32)
    &&& n != base_keyword(BaseType::Int64)
    &&& n != base_keyword(BaseType::UInt32)
    &&& n != base_keyword(BaseType::UInt64)
    &&& n != base_keyword(BaseType::Float32)
    &&& n != base_keyword(BaseType::Float64)
    &&& n != base_keyword(BaseType::Text)
    &&& n != base_keyword(BaseType::Bytes)
    &&& n != base_keyword(BaseType::Timestamp)
}

pub open spec fn wf_type(t: TypeV) -> bool
    decreases t,
{
    match t.kind {
        TypeKindV::Base(_) => true,
        TypeKindV::Arr(inner) => wf_type(*inner),
        TypeKindV::Opt(inner) => wf_type(*inner),
        TypeKindV::MapOf(k, v) => wf_type(*k) && wf_type(*v),
        TypeKindV::User(n) => wf_user_name(n),
    }
}

/// A printable comment line: no line break, and no leading space or tab
/// (the printer puts one space after `//`, which parsing strips again).
pub open spec fn wf_comment_line(l: Seq<char>) -> bool {
    (forall|k: int| 0 <= k < l.len() ==> l[k] != '\n') && (l.len() > 0 ==> l[0] != ' ' && l[0]
        != '\t')
}

pub open spec fn wf_comment(c: CommentV) -> bool {
    c.lines.len() > 0 && forall|k: int| 0 <= k < c.lines.len() ==> wf_comment_line(
        #[trigger] c.lines[k],
    )
}

pub open spec fn wf_comment_opt(c: Option<CommentV>) -> bool {
    match c {
        Option::Some(c) => wf_comment(c),
        Option::None => true,
    }
}

pub open spec fn wf_field(f: FieldV) -> bool {
    wf_comment_opt(f.comment) && wf_ident(f.name) && wf_type(f.typ)
}

pub open spec fn wf_fields(fs: Seq<FieldV>) -> bool {
    forall|k: int| 0 <= k < fs.len() ==> wf_field(#[trigger] fs[k])
}

pub open spec fn wf_function(f: FunctionV) -> bool
    decreases f,
{
    &&& wf_comment_opt(f.comment)
    &&& wf_ident(f.name)
    &&& wf_fields(f.params)
    &&& wf_fields(f.results)
    &&& !f.modifiers.notification ==> true
    &&& f.modifiers.notification ==> f.results.len() == 0 && f.body is None
    &&& match f.body {
        Option::Some(b) => wf_items(b.items),
        Option::None => true,
    }
}

pub open spec fn wf_struct(s: StructV) -> bool {
    wf_comment_opt(s.comment) && wf_ident(s.name) && wf_fields(s.fields)
}

pub open spec fn wf_namespace(n: NamespaceV) -> bool
    decreases n,
{
    wf_comment_opt(n.comment) && wf_ident(n.name) && wf_items(n.body.items)
}

pub open spec fn wf_item(it: ItemV) -> bool
    decreases it,
{
    match it {
        ItemV::Function(f) => wf_function(f),
        ItemV::Struct(s) => wf_struct(s),
        ItemV::Namespace(n) => wf_namespace(n),
    }
}

pub open spec fn wf_items(items: Seq<ItemV>) -> bool
    decreases items,
{
    if items.len() == 0 {
        true
    } else {
        wf_item(items[0]) && wf_items(items.drop_first())
    }
}

pub open spec fn wf_module(m: ModuleV) -> bool {
    &&& wf_items(m.namespaces.map_values(|n: NamespaceV| ItemV::Namespace(n)))
    &&& forall|k: int| 0 <= k < m.trailing.len() ==> wf_comment_line(#[trigger] m.trailing[k])
}

// ---- the printed text ------------------------------------------------------
pub open spec fn print_type(t: TypeV) -> Seq<char>
    decreases t,
{
    match t.kind {
        TypeKindV::Base(b) => base_keyword(b),
        TypeKindV::Arr(inner) => "Array<"@ + print_type(*inner) + ">"@,
        TypeKindV::Opt(inner) => "Option<"@ + print_type(*inner) + ">"@,
        TypeKindV::MapOf(k, v) => "Map<"@ + print_type(*k) + ","@ + print_type(*v) + ">"@,
        TypeKindV::User(n) => n,
    }
}

pub open spec fn print_comment_lines(lines: Seq<Seq<char>>) -> Seq<char>
    decreases lines.len(),
{
    if lines.len() == 0 {
        Seq::empty()
    } else {
        "// "@ + lines[0] + "\n"@ + print_comment_lines(lines.drop_first())
    }
}

pub open spec fn print_comment_opt(c: Option<CommentV>) -> Seq<char> {
    match c {
        Option::Some(c) => print_comment_lines(c.lines),
        Option::None => Seq::empty(),
    }
}

/// One field on its own line, ending with a comma; the comma after the
/// last field is part of the grammar and ignored when read back.
pub open spec fn print_field(f: FieldV) -> Seq<char> {
    print_comment_opt(f.comment) + f.name.text + ": "@ + print_type(f.typ) + ",\n"@
}

pub open spec fn print_fields(fs: Seq<FieldV>) -> Seq<char>
    decreases fs.len(),
{
    if fs.len() == 0 {
        Seq::empty()
    } else {
        print_field(fs[0]) + print_fields(fs.drop_first())
    }
}

/// A parenthesised field list: `()` when empty, else one field per line.
pub open spec fn print_field_group(fs: Seq<FieldV>) -> Seq<char> {
    if fs.len() == 0 {
        "()"@
    } else {
        "(\n"@ + print_fields(fs) + ")"@
    }
}

pub open spec fn print_mods(m: crate::ast::ModifierSet) -> Seq<char> {
    (if m.server {
        "server "@
    } else {
        Seq::empty()
    }) + (if m.client {
        "client "@
    } else {
        Seq::empty()
    })
}

pub open spec fn print_function(f: FunctionV) -> Seq<char>
    decreases f, 2int,
{
    print_comment_opt(f.comment) + print_mods(f.modifiers) + (if f.modifiers.notification {
        "nf "@
    } else {
        "fn "@
    }) + f.name.text + print_field_group(f.params) + (if f.results.len() == 0 {
        Seq::empty()
    } else {
        " -> "@ + print_field_group(f.results)
    }) + (match f.body {
        Option::Some(b) => " {\n"@ + print_items(b.items) + "}"@,
        Option::None => Seq::empty(),
    }) + "\n"@
}

pub open spec fn print_struct(s: StructV) -> Seq<char> {
    print_comment_opt(s.comment) + "struct "@ + s.name.text + " {\n"@ + print_fields(s.fields)
        + "}\n"@
}

pub open spec fn print_namespace(n: NamespaceV) -> Seq<char>
    decreases n, 2int,
{
    print_comment_opt(n.comment) + "namespace "@ + n.name.text + " {\n"@ + print_items(
        n.body.items,
    ) + "}\n"@
}

pub open spec fn print_item(it: ItemV) -> Seq<char>
    decreases it, 3int,
{
    match it {
        ItemV::Function(f) => print_function(f),
        ItemV::Struct(s) => print_struct(s),
        ItemV::Namespace(n) => print_namespace(n),
    }
}

pub open spec fn print_items(items: Seq<ItemV>) -> Seq<char>
    decreases items, 4int,
{
    if items.len() == 0 {
        Seq::empty()
    } else {
        print_item(items[0]) + print_items(items.drop_first())
    }
}

pub open spec fn print_module(m: ModuleV) -> Seq<char> {
    print_items(m.namespaces.map_values(|n: NamespaceV| ItemV::Namespace(n)))
        + print_comment_lines(m.trailing)
}

// ---- step lemmas for the loops below ---------------------------------------
proof fn lemma_print_fields_take(fs: Seq<FieldV>, i: int)
    requires
        0 < i <= fs.len(),
    ensures
        print_fields(fs.take(i)) == print_fields(fs.take(i - 1)) + print_field(fs[i - 1]),
    decreases i,
{
    if i == 1 {
        let t = fs.take(1);
        assert(t[0] == fs[0]);
        assert(t.drop_first() =~= Seq::<FieldV>::empty());
        assert(fs.take(0) =~= Seq::<FieldV>::empty());
        assert(print_fields(fs.take(0)) + print_field(fs[0]) =~= print_fields(t));
    } else {
        lemma_print_fields_take(fs.drop_first(), i - 1);
        assert(fs.take(i).drop_first() =~= fs.drop_first().take(i - 1));
        assert(fs.take(i - 1).drop_first() =~= fs.drop_first().take(i - 2));
        assert(fs.drop_first()[i - 2] == fs[i - 1]);
        assert(fs.take(i)[0] == fs[0]);
        assert(fs.take(i - 1)[0] == fs[0]);
        assert(fs.take(i - 1).len() > 0);
        assert(print_field(fs[0]) + (print_fields(fs.drop_first().take(i - 2)) + print_field(
            fs[i - 1],
        )) =~= (print_field(fs[0]) + print_fields(fs.drop_first().take(i - 2))) + print_field(
            fs[i - 1],
        ));
    }
}

proof fn lemma_print_items_take(items: Seq<ItemV>, i: int)
    requires
        0 < i <= items.len(),
    ensures
        print_items(items.take(i)) == print_items(items.take(i - 1)) + print_item(items[i - 1]),
    decreases i,
{
    if i == 1 {
        let t = items.take(1);
        assert(t[0] == items[0]);
        assert(t.drop_first() =~= Seq::<ItemV>::empty());
        assert(items.take(0) =~= Seq::<ItemV>::empty());
        assert(print_items(items.take(0)) + print_item(items[0]) =~= print_items(t));
    } else {
        lemma_print_items_take(items.drop_first(), i - 1);
        assert(items.take(i).drop_first() =~= items.drop_first().take(i - 1));
        assert(items.take(i - 1).drop_first() =~= items.drop_first().take(i - 2));
        assert(items.drop_first()[i - 2] == items[i - 1]);
        assert(items.take(i)[0] == items[0]);
        assert(items.take(i - 1)[0] == items[0]);
        assert(items.take(i - 1).len() > 0);
        assert(print_item(items[0]) + (print_items(items.drop_first().take(i - 2)) + print_item(
            items[i - 1],
        )) =~= (print_item(items[0]) + print_items(items.drop_first().take(i - 2))) + print_item(
            items[i - 1],
        ));
    }
}

proof fn lemma_print_lines_take(lines: Seq<Seq<char>>, i: int)
    requires
        0 < i <= lines.len(),
    ensures
        print_comment_lines(lines.take(i)) == print_comment_lines(lines.take(i - 1)) + ("// "@
            + lines[i - 1] + "\n"@),
    decreases i,
{
    if i == 1 {
        let t = lines.take(1);
        assert(t[0] == lines[0]);
        assert(t.drop_first() =~= Seq::<Seq<char>>::empty());
        assert(lines.take(0) =~= Seq::<Seq<char>>::empty());
        assert(print_comment_lines(lines.take(0)) + ("// "@ + lines[0] + "\n"@)
            =~= print_comment_lines(t));
    } else {
        lemma_print_lines_take(lines.drop_first(), i - 1);
        assert(lines.take(i).drop_first() =~= lines.drop_first().take(i - 1));
        assert(lines.take(i - 1).drop_first() =~= lines.drop_first().take(i - 2));
        assert(lines.drop_first()[i - 2] == lines[i - 1]);
        assert(lines.take(i)[0] == lines[0]);
        assert(lines.take(i - 1)[0] == lines[0]);
        assert(lines.take(i - 1).len() > 0);
        assert(("// "@ + lines[0] + "\n"@) + (print_comment_lines(lines.drop_first().take(i - 2))
            + ("// "@ + lines[i - 1] + "\n"@)) =~= (("// "@ + lines[0] + "\n"@)
            + print_comment_lines(lines.drop_first().take(i - 2))) + ("// "@ + lines[i - 1]
            + "\n"@));
    }
}

// ---- the executable printer ------------------------------------------------
fn print_comment_opt_x(c: &Option<Comment>, out: &mut String)
    ensures
        final(out)@ == old(out)@ + print_comment_opt(crate::ast::view_comment_opt(*c)),
{
    match c {
        Option::None => {},
        Option::Some(c) => {
            let mut i: usize = 0;
            while i < c.lines.len()
                invariant
                    i <= c.lines.len(),
                    out@ == old(out)@ + print_comment_lines(c@.lines.take(i as int)),
                decreases c.lines.len() - i,
            {
                let ghost o0 = out@;
                out.append("// ");
                out.append(c.lines[i].as_str());
                out.append("\n");
                i += 1;
                proof {
                    lemma_print_lines_take(c@.lines, i as int);
                    assert(c@.lines[i - 1] == c.lines@[i - 1]@);
                    assert(out@ =~= old(out)@ + print_comment_lines(c@.lines.take(i as int)));
                }
            }
            proof {
                assert(c@.lines.take(c@.lines.len() as int) =~= c@.lines);
            }
        },
    }
}

fn print_type_x(t: &crate::ast::Type, out: &mut String)
    ensures
        final(out)@ == old(out)@ + print_type(t@),
    decreases t,
{
    match &t.kind {
        TypeKind::Base(b) => {
            let w = crate::parser::base_word(*b);
            out.append(w);
        },
        TypeKind::Arr(inner) => {
            out.append("Array<");
            print_type_x(inner, out);
            out.append(">");
        },
        TypeKind::Opt(inner) => {
            out.append("Option<");
            print_type_x(inner, out);
            out.append(">");
        },
        TypeKind::MapOf(k, v) => {
            out.append("Map<");
            print_type_x(k, out);
            out.append(",");
            print_type_x(v, out);
            out.append(">");
        },
        TypeKind::User(n) => {
            out.append(n.as_str());
        },
    }
    proof {
        assert(final(out)@ =~= old(out)@ + print_type(t@));
    }
}

fn print_fields_x(fs: &Vec<Field>, out: &mut String)
    ensures
        final(out)@ == old(out)@ + print_fields(crate::ast::view_fields(fs@)),
{
    let ghost fsv = crate::ast::view_fields(fs@);
    let mut i: usize = 0;
    while i < fs.len()
        invariant
            i <= fs.len(),
            fsv == crate::ast::view_fields(fs@),
            fsv.len() == fs@.len(),
            out@ == old(out)@ + print_fields(fsv.take(i as int)),
        decreases fs.len() - i,
    {
        let f = &fs[i];
        print_comment_opt_x(&f.comment, out);
        out.append(f.name.text.as_str());
        out.append(": ");
        print_type_x(&f.typ, out);
        out.append(",\n");
        i += 1;
        proof {
            lemma_print_fields_take(fsv, i as int);
            assert(fsv[i - 1] == fs@[i - 1]@);
            assert(fsv.take(i as int).len() == i);
            assert(out@ =~= old(out)@ + print_fields(fsv.take(i as int)));
        }
    }
    proof {
        assert(fsv.take(fsv.len() as int) =~= fsv);
    }
}

fn print_field_group_x(fs: &Vec<Field>, out: &mut String)
    ensures
        final(out)@ == old(out)@ + print_field_group(crate::ast::view_fields(fs@)),
{
    if fs.len() == 0 {
        out.append("()");
    } else {
        out.append("(\n");
        print_fields_x(fs, out);
        out.append(")");
    }
    proof {
        assert(final(out)@ =~= old(out)@ + print_field_group(crate::ast::view_fields(fs@)));
    }
}

fn print_function_x(f: &FunctionDecl, out: &mut String)
    ensures
        final(out)@ == old(out)@ + print_function(f@),
    decreases f, 1int,
{
    let mut t = String::new();
    print_comment_opt_x(&f.comment, &mut t);
    let ghost g1 = print_comment_opt(crate::ast::view_comment_opt(f.comment)) + print_mods(
        f.modifiers,
    );
    if f.modifiers.server {
        t.append("server ");
    }
    if f.modifiers.client {
        t.append("client ");
    }
    proof {
        assert(t@ =~= g1);
    }
    if f.modifiers.notification {
        t.append("nf ");
    } else {
        t.append("fn ");
    }
    t.append(f.name.text.as_str());
    let ghost g2 = g1 + (if f@.modifiers.notification {
        "nf "@
    } else {
        "fn "@
    }) + f@.name.text;
    proof {
        assert(t@ == g2);
    }
    print_field_group_x(&f.params, &mut t);
    let ghost g3 = g2 + print_field_group(f@.params);
    let mut rp = String::new();
    if f.results.len() > 0 {
        rp.append(" -> ");
        print_field_group_x(&f.results, &mut rp);
    }
    t.append(rp.as_str());
    let ghost g4 = g3 + (if f@.results.len() == 0 {
        Seq::<char>::empty()
    } else {
        " -> "@ + print_field_group(f@.results)
    });
    proof {
        assert(t@ == g4);
    }
    let mut bp = String::new();
    match &f.body {
        Option::Some(b) => {
            bp.append(" {\n");
            print_items_x(&b.items, &mut bp);
            bp.append("}");
        },
        Option::None => {},
    }
    t.append(bp.as_str());
    let ghost g5 = g4 + (match f@.body {
        Option::Some(b) => " {\n"@ + print_items(b.items) + "}"@,
        Option::None => Seq::<char>::empty(),
    });
    proof {
        assert(t@ == g5);
    }
    t.append("\n");
    proof {
        assert(t@ == print_function(f@));
    }
    out.append(t.as_str());
}

fn print_struct_x(s: &StructDecl, out: &mut String)
    ensures
        final(out)@ == old(out)@ + print_struct(s@),
{
    print_comment_opt_x(&s.comment, out);
    out.append("struct ");
    out.append(s.name.text.as_str());
    out.append(" {\n");
    print_fields_x(&s.fields, out);
    out.append("}\n");
    proof {
        assert(final(out)@ =~= old(out)@ + print_struct(s@));
    }
}

fn print_namespace_x(n: &NamespaceDecl, out: &mut String)
    ensures
        final(out)@ == old(out)@ + print_namespace(n@),
    decreases n, 1int,
{
    print_comment_opt_x(&n.comment, out);
    out.append("namespace ");
    out.append(n.name.text.as_str());
    out.append(" {\n");
    print_items_x(&n.body.items, out);
    out.append("}\n");
    proof {
        assert(final(out)@ =~= old(out)@ + print_namespace(n@));
    }
}

fn print_item_x(it: &NamespaceItem, out: &mut String)
    ensures
        final(out)@ == old(out)@ + print_item(it@),
    decreases it, 2int,
{
    match it {
        NamespaceItem::Function(f) => print_function_x(f, out),
        NamespaceItem::Struct(s) => print_struct_x(s, out),
        NamespaceItem::Namespace(n) => print_namespace_x(n, out),
    }
}

fn print_items_x(items: &Vec<NamespaceItem>, out: &mut String)
    ensures
        final(out)@ == old(out)@ + print_items(view_items(items@)),
    decreases items@, 2int,
{
    broadcast use vstd::std_specs::vec::axiom_vec_index_decreases;

    let ghost iv = view_items(items@);
    proof {
        crate::ast::lemma_view_items(items@);
    }
    let mut i: usize = 0;
    while i < items.len()
        invariant
            i <= items.len(),
            iv == view_items(items@),
            iv.len() == items@.len(),
            forall|k: int| 0 <= k < items@.len() ==> iv[k] == items@[k]@,
            out@ == old(out)@ + print_items(iv.take(i as int)),
        decreases items.len() - i,
    {
        print_item_x(&items[i], out);
        i += 1;
        proof {
            lemma_print_items_take(iv, i as int);
            assert(out@ =~= old(out)@ + print_items(iv.take(i as int)));
        }
    }
    proof {
        assert(iv.take(iv.len() as int) =~= iv);
    }
}

/// Prints a whole module back as schema text, in the canonical format.
pub fn print(m: &Module) -> (r: String)
    ensures
        r@ == print_module(m@),
{
    let mut out = String::new();
    let mut i: usize = 0;
    let ghost itemsv = m@.namespaces.map_values(|n: NamespaceV| ItemV::Namespace(n));
    while i < m.namespaces.len()
        invariant
            i <= m.namespaces.len(),
            itemsv == m@.namespaces.map_values(|n: NamespaceV| ItemV::Namespace(n)),
            itemsv.len() == m@.namespaces.len(),
            out@ == print_items(itemsv.take(i as int)),
        decreases m.namespaces.len() - i,
    {
        let it = NamespaceItem::Namespace(m.namespaces[i].clone());
        print_item_x(&it, &mut out);
        i += 1;
        proof {
            lemma_print_items_take(itemsv, i as int);
            assert(itemsv[i - 1] == ItemV::Namespace(m.namespaces@[i - 1]@));
            assert(out@ =~= print_items(itemsv.take(i as int)));
        }
    }
    proof {
        assert(itemsv.take(itemsv.len() as int) =~= itemsv);
    }
    let mut j: usize = 0;
    let ghost base = out@;
    while j < m.trailing.len()
        invariant
            j <= m.trailing.len(),
            out@ == base + print_comment_lines(m@.trailing.take(j as int)),
        decreases m.trailing.len() - j,
    {
        out.append("// ");
        out.append(m.trailing[j].as_str());
        out.append("\n");
        j += 1;
        proof {
            lemma_print_lines_take(m@.trailing, j as int);
            assert(m@.trailing[j - 1] == m.trailing@[j - 1]@);
            assert(out@ =~= base + print_comment_lines(m@.trailing.take(j as int)));
        }
    }
    proof {
        assert(m@.trailing.take(m@.trailing.len() as int) =~= m@.trailing);
        assert(out@ =~= print_module(m@));
    }
    out
}

} // verus!
