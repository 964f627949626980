use vstd::prelude::*;

verus! {

// ---------------------------------------------------------------------------
// Abstract syntax tree for schema files.
//
// Every node carries the byte offset (`pos`) at which its name was found, so
// that diagnostics can point into the source. Two trees are considered
// structurally equal when they agree on everything but those offsets; the
// `sim_*` spec functions below state that relation.
// ---------------------------------------------------------------------------

/// The built-in scalar types of the schema language.
#[derive(Clone, Copy, PartialEq, Eq, Structural, Debug)]
pub enum BaseType {
    Bool,
    Int32,
    Int64,
    UInt32,
    UInt64,
    Float32,
    Float64,
    Text,
    Bytes,
    Timestamp,
}

/// An identifier with the offset where it appeared.
#[derive(Debug)]
pub struct Identifier {
    pub pos: usize,
    pub text: String,
}

/// A type expression.
#[derive(Debug)]
pub struct Type {
    pub pos: usize,
    pub kind: TypeKind,
}

/// The shape of a type expression: a base type, a container, or a reference
/// to a user-declared struct.
#[derive(Debug)]
pub enum TypeKind {
    Base(BaseType),
    Arr(Box<Type>),
    Opt(Box<Type>),
    MapOf(Box<Type>, Box<Type>),
    User(String),
}

/// The comment lines immediately preceding a declaration.
#[derive(Debug)]
pub struct Comment {
    pub lines: Vec<String>,
}

/// One named, typed field of a parameter list, result list or struct.
#[derive(Debug)]
pub struct Field {
    pub pos: usize,
    pub comment: Option<Comment>,
    pub name: Identifier,
    pub typ: Type,
}

/// A modifier written before a function declaration. `Notification` is
/// implied by the `nf` keyword rather than written out.
#[derive(Clone, Copy, PartialEq, Eq, Structural, Debug)]
pub enum FunctionModifier {
    Server,
    Client,
    Notification,
}

/// The side of the interface that exposes a function.
#[derive(Clone, Copy, PartialEq, Eq, Structural, Debug)]
pub enum Side {
    Server,
    Client,
}

/// The set of modifiers carried by a function declaration.
#[derive(Clone, Copy, PartialEq, Eq, Structural, Debug)]
pub struct ModifierSet {
    pub server: bool,
    pub client: bool,
    pub notification: bool,
}

impl ModifierSet {
    pub open spec fn spec_empty() -> ModifierSet {
        ModifierSet { server: false, client: false, notification: false }
    }

    pub fn empty() -> (r: ModifierSet)
        ensures
            r == ModifierSet::spec_empty(),
    {
        ModifierSet { server: false, client: false, notification: false }
    }

    pub open spec fn spec_contains(self, m: FunctionModifier) -> bool {
        match m {
            FunctionModifier::Server => self.server,
            FunctionModifier::Client => self.client,
            FunctionModifier::Notification => self.notification,
        }
    }

    pub fn contains(&self, m: FunctionModifier) -> (r: bool)
        ensures
            r == self.spec_contains(m),
    {
        match m {
            FunctionModifier::Server => self.server,
            FunctionModifier::Client => self.client,
            FunctionModifier::Notification => self.notification,
        }
    }
}

/// A function or notification declaration. A function may carry a nested
/// body, which acts as a namespace reachable through the function's own name.
#[derive(Debug)]
pub struct FunctionDecl {
    pub pos: usize,
    pub comment: Option<Comment>,
    pub modifiers: ModifierSet,
    pub name: Identifier,
    pub params: Vec<Field>,
    pub results: Vec<Field>,
    pub body: Option<NamespaceBody>,
}

/// A struct declaration.
#[derive(Debug)]
pub struct StructDecl {
    pub pos: usize,
    pub comment: Option<Comment>,
    pub name: Identifier,
    pub fields: Vec<Field>,
}

/// A namespace declaration.
#[derive(Debug)]
pub struct NamespaceDecl {
    pub pos: usize,
    pub comment: Option<Comment>,
    pub name: Identifier,
    pub body: NamespaceBody,
}

/// One item of a namespace body, in declaration order.
#[derive(Debug)]
pub enum NamespaceItem {
    Function(FunctionDecl),
    Struct(StructDecl),
    Namespace(NamespaceDecl),
}

/// The ordered items between a pair of braces.
#[derive(Debug)]
pub struct NamespaceBody {
    pub items: Vec<NamespaceItem>,
}

/// The root of one parsed schema file: its top-level namespaces plus the
/// comment lines trailing the last declaration.
#[derive(Debug)]
pub struct Module {
    pub namespaces: Vec<NamespaceDecl>,
    pub trailing: Vec<String>,
}

// ---------------------------------------------------------------------------
// Ghost counterparts. The grammar, the printer and all laws are stated over
// these; each executable node views to its ghost counterpart.
// ---------------------------------------------------------------------------

pub ghost struct IdentV {
    pub pos: int,
    pub text: Seq<char>,
}

pub ghost struct TypeV {
    pub pos: int,
    pub kind: TypeKindV,
}

pub ghost enum TypeKindV {
    Base(BaseType),
    Arr(Box<TypeV>),
    Opt(Box<TypeV>),
    MapOf(Box<TypeV>, Box<TypeV>),
    User(Seq<char>),
}

pub ghost struct CommentV {
    pub lines: Seq<Seq<char>>,
}

pub ghost struct FieldV {
    pub pos: int,
    pub comment: Option<CommentV>,
    pub name: IdentV,
    pub typ: TypeV,
}

pub ghost struct FunctionV {
    pub pos: int,
    pub comment: Option<CommentV>,
    pub modifiers: ModifierSet,
    pub name: IdentV,
    pub params: Seq<FieldV>,
    pub results: Seq<FieldV>,
    pub body: Option<BodyV>,
}

pub ghost struct StructV {
    pub pos: int,
    pub comment: Option<CommentV>,
    pub name: IdentV,
    pub fields: Seq<FieldV>,
}

pub ghost struct NamespaceV {
    pub pos: int,
    pub comment: Option<CommentV>,
    pub name: IdentV,
    pub body: BodyV,
}

pub ghost enum ItemV {
    Function(FunctionV),
    Struct(StructV),
    Namespace(NamespaceV),
}

pub ghost struct BodyV {
    pub items: Seq<ItemV>,
}

pub ghost struct ModuleV {
    pub namespaces: Seq<NamespaceV>,
    pub trailing: Seq<Seq<char>>,
}

// ---------------------------------------------------------------------------
// Views from the executable nodes to the ghost nodes.
// ---------------------------------------------------------------------------

impl View for Identifier {
    type V = IdentV;

    open spec fn view(&self) -> IdentV {
        IdentV { pos: self.pos as int, text: self.text@ }
    }
}

impl View for Type {
    type V = TypeV;

    open spec fn view(&self) -> TypeV
        decreases self,
    {
        TypeV {
            pos: self.pos as int,
            kind: match self.kind {
                TypeKind::Base(b) => TypeKindV::Base(b),
                TypeKind::Arr(t) => TypeKindV::Arr(Box::new((*t)@)),
                TypeKind::Opt(t) => TypeKindV::Opt(Box::new((*t)@)),
                TypeKind::MapOf(k, v) => TypeKindV::MapOf(Box::new((*k)@), Box::new((*v)@)),
                TypeKind::User(n) => TypeKindV::User(n@),
            },
        }
    }
}

impl View for Comment {
    type V = CommentV;

    open spec fn view(&self) -> CommentV {
        CommentV { lines: self.lines@.map_values(|l: String| l@) }
    }
}

pub open spec fn view_comment_opt(c: Option<Comment>) -> Option<CommentV> {
    match c {
        Option::Some(c) => Option::Some(c@),
        Option::None => Option::None,
    }
}

impl View for Field {
    type V = FieldV;

    open spec fn view(&self) -> FieldV {
        FieldV {
            pos: self.pos as int,
            comment: view_comment_opt(self.comment),
            name: self.name@,
            typ: self.typ@,
        }
    }
}

pub open spec fn view_fields(v: Seq<Field>) -> Seq<FieldV> {
    v.map_values(|f: Field| f@)
}

impl View for FunctionDecl {
    type V = FunctionV;

    open spec fn view(&self) -> FunctionV
        decreases self,
    {
        FunctionV {
            pos: self.pos as int,
            comment: view_comment_opt(self.comment),
            modifiers: self.modifiers,
            name: self.name@,
            params: view_fields(self.params@),
            results: view_fields(self.results@),
            body: match self.body {
                Option::Some(b) => Option::Some(b@),
                Option::None => Option::None,
            },
        }
    }
}

impl View for StructDecl {
    type V = StructV;

    open spec fn view(&self) -> StructV {
        StructV {
            pos: self.pos as int,
            comment: view_comment_opt(self.comment),
            name: self.name@,
            fields: view_fields(self.fields@),
        }
    }
}

impl View for NamespaceDecl {
    type V = NamespaceV;

    open spec fn view(&self) -> NamespaceV
        decreases self,
    {
        NamespaceV {
            pos: self.pos as int,
            comment: view_comment_opt(self.comment),
            name: self.name@,
            body: self.body@,
        }
    }
}

impl View for NamespaceItem {
    type V = ItemV;

    open spec fn view(&self) -> ItemV
        decreases self,
    {
        match self {
            NamespaceItem::Function(f) => ItemV::Function(f@),
            NamespaceItem::Struct(s) => ItemV::Struct(s@),
            NamespaceItem::Namespace(n) => ItemV::Namespace(n@),
        }
    }
}

pub open spec fn view_items(s: Seq<NamespaceItem>) -> Seq<ItemV>
    decreases s,
{
    if s.len() == 0 {
        Seq::empty()
    } else {
        view_items(s.subrange(0, s.len() - 1)).push(s[s.len() - 1]@)
    }
}

/// Pointwise description of `view_items`.
pub proof fn lemma_view_items(s: Seq<NamespaceItem>)
    ensures
        view_items(s).len() == s.len(),
        forall|i: int| 0 <= i < s.len() ==> view_items(s)[i] == s[i]@,
    decreases s.len(),
{
    if s.len() > 0 {
        let pre = s.subrange(0, s.len() - 1);
        lemma_view_items(pre);
        assert(view_items(s) == view_items(pre).push(s[s.len() - 1]@));
        assert forall|i: int| 0 <= i < s.len() implies view_items(s)[i] == s[i]@ by {
            if i < s.len() - 1 {
                assert(pre[i] == s[i]);
            }
        }
    }
}

impl View for NamespaceBody {
    type V = BodyV;

    open spec fn view(&self) -> BodyV
        decreases self,
    {
        BodyV { items: view_items(self.items@) }
    }
}

impl View for Module {
    type V = ModuleV;

    open spec fn view(&self) -> ModuleV {
        ModuleV {
            namespaces: self.namespaces@.map_values(|n: NamespaceDecl| n@),
            trailing: self.trailing@.map_values(|l: String| l@),
        }
    }
}

// ---------------------------------------------------------------------------
// Cloning. Each clone returns a node whose view equals the original's, so
// that callers can reason about copies of subtrees.
// ---------------------------------------------------------------------------

impl Clone for Identifier {
    fn clone(&self) -> (r: Self)
        ensures
            r@ == self@,
    {
        Identifier { pos: self.pos, text: self.text.clone() }
    }
}

impl Clone for Comment {
    fn clone(&self) -> (r: Self)
        ensures
            r@ == self@,
    {
        let mut lines: Vec<String> = Vec::new();
        let mut i: usize = 0;
        while i < self.lines.len()
            invariant
                i <= self.lines.len(),
                lines@.len() == i,
                forall|k: int| 0 <= k < i ==> lines@[k]@ == self.lines@[k]@,
            decreases self.lines.len() - i,
        {
            lines.push(self.lines[i].clone());
            i += 1;
        }
        let r = Comment { lines };
        proof {
            assert(r@.lines =~= self@.lines);
        }
        r
    }
}

/// Clones an optional leading comment, preserving its view.
pub fn clone_comment_opt(c: &Option<Comment>) -> (r: Option<Comment>)
    ensures
        view_comment_opt(r) == view_comment_opt(*c),
{
    match c {
        Option::Some(c) => Option::Some(c.clone()),
        Option::None => Option::None,
    }
}

impl Clone for Type {
    fn clone(&self) -> (r: Self)
        ensures
            r@ == self@,
        decreases self,
    {
        Type {
            pos: self.pos,
            kind: match &self.kind {
                TypeKind::Base(b) => TypeKind::Base(*b),
                TypeKind::Arr(t) => TypeKind::Arr(Box::new((**t).clone())),
                TypeKind::Opt(t) => TypeKind::Opt(Box::new((**t).clone())),
                TypeKind::MapOf(k, v) => TypeKind::MapOf(
                    Box::new((**k).clone()),
                    Box::new((**v).clone()),
                ),
                TypeKind::User(n) => TypeKind::User(n.clone()),
            },
        }
    }
}

impl Clone for Field {
    fn clone(&self) -> (r: Self)
        ensures
            r@ == self@,
    {
        Field {
            pos: self.pos,
            comment: clone_comment_opt(&self.comment),
            name: self.name.clone(),
            typ: self.typ.clone(),
        }
    }
}

/// Clones a field list, preserving its view.
pub fn clone_fields(v: &Vec<Field>) -> (r: Vec<Field>)
    ensures
        view_fields(r@) == view_fields(v@),
{
    let mut out: Vec<Field> = Vec::new();
    let mut i: usize = 0;
    while i < v.len()
        invariant
            i <= v.len(),
            out@.len() == i,
            forall|k: int| 0 <= k < i ==> out@[k]@ == v@[k]@,
        decreases v.len() - i,
    {
        out.push(v[i].clone());
        i += 1;
    }
    proof {
        assert(view_fields(out@) =~= view_fields(v@));
    }
    out
}

impl Clone for FunctionDecl {
    fn clone(&self) -> (r: Self)
        ensures
            r@ == self@,
        decreases self,
    {
        FunctionDecl {
            pos: self.pos,
            comment: clone_comment_opt(&self.comment),
            modifiers: self.modifiers,
            name: self.name.clone(),
            params: clone_fields(&self.params),
            results: clone_fields(&self.results),
            body: match &self.body {
                Option::Some(b) => Option::Some(b.clone()),
                Option::None => Option::None,
            },
        }
    }
}

impl Clone for StructDecl {
    fn clone(&self) -> (r: Self)
        ensures
            r@ == self@,
    {
        StructDecl {
            pos: self.pos,
            comment: clone_comment_opt(&self.comment),
            name: self.name.clone(),
            fields: clone_fields(&self.fields),
        }
    }
}

impl Clone for NamespaceDecl {
    fn clone(&self) -> (r: Self)
        ensures
            r@ == self@,
        decreases self,
    {
        NamespaceDecl {
            pos: self.pos,
            comment: clone_comment_opt(&self.comment),
            name: self.name.clone(),
            body: self.body.clone(),
        }
    }
}

impl Clone for NamespaceItem {
    fn clone(&self) -> (r: Self)
        ensures
            r@ == self@,
        decreases self,
    {
        match self {
            NamespaceItem::Function(f) => NamespaceItem::Function(f.clone()),
            NamespaceItem::Struct(s) => NamespaceItem::Struct(s.clone()),
            NamespaceItem::Namespace(n) => NamespaceItem::Namespace(n.clone()),
        }
    }
}

impl Clone for NamespaceBody {
    fn clone(&self) -> (r: Self)
        ensures
            r@ == self@,
        decreases self,
    {
        broadcast use vstd::std_specs::vec::axiom_vec_index_decreases;

        let mut items: Vec<NamespaceItem> = Vec::new();
        let mut i: usize = 0;
        while i < self.items.len()
            invariant
                i <= self.items.len(),
                items@.len() == i,
                forall|k: int| 0 <= k < i ==> items@[k]@ == self.items@[k]@,
            decreases self.items.len() - i,
        {
            items.push(self.items[i].clone());
            i += 1;
        }
        let r = NamespaceBody { items };
        proof {
            lemma_view_items(items@);
            lemma_view_items(self.items@);
            assert(r@.items =~= self@.items);
        }
        r
    }
}

impl Clone for Module {
    fn clone(&self) -> (r: Self)
        ensures
            r@ == self@,
    {
        let mut namespaces: Vec<NamespaceDecl> = Vec::new();
        let mut i: usize = 0;
        while i < self.namespaces.len()
            invariant
                i <= self.namespaces.len(),
                namespaces@.len() == i,
                forall|k: int| 0 <= k < i ==> namespaces@[k]@ == self.namespaces@[k]@,
            decreases self.namespaces.len() - i,
        {
            namespaces.push(self.namespaces[i].clone());
            i += 1;
        }
        let mut trailing: Vec<String> = Vec::new();
        let mut j: usize = 0;
        while j < self.trailing.len()
            invariant
                j <= self.trailing.len(),
                trailing@.len() == j,
                forall|k: int| 0 <= k < j ==> trailing@[k]@ == self.trailing@[k]@,
            decreases self.trailing.len() - j,
        {
            trailing.push(self.trailing[j].clone());
            j += 1;
        }
        let r = Module { namespaces, trailing };
        proof {
            assert(r@.namespaces =~= self@.namespaces);
            assert(r@.trailing =~= self@.trailing);
        }
        r
    }
}

// ---------------------------------------------------------------------------
// Structural equivalence: equality of everything except source offsets.
// ---------------------------------------------------------------------------

pub open spec fn sim_ident(a: IdentV, b: IdentV) -> bool {
    a.text == b.text
}

pub open spec fn sim_type(a: TypeV, b: TypeV) -> bool
    decreases a,
{
    match (a.kind, b.kind) {
        (TypeKindV::Base(x), TypeKindV::Base(y)) => x == y,
        (TypeKindV::Arr(x), TypeKindV::Arr(y)) => sim_type(*x, *y),
        (TypeKindV::Opt(x), TypeKindV::Opt(y)) => sim_type(*x, *y),
        (TypeKindV::MapOf(xk, xv), TypeKindV::MapOf(yk, yv)) => sim_type(*xk, *yk) && sim_type(
            *xv,
            *yv,
        ),
        (TypeKindV::User(x), TypeKindV::User(y)) => x == y,
        _ => false,
    }
}

pub open spec fn sim_comment_opt(a: Option<CommentV>, b: Option<CommentV>) -> bool {
    match (a, b) {
        (Option::None, Option::None) => true,
        (Option::Some(x), Option::Some(y)) => x.lines == y.lines,
        _ => false,
    }
}

pub open spec fn sim_field(a: FieldV, b: FieldV) -> bool {
    &&& sim_comment_opt(a.comment, b.comment)
    &&& sim_ident(a.name, b.name)
    &&& sim_type(a.typ, b.typ)
}

pub open spec fn sim_fields(a: Seq<FieldV>, b: Seq<FieldV>) -> bool {
    a.len() == b.len() && forall|i: int| 0 <= i < a.len() ==> sim_field(a[i], b[i])
}

pub open spec fn sim_function(a: FunctionV, b: FunctionV) -> bool
    decreases a,
{
    &&& sim_comment_opt(a.comment, b.comment)
    &&& a.modifiers == b.modifiers
    &&& sim_ident(a.name, b.name)
    &&& sim_fields(a.params, b.params)
    &&& sim_fields(a.results, b.results)
    &&& match (a.body, b.body) {
        (Option::None, Option::None) => true,
        (Option::Some(x), Option::Some(y)) => sim_body(x, y),
        _ => false,
    }
}

pub open spec fn sim_struct(a: StructV, b: StructV) -> bool {
    &&& sim_comment_opt(a.comment, b.comment)
    &&& sim_ident(a.name, b.name)
    &&& sim_fields(a.fields, b.fields)
}

pub open spec fn sim_namespace(a: NamespaceV, b: NamespaceV) -> bool
    decreases a,
{
    &&& sim_comment_opt(a.comment, b.comment)
    &&& sim_ident(a.name, b.name)
    &&& sim_body(a.body, b.body)
}

pub open spec fn sim_item(a: ItemV, b: ItemV) -> bool
    decreases a,
{
    match (a, b) {
        (ItemV::Function(x), ItemV::Function(y)) => sim_function(x, y),
        (ItemV::Struct(x), ItemV::Struct(y)) => sim_struct(x, y),
        (ItemV::Namespace(x), ItemV::Namespace(y)) => sim_namespace(x, y),
        _ => false,
    }
}

pub open spec fn sim_body(a: BodyV, b: BodyV) -> bool
    decreases a,
{
    a.items.len() == b.items.len() && forall|i: int|
        0 <= i < a.items.len() ==> sim_item(a.items[i], b.items[i])
}

pub open spec fn sim_module(a: ModuleV, b: ModuleV) -> bool {
    &&& a.namespaces.len() == b.namespaces.len()
    &&& forall|i: int|
        0 <= i < a.namespaces.len() ==> sim_namespace(a.namespaces[i], b.namespaces[i])
    &&& a.trailing == b.trailing
}

} // verus!
