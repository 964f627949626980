use crate::ast::{
    clone_fields, view_comment_opt, view_fields, view_items, Comment, Field, FieldV, FunctionDecl,
    FunctionModifier, FunctionV, ItemV, NamespaceBody, NamespaceItem, StructDecl, StructV,
};
use crate::names::{snake_of, to_snake};
use crate::text::{join_with, lower_seq, lower_string, join_strings, view_strings};
use vstd::prelude::*;

verus! {

// ---------------------------------------------------------------------------
// The owned intermediate representation built once from a checked module
// before code generation. Each namespace holds its child namespaces, its
// functions and its structs; a function that declares a nested body owns
// the namespace that body forms. Every node carries the chain of names
// ("tokens") that identifies it, from which the wire method name, the
// qualified type path and the flattened variant identifier are derived.
// ---------------------------------------------------------------------------

/// Whether a function expects an answer.
#[derive(Clone, Copy, PartialEq, Eq, Structural, Debug)]
pub enum FunKind {
    Request,
    Notification,
}

/// Which of a function's two generated record types is meant.
#[derive(Clone, Copy, PartialEq, Eq, Structural, Debug)]
pub enum FunStructKind {
    Params,
    Results,
}

pub struct Namespace {
    name: String,
    children: Vec<Namespace>,
    funs: Vec<Fun>,
    strus: Vec<Stru>,
}

pub struct Fun {
    decl: FunctionDecl,
    tokens: Vec<String>,
    body: Option<Namespace>,
}

pub struct Stru {
    decl: StructDecl,
    full_name: String,
}

pub ghost struct IrNsV {
    pub name: Seq<char>,
    pub children: Seq<IrNsV>,
    pub funs: Seq<IrFunV>,
    pub strus: Seq<IrStruV>,
}

pub ghost struct IrFunV {
    pub decl: FunctionV,
    pub tokens: Seq<Seq<char>>,
    pub body: Option<Box<IrNsV>>,
}

pub ghost struct IrStruV {
    pub decl: StructV,
    pub full_name: Seq<char>,
}

impl View for Stru {
    type V = IrStruV;

    closed spec fn view(&self) -> IrStruV {
        IrStruV { decl: self.decl@, full_name: self.full_name@ }
    }
}

impl View for Fun {
    type V = IrFunV;

    closed spec fn view(&self) -> IrFunV
        decreases self,
    {
        IrFunV {
            decl: self.decl@,
            tokens: view_strings(self.tokens@),
            body: match self.body {
                Option::Some(b) => Option::Some(Box::new(b@)),
                Option::None => Option::None,
            },
        }
    }
}

pub open spec fn view_ns_list(s: Seq<Namespace>) -> Seq<IrNsV>
    decreases s,
{
    if s.len() == 0 {
        Seq::empty()
    } else {
        view_ns_list(s.subrange(0, s.len() - 1)).push(s[s.len() - 1]@)
    }
}

pub open spec fn view_fun_list(s: Seq<Fun>) -> Seq<IrFunV>
    decreases s,
{
    if s.len() == 0 {
        Seq::empty()
    } else {
        view_fun_list(s.subrange(0, s.len() - 1)).push(s[s.len() - 1]@)
    }
}

impl View for Namespace {
    type V = IrNsV;

    closed spec fn view(&self) -> IrNsV
        decreases self,
    {
        IrNsV {
            name: self.name@,
            children: view_ns_list(self.children@),
            funs: view_fun_list(self.funs@),
            strus: self.strus@.map_values(|s: Stru| s@),
        }
    }
}

/// Pointwise description of `view_ns_list`.
pub proof fn lemma_view_ns_list(s: Seq<Namespace>)
    ensures
        view_ns_list(s).len() == s.len(),
        forall|i: int| 0 <= i < s.len() ==> view_ns_list(s)[i] == s[i]@,
    decreases s.len(),
{
    if s.len() > 0 {
        let pre = s.subrange(0, s.len() - 1);
        lemma_view_ns_list(pre);
        assert(view_ns_list(s) == view_ns_list(pre).push(s[s.len() - 1]@));
        assert forall|i: int| 0 <= i < s.len() implies view_ns_list(s)[i] == s[i]@ by {
            if i < s.len() - 1 {
                assert(pre[i] == s[i]);
            }
        }
    }
}

/// Pointwise description of `view_fun_list`.
pub proof fn lemma_view_fun_list(s: Seq<Fun>)
    ensures
        view_fun_list(s).len() == s.len(),
        forall|i: int| 0 <= i < s.len() ==> view_fun_list(s)[i] == s[i]@,
    decreases s.len(),
{
    if s.len() > 0 {
        let pre = s.subrange(0, s.len() - 1);
        lemma_view_fun_list(pre);
        assert(view_fun_list(s) == view_fun_list(pre).push(s[s.len() - 1]@));
        assert forall|i: int| 0 <= i < s.len() implies view_fun_list(s)[i] == s[i]@ by {
            if i < s.len() - 1 {
                assert(pre[i] == s[i]);
            }
        }
    }
}

// ---------------------------------------------------------------------------
// What the builder produces, stated over the checked syntax tree.
// ---------------------------------------------------------------------------

/// The name of the synthetic root namespace; its own name contributes no
/// token to the chains of the nodes below it.
pub open spec fn root_marker() -> Seq<char> {
    seq!['<', 'r', 'o', 'o', 't', '>']
}

/// The functions built from `items`, in declaration order.
pub open spec fn build_funs(prefix: Seq<Seq<char>>, items: Seq<ItemV>) -> Seq<IrFunV>
    decreases items, 1int,
{
    if items.len() == 0 {
        Seq::empty()
    } else {
        (match items[0] {
            ItemV::Function(f) => seq![build_fun(prefix, f)],
            _ => Seq::empty(),
        }) + build_funs(prefix, items.drop_first())
    }
}

/// The function node built from one declaration: its token chain is the
/// enclosing chain plus its own name, and a declared body becomes its own
/// namespace.
pub open spec fn build_fun(prefix: Seq<Seq<char>>, f: FunctionV) -> IrFunV
    decreases f, 0int,
{
    IrFunV {
        decl: f,
        tokens: prefix.push(f.name.text),
        body: match f.body {
            Option::Some(b) => Option::Some(
                Box::new(build_ns_items(prefix, f.name.text, b.items)),
            ),
            Option::None => Option::None,
        },
    }
}

/// The structs built from `items`, in declaration order. A struct's full
/// name is its enclosing chain and its own name, dot-joined.
pub open spec fn build_strus(prefix: Seq<Seq<char>>, items: Seq<ItemV>) -> Seq<IrStruV>
    decreases items.len(),
{
    if items.len() == 0 {
        Seq::empty()
    } else {
        (match items[0] {
            ItemV::Struct(s) => seq![
                IrStruV { decl: s, full_name: join_with(prefix.push(s.name.text), "."@) },
            ],
            _ => Seq::empty(),
        }) + build_strus(prefix, items.drop_first())
    }
}

/// The child namespaces built from `items`, in declaration order.
pub open spec fn build_children(prefix: Seq<Seq<char>>, items: Seq<ItemV>) -> Seq<IrNsV>
    decreases items, 2int,
{
    if items.len() == 0 {
        Seq::empty()
    } else {
        (match items[0] {
            ItemV::Namespace(n) => seq![build_ns_items(prefix, n.name.text, n.body.items)],
            _ => Seq::empty(),
        }) + build_children(prefix, items.drop_first())
    }
}

/// The namespace named `name` built from `items`, inside the chain
/// `prefix`. The synthetic root contributes no token of its own.
pub open spec fn build_ns_items(prefix: Seq<Seq<char>>, name: Seq<char>, items: Seq<ItemV>) -> IrNsV
    decreases items, 3int,
{
    let chain = if name == root_marker() {
        Seq::<Seq<char>>::empty()
    } else {
        prefix.push(name)
    };
    IrNsV {
        name: name,
        children: build_children(chain, items),
        funs: build_funs(chain, items),
        strus: build_strus(chain, items),
    }
}

// ---------------------------------------------------------------------------
// Cloning, preserving views.
// ---------------------------------------------------------------------------

impl Clone for Stru {
    fn clone(&self) -> (r: Self)
        ensures
            r@ == self@,
    {
        Stru { decl: self.decl.clone(), full_name: self.full_name.clone() }
    }
}

impl Clone for Fun {
    fn clone(&self) -> (r: Self)
        ensures
            r@ == self@,
        decreases self,
    {
        Fun {
            decl: self.decl.clone(),
            tokens: clone_strings(&self.tokens),
            body: match &self.body {
                Option::Some(b) => Option::Some(b.clone()),
                Option::None => Option::None,
            },
        }
    }
}

impl Clone for Namespace {
    fn clone(&self) -> (r: Self)
        ensures
            r@ == self@,
        decreases self,
    {
        broadcast use vstd::std_specs::vec::axiom_vec_index_decreases;

        let mut children: Vec<Namespace> = Vec::new();
        let mut i: usize = 0;
        while i < self.children.len()
            invariant
                i <= self.children.len(),
                children@.len() == i,
                forall|k: int| 0 <= k < i ==> children@[k]@ == self.children@[k]@,
            decreases self.children.len() - i,
        {
            children.push(self.children[i].clone());
            i += 1;
        }
        let mut funs: Vec<Fun> = Vec::new();
        let mut j: usize = 0;
        while j < self.funs.len()
            invariant
                j <= self.funs.len(),
                funs@.len() == j,
                forall|k: int| 0 <= k < j ==> funs@[k]@ == self.funs@[k]@,
            decreases self.funs.len() - j,
        {
            funs.push(self.funs[j].clone());
            j += 1;
        }
        let mut strus: Vec<Stru> = Vec::new();
        let mut m: usize = 0;
        while m < self.strus.len()
            invariant
                m <= self.strus.len(),
                strus@.len() == m,
                forall|k: int| 0 <= k < m ==> strus@[k]@ == self.strus@[k]@,
            decreases self.strus.len() - m,
        {
            strus.push(self.strus[m].clone());
            m += 1;
        }
        let r = Namespace { name: self.name.clone(), children, funs, strus };
        proof {
            lemma_view_ns_list(r.children@);
            lemma_view_ns_list(self.children@);
            lemma_view_fun_list(r.funs@);
            lemma_view_fun_list(self.funs@);
            assert(view_ns_list(r.children@) =~= view_ns_list(self.children@));
            assert(view_fun_list(r.funs@) =~= view_fun_list(self.funs@));
            assert(r.strus@.map_values(|s: Stru| s@) =~= self.strus@.map_values(|s: Stru| s@));
        }
        r
    }
}

/// Clones a list of strings, preserving views.
pub fn clone_strings(v: &Vec<String>) -> (r: Vec<String>)
    ensures
        view_strings(r@) == view_strings(v@),
        r@.len() == v@.len(),
{
    let mut r: Vec<String> = Vec::new();
    let mut i: usize = 0;
    while i < v.len()
        invariant
            i <= v.len(),
            r@.len() == i,
            forall|k: int| 0 <= k < i ==> r@[k]@ == v@[k]@,
        decreases v.len() - i,
    {
        r.push(v[i].clone());
        i += 1;
    }
    proof {
        assert(view_strings(r@) =~= view_strings(v@));
    }
    r
}

// ---------------------------------------------------------------------------
// The builder.
// ---------------------------------------------------------------------------

/// Compares two strings character for character.
pub fn str_eq(a: &str, b: &str) -> (r: bool)
    ensures
        r == (a@ == b@),
{
    let na = a.unicode_len();
    let nb = b.unicode_len();
    if na != nb {
        proof {
            assert(a@ != b@);
        }
        return false;
    }
    let mut i: usize = 0;
    while i < na
        invariant
            na == a@.len(),
            na == b@.len(),
            i <= na,
            forall|k: int| 0 <= k < i ==> a@[k] == b@[k],
        decreases na - i,
    {
        if a.get_char(i) != b.get_char(i) {
            proof {
                assert(a@[i as int] != b@[i as int]);
            }
            return false;
        }
        i += 1;
    }
    proof {
        assert(a@ =~= b@);
    }
    true
}

/// Extending the considered items by one extends each built list by that
/// item's contribution.
proof fn lemma_build_take(prefix: Seq<Seq<char>>, items: Seq<ItemV>, i: int)
    requires
        0 < i <= items.len(),
    ensures
        build_funs(prefix, items.take(i)) == build_funs(prefix, items.take(i - 1)) + (
        match items[i - 1] {
            ItemV::Function(f) => seq![build_fun(prefix, f)],
            _ => Seq::<IrFunV>::empty(),
        }),
        build_strus(prefix, items.take(i)) == build_strus(prefix, items.take(i - 1)) + (
        match items[i - 1] {
            ItemV::Struct(s) => seq![
                IrStruV { decl: s, full_name: join_with(prefix.push(s.name.text), "."@) },
            ],
            _ => Seq::<IrStruV>::empty(),
        }),
        build_children(prefix, items.take(i)) == build_children(prefix, items.take(i - 1)) + (
        match items[i - 1] {
            ItemV::Namespace(n) => seq![build_ns_items(prefix, n.name.text, n.body.items)],
            _ => Seq::<IrNsV>::empty(),
        }),
    decreases i,
{
    if i == 1 {
        let t = items.take(1);
        assert(t.len() == 1);
        assert(t[0] == items[0]);
        assert(t.drop_first() =~= Seq::<ItemV>::empty());
        assert(items.take(0) =~= Seq::<ItemV>::empty());
        assert(build_funs(prefix, items.take(0)) + (match items[0] {
            ItemV::Function(f) => seq![build_fun(prefix, f)],
            _ => Seq::<IrFunV>::empty(),
        }) =~= build_funs(prefix, t));
        assert(build_strus(prefix, items.take(0)) + (match items[0] {
            ItemV::Struct(s) => seq![
                IrStruV { decl: s, full_name: join_with(prefix.push(s.name.text), "."@) },
            ],
            _ => Seq::<IrStruV>::empty(),
        }) =~= build_strus(prefix, t));
        assert(build_children(prefix, items.take(0)) + (match items[0] {
            ItemV::Namespace(n) => seq![build_ns_items(prefix, n.name.text, n.body.items)],
            _ => Seq::<IrNsV>::empty(),
        }) =~= build_children(prefix, t));
    } else {
        lemma_build_take(prefix, items.drop_first(), i - 1);
        assert(items.take(i).drop_first() =~= items.drop_first().take(i - 1));
        assert(items.take(i - 1).drop_first() =~= items.drop_first().take(i - 2));
        assert(items.drop_first()[i - 2] == items[i - 1]);
        assert(items.take(i)[0] == items[0]);
        assert(items.take(i - 1)[0] == items[0]);
        assert(items.take(i - 1).len() > 0);
    }
}

impl Fun {
    /// Builds the node for one function declaration enclosed by the chain
    /// `prefix`.
    pub fn new(prefix: &Vec<String>, decl: &FunctionDecl) -> (r: Fun)
        ensures
            r@ == build_fun(view_strings(prefix@), decl@),
        decreases decl,
    {
        let mut tokens = clone_strings(prefix);
        tokens.push(decl.name.text.clone());
        proof {
            assert(view_strings(tokens@) =~= view_strings(prefix@).push(decl@.name.text));
        }
        let body = match &decl.body {
            Option::Some(b) => Option::Some(
                Namespace::new_under(prefix, &decl.name.text, b),
            ),
            Option::None => Option::None,
        };
        Fun { decl: decl.clone(), tokens, body }
    }
}

impl Stru {
    /// Wraps one struct declaration together with its dotted full name.
    pub fn new(decl: &StructDecl, full_name: String) -> (r: Stru)
        ensures
            r@.decl == decl@,
            r@.full_name == full_name@,
    {
        Stru { decl: decl.clone(), full_name }
    }

    /// The comment attached to the declaration.
    pub fn comment(&self) -> (r: &Option<Comment>)
        ensures
            view_comment_opt(*r) == self@.decl.comment,
    {
        &self.decl.comment
    }

    /// The struct's local name.
    pub fn name(&self) -> (r: &str)
        ensures
            r@ == self@.decl.name.text,
    {
        self.decl.name.text.as_str()
    }

    /// The struct's fields, in declaration order.
    pub fn fields(&self) -> (r: &Vec<Field>)
        ensures
            view_fields(r@) == self@.decl.fields,
    {
        &self.decl.fields
    }
}

impl Namespace {
    /// Builds the tree for one namespace body. The name `<root>` marks the
    /// synthetic namespace around a whole schema; it contributes no token.
    pub fn new_under(prefix: &Vec<String>, name: &str, body: &NamespaceBody) -> (r: Namespace)
        ensures
            r@ == build_ns_items(view_strings(prefix@), name@, body@.items),
        decreases body,
    {
        broadcast use vstd::std_specs::vec::axiom_vec_index_decreases;

        let chain: Vec<String> = if str_eq(name, "<root>") {
            Vec::new()
        } else {
            let mut c = clone_strings(prefix);
            c.push(name.to_owned());
            c
        };
        proof {
            reveal_strlit("<root>");
            assert("<root>"@ =~= root_marker());
            if name@ == root_marker() {
                assert(view_strings(chain@) =~= Seq::<Seq<char>>::empty());
            } else {
                assert(view_strings(chain@) =~= view_strings(prefix@).push(name@));
            }
        }
        let ghost chain_v = if name@ == root_marker() {
            Seq::<Seq<char>>::empty()
        } else {
            view_strings(prefix@).push(name@)
        };
        let mut children: Vec<Namespace> = Vec::new();
        let mut funs: Vec<Fun> = Vec::new();
        let mut strus: Vec<Stru> = Vec::new();
        let mut i: usize = 0;
        while i < body.items.len()
            invariant
                i <= body.items.len(),
                view_strings(chain@) == chain_v,
                view_fun_list(funs@) == build_funs(chain_v, view_items(body.items@).take(i as int)),
                view_ns_list(children@) == build_children(
                    chain_v,
                    view_items(body.items@).take(i as int),
                ),
                strus@.map_values(|s: Stru| s@) == build_strus(
                    chain_v,
                    view_items(body.items@).take(i as int),
                ),
            decreases body.items.len() - i,
        {
            proof {
                crate::ast::lemma_view_items(body.items@);
            }
            let ghost funs0 = funs@;
            let ghost children0 = children@;
            let ghost strus0 = strus@;
            match &body.items[i] {
                NamespaceItem::Function(f) => {
                    funs.push(Fun::new(&chain, f));
                },
                NamespaceItem::Struct(s) => {
                    let mut full_chain = clone_strings(&chain);
                    full_chain.push(s.name.text.clone());
                    proof {
                        assert(view_strings(full_chain@) =~= chain_v.push(s@.name.text));
                    }
                    let full_name = join_strings(&full_chain, ".");
                    strus.push(Stru::new(s, full_name));
                },
                NamespaceItem::Namespace(n) => {
                    children.push(Namespace::new_under(&chain, &n.name.text, &n.body));
                },
            }
            i += 1;
            proof {
                lemma_build_take(chain_v, view_items(body.items@), i as int);
                lemma_view_fun_list(funs@);
                lemma_view_fun_list(funs0);
                lemma_view_ns_list(children@);
                lemma_view_ns_list(children0);
                assert(view_fun_list(funs@) =~= build_funs(
                    chain_v,
                    view_items(body.items@).take(i as int),
                ));
                assert(view_ns_list(children@) =~= build_children(
                    chain_v,
                    view_items(body.items@).take(i as int),
                ));
                assert(strus@.map_values(|s: Stru| s@) =~= build_strus(
                    chain_v,
                    view_items(body.items@).take(i as int),
                ));
            }
        }
        let r = Namespace { name: name.to_owned(), children, funs, strus };
        proof {
            crate::ast::lemma_view_items(body.items@);
            assert(view_items(body.items@).take(body.items@.len() as int) =~= view_items(
                body.items@,
            ));
        }
        r
    }

    /// Builds the tree for a whole schema, as the synthetic root namespace.
    pub fn new(body: &NamespaceBody) -> (r: Namespace)
        ensures
            r@ == build_ns_items(Seq::<Seq<char>>::empty(), root_marker(), body@.items),
    {
        let prefix: Vec<String> = Vec::new();
        proof {
            reveal_strlit("<root>");
            assert("<root>"@ =~= root_marker());
            assert(view_strings(prefix@) =~= Seq::<Seq<char>>::empty());
        }
        Namespace::new_under(&prefix, "<root>", body)
    }

    /// The namespace's local name.
    pub fn name(&self) -> (r: &str)
        ensures
            r@ == self@.name,
    {
        self.name.as_str()
    }

    /// The child namespaces, in declaration order.
    pub fn children(&self) -> (r: &Vec<Namespace>)
        ensures
            view_ns_list(r@) == self@.children,
    {
        &self.children
    }

    /// The structs declared here, in declaration order.
    pub fn strus(&self) -> (r: &Vec<Stru>)
        ensures
            r@.map_values(|s: Stru| s@) == self@.strus,
    {
        &self.strus
    }

    /// The functions declared directly here, in declaration order.
    pub fn local_funs(&self) -> (r: &Vec<Fun>)
        ensures
            view_fun_list(r@) == self@.funs,
    {
        &self.funs
    }
}

// ---------------------------------------------------------------------------
// Traversal: every function of a subtree, in one fixed order that every
// generator observes alike — child namespaces first, then the local
// functions, each followed by the functions of its own nested body.
// ---------------------------------------------------------------------------

pub open spec fn ir_ns_funs(n: IrNsV) -> Seq<IrFunV>
    decreases n, 3int,
{
    ir_funs_of_children(n.children) + ir_funs_of_funs(n.funs)
}

pub open spec fn ir_funs_of_children(cs: Seq<IrNsV>) -> Seq<IrFunV>
    decreases cs, 4int,
{
    if cs.len() == 0 {
        Seq::empty()
    } else {
        ir_ns_funs(cs[0]) + ir_funs_of_children(cs.drop_first())
    }
}

pub open spec fn ir_funs_of_funs(fs: Seq<IrFunV>) -> Seq<IrFunV>
    decreases fs, 2int,
{
    if fs.len() == 0 {
        Seq::empty()
    } else {
        ir_fun_funs(fs[0]) + ir_funs_of_funs(fs.drop_first())
    }
}

/// A function's own entry, then every function of its nested body.
pub open spec fn ir_fun_funs(f: IrFunV) -> Seq<IrFunV>
    decreases f, 5int,
{
    seq![f] + (match f.body {
        Option::Some(b) => ir_ns_funs(*b),
        Option::None => Seq::empty(),
    })
}

impl Fun {
    /// This function, then every function nested in its body, in the fixed
    /// traversal order.
    pub fn funs(&self) -> (r: Vec<Fun>)
        ensures
            view_fun_list(r@) == ir_fun_funs(self@),
        decreases self, 1int,
    {
        let mut r: Vec<Fun> = Vec::new();
        r.push(self.clone());
        let ghost r0 = r@;
        proof {
            lemma_view_fun_list(r@);
            assert(view_fun_list(r@) =~= seq![self@]);
        }
        match &self.body {
            Option::Some(b) => {
                let mut rest = b.funs();
                let ghost rest0 = rest@;
                r.append(&mut rest);
                proof {
                    lemma_view_fun_list(r@);
                    lemma_view_fun_list(r0);
                    lemma_view_fun_list(rest0);
                    assert(view_fun_list(r@) =~= seq![self@] + view_fun_list(rest0));
                }
                r
            },
            Option::None => {
                proof {
                    assert(view_fun_list(r@) =~= ir_fun_funs(self@));
                }
                r
            },
        }
    }

    /// The body namespace formed by this function's nested declarations,
    /// if it has any.
    pub fn body(&self) -> (r: &Option<Namespace>)
        ensures
            match r {
                Option::Some(b) => self@.body == Option::Some(Box::new(b@)),
                Option::None => self@.body is None,
            },
    {
        &self.body
    }
}

impl Namespace {
    /// Every function in this subtree, in the fixed traversal order.
    pub fn funs(&self) -> (r: Vec<Fun>)
        ensures
            view_fun_list(r@) == ir_ns_funs(self@),
        decreases self, 6int,
    {
        broadcast use vstd::std_specs::vec::axiom_vec_index_decreases;

        let mut r: Vec<Fun> = Vec::new();
        proof {
            lemma_view_fun_list(r@);
        }
        let mut i: usize = 0;
        while i < self.children.len()
            invariant
                i <= self.children.len(),
                view_fun_list(r@) == ir_funs_of_children(view_ns_list(self.children@).take(
                    i as int,
                )),
            decreases self.children.len() - i,
        {
            proof {
                lemma_view_ns_list(self.children@);
            }
            let ghost r0 = r@;
            let mut sub = self.children[i].funs();
            let ghost sub0 = sub@;
            r.append(&mut sub);
            i += 1;
            proof {
                lemma_funs_children_take(view_ns_list(self.children@), i as int);
                lemma_view_fun_list(r@);
                lemma_view_fun_list(r0);
                lemma_view_fun_list(sub0);
                assert(view_fun_list(r@) =~= view_fun_list(r0) + view_fun_list(sub0));
                assert(view_fun_list(r@) =~= ir_funs_of_children(
                    view_ns_list(self.children@).take(i as int),
                ));
            }
        }
        proof {
            lemma_view_ns_list(self.children@);
            assert(view_ns_list(self.children@).take(self.children@.len() as int) =~= view_ns_list(
                self.children@,
            ));
        }
        let mut j: usize = 0;
        while j < self.funs.len()
            invariant
                j <= self.funs.len(),
                view_fun_list(r@) == ir_funs_of_children(view_ns_list(self.children@))
                    + ir_funs_of_funs(view_fun_list(self.funs@).take(j as int)),
            decreases self.funs.len() - j,
        {
            proof {
                lemma_view_fun_list(self.funs@);
            }
            let ghost r0 = r@;
            let mut sub = self.funs[j].funs();
            let ghost sub0 = sub@;
            r.append(&mut sub);
            j += 1;
            proof {
                lemma_funs_funs_take(view_fun_list(self.funs@), j as int);
                lemma_view_fun_list(r@);
                lemma_view_fun_list(r0);
                lemma_view_fun_list(sub0);
                assert(view_fun_list(r@) =~= view_fun_list(r0) + view_fun_list(sub0));
                assert(view_fun_list(r@) =~= ir_funs_of_children(view_ns_list(self.children@))
                    + ir_funs_of_funs(view_fun_list(self.funs@).take(j as int)));
            }
        }
        proof {
            lemma_view_fun_list(self.funs@);
            assert(view_fun_list(self.funs@).take(self.funs@.len() as int) =~= view_fun_list(
                self.funs@,
            ));
        }
        r
    }
}

/// Extending the considered children by one appends that child's
/// functions.
proof fn lemma_funs_children_take(cs: Seq<IrNsV>, i: int)
    requires
        0 < i <= cs.len(),
    ensures
        ir_funs_of_children(cs.take(i)) == ir_funs_of_children(cs.take(i - 1)) + ir_ns_funs(
            cs[i - 1],
        ),
    decreases i,
{
    if i == 1 {
        let t = cs.take(1);
        assert(t[0] == cs[0]);
        assert(t.drop_first() =~= Seq::<IrNsV>::empty());
        assert(cs.take(0) =~= Seq::<IrNsV>::empty());
        assert(ir_funs_of_children(cs.take(0)) + ir_ns_funs(cs[0]) =~= ir_funs_of_children(t));
    } else {
        lemma_funs_children_take(cs.drop_first(), i - 1);
        assert(cs.take(i).drop_first() =~= cs.drop_first().take(i - 1));
        assert(cs.take(i - 1).drop_first() =~= cs.drop_first().take(i - 2));
        assert(cs.drop_first()[i - 2] == cs[i - 1]);
        assert(cs.take(i)[0] == cs[0]);
        assert(cs.take(i - 1)[0] == cs[0]);
        assert(cs.take(i - 1).len() > 0);
        assert((cs.take(i - 1) + seq![cs[i - 1]]).drop_first() =~= cs.take(i - 1).drop_first()
            + seq![cs[i - 1]]);
    }
}

/// Extending the considered functions by one appends that function's
/// subtree.
proof fn lemma_funs_funs_take(fs: Seq<IrFunV>, i: int)
    requires
        0 < i <= fs.len(),
    ensures
        ir_funs_of_funs(fs.take(i)) == ir_funs_of_funs(fs.take(i - 1)) + ir_fun_funs(fs[i - 1]),
    decreases i,
{
    if i == 1 {
        let t = fs.take(1);
        assert(t[0] == fs[0]);
        assert(t.drop_first() =~= Seq::<IrFunV>::empty());
        assert(fs.take(0) =~= Seq::<IrFunV>::empty());
        assert(ir_funs_of_funs(fs.take(0)) + ir_fun_funs(fs[0]) =~= ir_funs_of_funs(t));
    } else {
        lemma_funs_funs_take(fs.drop_first(), i - 1);
        assert(fs.take(i).drop_first() =~= fs.drop_first().take(i - 1));
        assert(fs.take(i - 1).drop_first() =~= fs.drop_first().take(i - 2));
        assert(fs.drop_first()[i - 2] == fs[i - 1]);
        assert(fs.take(i)[0] == fs[0]);
        assert(fs.take(i - 1)[0] == fs[0]);
        assert(fs.take(i - 1).len() > 0);
    }
}

// ---------------------------------------------------------------------------
// Name forms and record types of one function.
// ---------------------------------------------------------------------------

impl Fun {
    /// Whether the declaration carries the given modifier.
    pub fn has_modifier(&self, modif: FunctionModifier) -> (r: bool)
        ensures
            r == self@.decl.modifiers.spec_contains(modif),
    {
        self.decl.modifiers.contains(modif)
    }

    /// The dotted wire-level method name: the token chain joined with `.`.
    pub fn rpc_name(&self) -> (r: String)
        ensures
            r@ == join_with(self@.tokens, "."@),
    {
        join_strings(&self.tokens, ".")
    }

    /// The flattened variant identifier: the token chain joined with `__`,
    /// lowercased.
    pub fn variant(&self) -> (r: String)
        ensures
            r@ == lower_seq(join_with(self@.tokens, "__"@)),
    {
        let joined = join_strings(&self.tokens, "__");
        lower_string(joined.as_str())
    }

    /// The `::`-joined path of this function's generated module.
    pub fn qualified_name(&self) -> (r: String)
        ensures
            r@ == join_with(self@.tokens, "::"@),
    {
        join_strings(&self.tokens, "::")
    }

    /// The snake_case module name generated for this function.
    pub fn mod_name(&self) -> (r: String)
        ensures
            r@ == snake_of(self@.decl.name.text),
    {
        to_snake(self.decl.name.text.as_str())
    }

    /// Whether this function is a notification.
    pub fn is_notification(&self) -> (r: bool)
        ensures
            r == self@.decl.modifiers.notification,
    {
        self.decl.modifiers.contains(FunctionModifier::Notification)
    }

    /// Request or notification.
    pub fn kind(&self) -> (r: FunKind)
        ensures
            r == spec_fun_kind(self@),
    {
        if self.is_notification() {
            FunKind::Notification
        } else {
            FunKind::Request
        }
    }

    /// The comment attached to the declaration.
    pub fn comment(&self) -> (r: &Option<Comment>)
        ensures
            view_comment_opt(*r) == self@.decl.comment,
    {
        &self.decl.comment
    }

    /// The record type of this function's parameters.
    pub fn params(&self) -> (r: FunStruct)
        ensures
            r@ == spec_fun_struct(self@, FunStructKind::Params),
    {
        FunStruct {
            kind: FunStructKind::Params,
            fields: clone_fields(&self.decl.params),
            fun_variant: self.variant(),
            fun_qualified: self.qualified_name(),
        }
    }

    /// The record type of this function's results.
    pub fn results(&self) -> (r: FunStruct)
        ensures
            r@ == spec_fun_struct(self@, FunStructKind::Results),
    {
        FunStruct {
            kind: FunStructKind::Results,
            fields: clone_fields(&self.decl.results),
            fun_variant: self.variant(),
            fun_qualified: self.qualified_name(),
        }
    }
}

/// Request or notification, read off the modifiers.
pub open spec fn spec_fun_kind(f: IrFunV) -> FunKind {
    if f.decl.modifiers.notification {
        FunKind::Notification
    } else {
        FunKind::Request
    }
}

/// One of the two record types of one function, together with the name
/// forms of the function it belongs to.
pub struct FunStruct {
    pub kind: FunStructKind,
    pub fields: Vec<Field>,
    pub fun_variant: String,
    pub fun_qualified: String,
}

pub ghost struct FunStructV {
    pub kind: FunStructKind,
    pub fields: Seq<FieldV>,
    pub fun_variant: Seq<char>,
    pub fun_qualified: Seq<char>,
}

impl View for FunStruct {
    type V = FunStructV;

    open spec fn view(&self) -> FunStructV {
        FunStructV {
            kind: self.kind,
            fields: view_fields(self.fields@),
            fun_variant: self.fun_variant@,
            fun_qualified: self.fun_qualified@,
        }
    }
}

/// The record type a function generates for its parameters or results.
pub open spec fn spec_fun_struct(f: IrFunV, kind: FunStructKind) -> FunStructV {
    FunStructV {
        kind: kind,
        fields: if kind == FunStructKind::Params {
            f.decl.params
        } else {
            f.decl.results
        },
        fun_variant: lower_seq(join_with(f.tokens, "__"@)),
        fun_qualified: join_with(f.tokens, "::"@),
    }
}

/// The word naming one side of the record pair.
pub open spec fn spec_kind_word(kind: FunStructKind) -> Seq<char> {
    if kind == FunStructKind::Params {
        "Params"@
    } else {
        "Results"@
    }
}

impl FunStruct {
    /// The word naming this record: `Params` or `Results`.
    pub fn kind(&self) -> (r: &str)
        ensures
            r@ == spec_kind_word(self@.kind),
    {
        match self.kind {
            FunStructKind::Params => "Params",
            FunStructKind::Results => "Results",
        }
    }

    /// The tagged-union case that wraps this record, as `Kind::variant`.
    pub fn variant(&self) -> (r: String)
        ensures
            r@ == spec_kind_word(self@.kind) + "::"@ + self@.fun_variant,
    {
        let mut r = self.kind().to_owned();
        r.append("::");
        r.append(self.fun_variant.as_str());
        r
    }

    /// The full path of this record's type.
    pub fn qualified_type(&self) -> (r: String)
        ensures
            r@ == self@.fun_qualified + "::"@ + spec_kind_word(self@.kind),
    {
        let mut r = self.fun_qualified.clone();
        r.append("::");
        r.append(self.kind());
        r
    }

    /// Whether the record has no fields.
    pub fn is_empty(&self) -> (r: bool)
        ensures
            r == (self@.fields.len() == 0),
    {
        self.fields.len() == 0
    }

    /// The type callers name for this record: the unit type when it is
    /// empty, else its full path.
    pub fn short_type(&self) -> (r: String)
        ensures
            self@.fields.len() == 0 ==> r@ == "()"@,
            self@.fields.len() != 0 ==> r@ == self@.fun_qualified + "::"@ + spec_kind_word(
                self@.kind,
            ),
    {
        if self.is_empty() {
            "()".to_owned()
        } else {
            self.qualified_type()
        }
    }

    /// The record's fields.
    pub fn fields(&self) -> (r: &Vec<Field>)
        ensures
            view_fields(r@) == self@.fields,
    {
        &self.fields
    }

    /// The literal that builds an empty value of this record.
    pub fn empty_literal(&self) -> (r: String)
        ensures
            r@ == self@.fun_qualified + "::"@ + spec_kind_word(self@.kind) + " {}"@,
    {
        let mut r = self.qualified_type();
        r.append(" {}");
        r
    }
}

} // verus!
