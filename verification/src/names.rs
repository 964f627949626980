use crate::ast::{
    Field, FunctionDecl, FunctionV, NamespaceBody, NamespaceDecl, NamespaceItem, Side, StructDecl,
};
use crate::ast::{view_items, BodyV, ItemV};
use crate::text::{join_with, repeat_word, view_strings};
use vstd::prelude::*;

verus! {

// ---------------------------------------------------------------------------
// The naming layer. A `Stack` is the chain of enclosing declaration names,
// carried alongside a node as an `Anchored` value; every stable name form a
// generator needs — the dotted wire method name, the `::`-joined module
// path, the flattened variant identifier — is derived from it here, and
// nowhere else.
// ---------------------------------------------------------------------------

/// What kind of declaration a frame of the stack came from.
#[derive(Clone, Copy, PartialEq, Eq, Structural, Debug)]
pub enum FrameKind {
    Namespace,
    Function,
}

/// A declaration that can enclose others and contribute its name to the
/// chain of enclosing names.
pub trait Frame {
    spec fn spec_name(&self) -> Seq<char>;

    fn name(&self) -> (r: String)
        ensures
            r@ == self.spec_name(),
    ;

    fn kind(&self) -> FrameKind;
}

impl Frame for FunctionDecl {
    open spec fn spec_name(&self) -> Seq<char> {
        self.name.text@
    }

    fn name(&self) -> (r: String)
        ensures
            r@ == self.spec_name(),
    {
        self.name.text.clone()
    }

    fn kind(&self) -> FrameKind {
        FrameKind::Function
    }
}

impl Frame for NamespaceDecl {
    open spec fn spec_name(&self) -> Seq<char> {
        self.name.text@
    }

    fn name(&self) -> (r: String)
        ensures
            r@ == self.spec_name(),
    {
        self.name.text.clone()
    }

    fn kind(&self) -> FrameKind {
        FrameKind::Namespace
    }
}

/// The ordered names of the declarations enclosing some node, outermost
/// first.
pub struct Stack {
    frames: Vec<String>,
}

impl View for Stack {
    type V = Seq<Seq<char>>;

    closed spec fn view(&self) -> Seq<Seq<char>> {
        view_strings(self.frames@)
    }
}

impl Clone for Stack {
    fn clone(&self) -> (r: Self)
        ensures
            r@ == self@,
    {
        let mut frames: Vec<String> = Vec::new();
        let mut i: usize = 0;
        while i < self.frames.len()
            invariant
                i <= self.frames.len(),
                frames@.len() == i,
                forall|k: int| 0 <= k < i ==> frames@[k]@ == self.frames@[k]@,
            decreases self.frames.len() - i,
        {
            frames.push(self.frames[i].clone());
            i += 1;
        }
        let r = Stack { frames };
        proof {
            assert(r@ =~= self@);
        }
        r
    }
}

/// The path-escape prefix that leads from a scope this deep back to the
/// root of the generated tree: one `super::` per enclosing frame, plus one
/// for the scope itself.
pub open spec fn spec_root(stack: Seq<Seq<char>>) -> Seq<char> {
    repeat_word("super::"@, (stack.len() + 1) as nat)
}

impl Stack {
    /// The empty chain: a node anchored here is at the schema root.
    pub fn new() -> (r: Self)
        ensures
            r@ == Seq::<Seq<char>>::empty(),
    {
        let r = Stack { frames: Vec::new() };
        proof {
            assert(r@ =~= Seq::<Seq<char>>::empty());
        }
        r
    }

    /// This chain extended by one more enclosing declaration.
    pub fn push<F: Frame>(&self, frame: &F) -> (r: Self)
        ensures
            r@ == self@.push(frame.spec_name()),
    {
        let mut frames: Vec<String> = Vec::new();
        let mut i: usize = 0;
        while i < self.frames.len()
            invariant
                i <= self.frames.len(),
                frames@.len() == i,
                forall|k: int| 0 <= k < i ==> frames@[k]@ == self.frames@[k]@,
            decreases self.frames.len() - i,
        {
            frames.push(self.frames[i].clone());
            i += 1;
        }
        frames.push(frame.name());
        let r = Stack { frames };
        proof {
            assert(r@ =~= self@.push(frame.spec_name()));
        }
        r
    }

    /// Ties a node to this chain of enclosing names.
    pub fn anchor<T>(&self, inner: T) -> (r: Anchored<T>)
        ensures
            r.stack@ == self@,
            r.inner == inner,
    {
        Anchored { stack: self.clone(), inner }
    }

    /// The enclosing names, outermost first.
    pub fn names(&self) -> (r: Vec<String>)
        ensures
            view_strings(r@) == self@,
    {
        let mut r: Vec<String> = Vec::new();
        let mut i: usize = 0;
        while i < self.frames.len()
            invariant
                i <= self.frames.len(),
                r@.len() == i,
                forall|k: int| 0 <= k < i ==> r@[k]@ == self.frames@[k]@,
            decreases self.frames.len() - i,
        {
            r.push(self.frames[i].clone());
            i += 1;
        }
        proof {
            assert(view_strings(r@) =~= self@);
        }
        r
    }

    /// The chain joined with `::`, for diagnostics.
    pub fn trace(&self) -> (r: String)
        ensures
            r@ == join_with(self@, "::"@),
    {
        let names = self.names();
        crate::text::join_strings(&names, "::")
    }

    /// One `super::` step per enclosing scope, plus one.
    pub fn root(&self) -> (r: String)
        requires
            self@.len() < usize::MAX,
        ensures
            r@ == spec_root(self@),
    {
        crate::text::repeat_str("super::", self.frames.len() + 1)
    }

    /// The path of the generated `protocol` module as seen from a scope
    /// this deep.
    pub fn protocol(&self) -> (r: String)
        requires
            self@.len() < usize::MAX,
        ensures
            r@ == spec_root(self@) + "protocol"@,
    {
        let mut r = self.root();
        r.append("protocol");
        r
    }

    /// The path of the generated `schema` module as seen from a scope this
    /// deep.
    pub fn schema(&self) -> (r: String)
        requires
            self@.len() < usize::MAX,
        ensures
            r@ == spec_root(self@) + "schema"@,
    {
        let mut r = self.root();
        r.append("schema");
        r
    }
}

/// A node of the tree together with the chain of names enclosing it.
pub struct Anchored<T> {
    pub inner: T,
    pub stack: Stack,
}

/// The ghost counterpart of an `Anchored` node.
pub ghost struct AnchoredV<TV> {
    pub stack: Seq<Seq<char>>,
    pub inner: TV,
}

impl<T: View> View for Anchored<T> {
    type V = AnchoredV<T::V>;

    open spec fn view(&self) -> AnchoredV<T::V> {
        AnchoredV { stack: self.stack@, inner: self.inner@ }
    }
}

impl Clone for Anchored<FunctionDecl> {
    fn clone(&self) -> (r: Self)
        ensures
            r@ == self@,
    {
        Anchored { inner: self.inner.clone(), stack: self.stack.clone() }
    }
}

impl<T> Anchored<T> {
    /// The anchored node itself.
    pub fn inner(&self) -> (r: &T)
        ensures
            r == &self.inner,
    {
        &self.inner
    }

    /// The chain of enclosing names.
    pub fn stack(&self) -> (r: &Stack)
        ensures
            r == &self.stack,
    {
        &self.stack
    }
}

// ---------------------------------------------------------------------------
// Case conversion, through the heck crate. The exact letter-for-letter
// result of a conversion is named rather than spelled out: both generators
// below use the same name, which is what keeps the identifiers they derive
// from one chain equal to each other.
// ---------------------------------------------------------------------------

/// What heck's UpperCamelCase conversion returns for a string with these
/// characters.
pub uninterp spec fn upper_camel_of(s: Seq<char>) -> Seq<char>;

/// What heck's snake_case conversion returns for a string with these
/// characters.
pub uninterp spec fn snake_of(s: Seq<char>) -> Seq<char>;

/// Relies on heck's str::to_upper_camel_case: the result depends on the
/// characters of the input alone, and an empty input gives an empty result.
#[verifier::external_body]
pub(crate) fn to_upper_camel(s: &str) -> (r: String)
    ensures
        r@ == upper_camel_of(s@),
        s@.len() == 0 ==> r@.len() == 0,
{
    heck::ToUpperCamelCase::to_upper_camel_case(s)
}

/// Relies on heck's str::to_snake_case: the result depends on the
/// characters of the input alone, and an empty input gives an empty result.
#[verifier::external_body]
pub(crate) fn to_snake(s: &str) -> (r: String)
    ensures
        r@ == snake_of(s@),
        s@.len() == 0 ==> r@.len() == 0,
{
    heck::ToSnakeCase::to_snake_case(s)
}

// ---------------------------------------------------------------------------
// Name forms of an anchored function.
// ---------------------------------------------------------------------------

/// The full chain of names identifying an anchored function: the enclosing
/// names, then its own.
pub open spec fn spec_names(stack: Seq<Seq<char>>, f: FunctionV) -> Seq<Seq<char>> {
    stack.push(f.name.text)
}

/// The flattened tagged-union case identifier of a name chain: each name in
/// UpperCamelCase, joined with `_`.
pub open spec fn spec_variant(names: Seq<Seq<char>>) -> Seq<char> {
    join_with(names.map_values(|n: Seq<char>| upper_camel_of(n)), "_"@)
}

impl Anchored<FunctionDecl> {
    /// The name chain of this function, outermost first.
    pub fn names(&self) -> (r: Vec<String>)
        ensures
            view_strings(r@) == spec_names(self.stack@, self.inner@),
    {
        let mut r = self.stack.names();
        r.push(self.inner.name.text.clone());
        proof {
            assert(view_strings(r@) =~= spec_names(self.stack@, self.inner@));
        }
        r
    }

    /// The flattened variant identifier used as this function's case in the
    /// dispatch tagged-unions. Deriving it twice from the same chain gives
    /// the same characters.
    pub fn variant(&self) -> (r: String)
        ensures
            r@ == spec_variant(spec_names(self.stack@, self.inner@)),
    {
        let names = self.names();
        let mut camel: Vec<String> = Vec::new();
        let mut i: usize = 0;
        while i < names.len()
            invariant
                i <= names.len(),
                camel@.len() == i,
                forall|k: int| 0 <= k < i ==> camel@[k]@ == upper_camel_of(names@[k]@),
            decreases names.len() - i,
        {
            camel.push(to_upper_camel(names[i].as_str()));
            i += 1;
        }
        proof {
            assert(view_strings(camel@) =~= view_strings(names@).map_values(
                |n: Seq<char>| upper_camel_of(n),
            ));
        }
        crate::text::join_strings(&camel, "_")
    }

    /// The `::`-joined module path of this function's generated records.
    pub fn module(&self) -> (r: String)
        ensures
            r@ == join_with(spec_names(self.stack@, self.inner@), "::"@),
    {
        let names = self.names();
        crate::text::join_strings(&names, "::")
    }

    /// The dotted wire-level method name of this function.
    pub fn method(&self) -> (r: String)
        ensures
            r@ == join_with(spec_names(self.stack@, self.inner@), "."@),
    {
        let names = self.names();
        crate::text::join_strings(&names, ".")
    }

    /// The `__`-joined flat identifier of this function, used to name its
    /// registration slot.
    pub fn qualified_name(&self) -> (r: String)
        ensures
            r@ == join_with(spec_names(self.stack@, self.inner@), "__"@),
    {
        let names = self.names();
        crate::text::join_strings(&names, "__")
    }

    /// The function's own name.
    pub fn name(&self) -> (r: &str)
        ensures
            r@ == self.inner.name.text@,
    {
        self.inner.name.text.as_str()
    }
}

impl Anchored<StructDecl> {
    /// The struct's own name.
    pub fn name(&self) -> (r: &str)
        ensures
            r@ == self.inner.name.text@,
    {
        self.inner.name.text.as_str()
    }
}

impl Anchored<Field> {
    /// The field's own name.
    pub fn name(&self) -> (r: &str)
        ensures
            r@ == self.inner.name.text@,
    {
        self.inner.name.text.as_str()
    }
}

// ---------------------------------------------------------------------------
// Traversals. Each returns the visited functions in declaration order,
// anchored at their enclosing chain, and is specified by a recursive ghost
// traversal of the same shape.
// ---------------------------------------------------------------------------

/// The side a function is exposed on: `client` when tagged so, otherwise
/// `server`.
pub open spec fn spec_side(f: FunctionV) -> Side {
    if f.modifiers.client {
        Side::Client
    } else {
        Side::Server
    }
}

impl FunctionDecl {
    /// The side this function is exposed on.
    pub fn side(&self) -> (r: Side)
        ensures
            r == spec_side(self@),
    {
        if self.modifiers.client {
            Side::Client
        } else {
            Side::Server
        }
    }
}

/// The ghost views of a list of anchored functions.
pub open spec fn view_afuns(v: Seq<Anchored<FunctionDecl>>) -> Seq<AnchoredV<FunctionV>> {
    v.map_values(|a: Anchored<FunctionDecl>| a@)
}

/// The functions declared directly among `items`, anchored at `names`.
pub open spec fn direct_funs(items: Seq<ItemV>, names: Seq<Seq<char>>) -> Seq<
    AnchoredV<FunctionV>,
>
    decreases items.len(),
{
    if items.len() == 0 {
        Seq::empty()
    } else {
        (match items[0] {
            ItemV::Function(f) => seq![AnchoredV { stack: names, inner: f }],
            _ => Seq::empty(),
        }) + direct_funs(items.drop_first(), names)
    }
}

/// The ghost views of a list of anchored namespace bodies.
pub open spec fn view_abodies(v: Seq<Anchored<NamespaceBody>>) -> Seq<AnchoredV<BodyV>> {
    v.map_values(|a: Anchored<NamespaceBody>| a@)
}

/// The child namespaces declared directly among `items`, in declaration
/// order: each one's body, anchored one frame deeper than `names`.
pub open spec fn direct_namespaces(items: Seq<ItemV>, names: Seq<Seq<char>>) -> Seq<
    AnchoredV<BodyV>,
>
    decreases items.len(),
{
    if items.len() == 0 {
        Seq::empty()
    } else {
        (match items[0] {
            ItemV::Namespace(n) => seq![
                AnchoredV { stack: names.push(n.name.text), inner: n.body },
            ],
            _ => Seq::empty(),
        }) + direct_namespaces(items.drop_first(), names)
    }
}

/// Extending a prefix of the items by one extends its child namespaces by
/// that item's contribution.
proof fn lemma_direct_namespaces_take(items: Seq<ItemV>, names: Seq<Seq<char>>, i: int)
    requires
        0 < i <= items.len(),
    ensures
        direct_namespaces(items.take(i), names) == direct_namespaces(items.take(i - 1), names) + (
        match items[i - 1] {
            ItemV::Namespace(n) => seq![
                AnchoredV { stack: names.push(n.name.text), inner: n.body },
            ],
            _ => Seq::<AnchoredV<BodyV>>::empty(),
        }),
    decreases i,
{
    if i == 1 {
        let t = items.take(1);
        assert(t.len() == 1);
        assert(t[0] == items[0]);
        assert(t.drop_first() =~= Seq::<ItemV>::empty());
        assert(direct_namespaces(t.drop_first(), names) == Seq::<AnchoredV<BodyV>>::empty());
        assert(items.take(0) =~= Seq::<ItemV>::empty());
        assert(direct_namespaces(items.take(0), names) == Seq::<AnchoredV<BodyV>>::empty());
        assert(direct_namespaces(items.take(0), names) + (match items[0] {
            ItemV::Namespace(n) => seq![
                AnchoredV { stack: names.push(n.name.text), inner: n.body },
            ],
            _ => Seq::<AnchoredV<BodyV>>::empty(),
        }) =~= direct_namespaces(t, names));
    } else {
        lemma_direct_namespaces_take(items.drop_first(), names, i - 1);
        assert(items.take(i).drop_first() =~= items.drop_first().take(i - 1));
        assert(items.take(i - 1).drop_first() =~= items.drop_first().take(i - 2));
        assert(items.drop_first()[i - 2] == items[i - 1]);
        assert(items.take(i)[0] == items[0]);
        assert(items.take(i - 1)[0] == items[0]);
        assert(items.take(i - 1).len() > 0);
    }
}

/// Every function in the subtree of `items`, in declaration order; a
/// function's nested body is visited before the function itself.
pub open spec fn schema_funs_items(items: Seq<ItemV>, names: Seq<Seq<char>>) -> Seq<
    AnchoredV<FunctionV>,
>
    decreases items, 1int,
{
    if items.len() == 0 {
        Seq::empty()
    } else {
        schema_funs_item(items[0], names) + schema_funs_items(items.drop_first(), names)
    }
}

/// The functions contributed by one item to the schema traversal.
pub open spec fn schema_funs_item(it: ItemV, names: Seq<Seq<char>>) -> Seq<AnchoredV<FunctionV>>
    decreases it, 0int,
{
    match it {
        ItemV::Function(f) => (match f.body {
            Option::Some(b) => schema_funs_items(b.items, names.push(f.name.text)),
            Option::None => Seq::empty(),
        }) + seq![AnchoredV { stack: names, inner: f }],
        ItemV::Struct(_) => Seq::empty(),
        ItemV::Namespace(n) => schema_funs_items(n.body.items, names.push(n.name.text)),
    }
}

/// The functions exposed as an interface by `items`: those declared
/// directly or in child namespaces, but not those nested inside another
/// function's body.
pub open spec fn interface_funs_items(items: Seq<ItemV>, names: Seq<Seq<char>>) -> Seq<
    AnchoredV<FunctionV>,
>
    decreases items, 1int,
{
    if items.len() == 0 {
        Seq::empty()
    } else {
        (match items[0] {
            ItemV::Function(f) => seq![AnchoredV { stack: names, inner: f }],
            ItemV::Struct(_) => Seq::empty(),
            ItemV::Namespace(n) => interface_funs_items(n.body.items, names.push(n.name.text)),
        }) + interface_funs_items(items.drop_first(), names)
    }
}

fn schema_funs_of_items(items: &Vec<NamespaceItem>, idx: usize, stack: &Stack) -> (r: Vec<
    Anchored<FunctionDecl>,
>)
    requires
        idx <= items.len(),
    ensures
        view_afuns(r@) == schema_funs_items(view_items(items@).skip(idx as int), stack@),
    decreases items@, items.len() - idx, 2int,
{
    proof {
        crate::ast::lemma_view_items(items@);
    }
    if idx == items.len() {
        let r: Vec<Anchored<FunctionDecl>> = Vec::new();
        proof {
            assert(view_items(items@).skip(idx as int) =~= Seq::<ItemV>::empty());
            assert(view_afuns(r@) =~= Seq::<AnchoredV<FunctionV>>::empty());
        }
        r
    } else {
        let mut r = schema_funs_of_item(&items[idx], stack);
        let mut rest = schema_funs_of_items(items, idx + 1, stack);
        let ghost r0 = r@;
        let ghost rest0 = rest@;
        r.append(&mut rest);
        proof {
            let suffix = view_items(items@).skip(idx as int);
            assert(suffix.len() > 0);
            assert(suffix[0] == items@[idx as int]@);
            assert(suffix.drop_first() =~= view_items(items@).skip(idx + 1));
            assert(view_afuns(r@) =~= view_afuns(r0) + view_afuns(rest0));
        }
        r
    }
}

fn schema_funs_of_item(it: &NamespaceItem, stack: &Stack) -> (r: Vec<Anchored<FunctionDecl>>)
    ensures
        view_afuns(r@) == schema_funs_item(it@, stack@),
    decreases it, 0int, 0int,
{
    match it {
        NamespaceItem::Function(f) => {
            let mut r: Vec<Anchored<FunctionDecl>> = match &f.body {
                Option::Some(b) => {
                    let sub = stack.push(f);
                    schema_funs_of_items(&b.items, 0, &sub)
                },
                Option::None => {
                    let e: Vec<Anchored<FunctionDecl>> = Vec::new();
                    proof {
                        assert(view_afuns(e@) =~= Seq::<AnchoredV<FunctionV>>::empty());
                    }
                    e
                },
            };
            let ghost r0 = r@;
            r.push(stack.anchor(f.clone()));
            proof {
                if f.body is Some {
                    assert(view_items(f.body->Some_0.items@).skip(0) =~= view_items(
                        f.body->Some_0.items@,
                    ));
                }
                assert(view_afuns(r@) =~= view_afuns(r0) + seq![
                    AnchoredV { stack: stack@, inner: f@ },
                ]);
            }
            r
        },
        NamespaceItem::Struct(_) => {
            let r: Vec<Anchored<FunctionDecl>> = Vec::new();
            proof {
                assert(view_afuns(r@) =~= Seq::<AnchoredV<FunctionV>>::empty());
            }
            r
        },
        NamespaceItem::Namespace(n) => {
            let sub = stack.push(n);
            let r = schema_funs_of_items(&n.body.items, 0, &sub);
            proof {
                assert(view_items(n.body.items@).skip(0) =~= view_items(n.body.items@));
            }
            r
        },
    }
}

fn interface_funs_of_items(items: &Vec<NamespaceItem>, idx: usize, stack: &Stack) -> (r: Vec<
    Anchored<FunctionDecl>,
>)
    requires
        idx <= items.len(),
    ensures
        view_afuns(r@) == interface_funs_items(view_items(items@).skip(idx as int), stack@),
    decreases items@, items.len() - idx,
{
    proof {
        crate::ast::lemma_view_items(items@);
    }
    if idx == items.len() {
        let r: Vec<Anchored<FunctionDecl>> = Vec::new();
        proof {
            assert(view_items(items@).skip(idx as int) =~= Seq::<ItemV>::empty());
            assert(view_afuns(r@) =~= Seq::<AnchoredV<FunctionV>>::empty());
        }
        r
    } else {
        let mut r: Vec<Anchored<FunctionDecl>> = match &items[idx] {
            NamespaceItem::Function(f) => {
                let mut one: Vec<Anchored<FunctionDecl>> = Vec::new();
                one.push(stack.anchor(f.clone()));
                proof {
                    assert(view_afuns(one@) =~= seq![AnchoredV { stack: stack@, inner: f@ }]);
                }
                one
            },
            NamespaceItem::Struct(_) => {
                let e: Vec<Anchored<FunctionDecl>> = Vec::new();
                proof {
                    assert(view_afuns(e@) =~= Seq::<AnchoredV<FunctionV>>::empty());
                }
                e
            },
            NamespaceItem::Namespace(n) => {
                let sub = stack.push(n);
                let sr = interface_funs_of_items(&n.body.items, 0, &sub);
                proof {
                    assert(view_items(n.body.items@).skip(0) =~= view_items(n.body.items@));
                }
                sr
            },
        };
        let mut rest = interface_funs_of_items(items, idx + 1, stack);
        let ghost r0 = r@;
        let ghost rest0 = rest@;
        r.append(&mut rest);
        proof {
            let suffix = view_items(items@).skip(idx as int);
            assert(suffix.len() > 0);
            assert(suffix[0] == items@[idx as int]@);
            assert(suffix.drop_first() =~= view_items(items@).skip(idx + 1));
            assert(view_afuns(r@) =~= view_afuns(r0) + view_afuns(rest0));
        }
        r
    }
}

impl Anchored<NamespaceBody> {
    /// The functions declared directly in this body, in order.
    pub fn for_each_fun(&self) -> (r: Vec<Anchored<FunctionDecl>>)
        ensures
            view_afuns(r@) == direct_funs(self.inner@.items, self.stack@),
    {
        let mut r: Vec<Anchored<FunctionDecl>> = Vec::new();
        let mut i: usize = 0;
        while i < self.inner.items.len()
            invariant
                i <= self.inner.items.len(),
                view_afuns(r@) == direct_funs(
                    view_items(self.inner.items@).take(i as int),
                    self.stack@,
                ),
            decreases self.inner.items.len() - i,
        {
            proof {
                crate::ast::lemma_view_items(self.inner.items@);
            }
            let ghost r0 = r@;
            match &self.inner.items[i] {
                NamespaceItem::Function(f) => {
                    r.push(self.stack.anchor(f.clone()));
                },
                _ => {},
            }
            i += 1;
            proof {
                lemma_direct_funs_take(view_items(self.inner.items@), self.stack@, i as int);
                assert(view_afuns(r@) =~= direct_funs(
                    view_items(self.inner.items@).take(i as int),
                    self.stack@,
                ));
            }
        }
        proof {
            crate::ast::lemma_view_items(self.inner.items@);
            assert(view_items(self.inner.items@).take(self.inner.items@.len() as int) =~= view_items(
                self.inner.items@,
            ));
        }
        r
    }

    /// The child namespaces declared directly in this body, in order,
    /// each one's body anchored one frame deeper.
    pub fn for_each_namespace(&self) -> (r: Vec<Anchored<NamespaceBody>>)
        ensures
            view_abodies(r@) == direct_namespaces(self.inner@.items, self.stack@),
    {
        let mut r: Vec<Anchored<NamespaceBody>> = Vec::new();
        let mut i: usize = 0;
        while i < self.inner.items.len()
            invariant
                i <= self.inner.items.len(),
                view_abodies(r@) == direct_namespaces(
                    view_items(self.inner.items@).take(i as int),
                    self.stack@,
                ),
            decreases self.inner.items.len() - i,
        {
            proof {
                crate::ast::lemma_view_items(self.inner.items@);
            }
            let ghost r0 = r@;
            match &self.inner.items[i] {
                NamespaceItem::Namespace(n) => {
                    let sub = self.stack.push(n);
                    r.push(sub.anchor(n.body.clone()));
                },
                _ => {},
            }
            i += 1;
            proof {
                lemma_direct_namespaces_take(
                    view_items(self.inner.items@),
                    self.stack@,
                    i as int,
                );
                assert(view_abodies(r@) =~= direct_namespaces(
                    view_items(self.inner.items@).take(i as int),
                    self.stack@,
                ));
            }
        }
        proof {
            crate::ast::lemma_view_items(self.inner.items@);
            assert(view_items(self.inner.items@).take(self.inner.items@.len() as int)
                =~= view_items(self.inner.items@));
        }
        r
    }

    /// Every function in this subtree, nested ones included, in
    /// declaration order; a function's nested body comes before the
    /// function itself.
    pub fn for_each_fun_of_schema(&self) -> (r: Vec<Anchored<FunctionDecl>>)
        ensures
            view_afuns(r@) == schema_funs_items(self.inner@.items, self.stack@),
    {
        let r = schema_funs_of_items(&self.inner.items, 0, &self.stack);
        proof {
            assert(view_items(self.inner.items@).skip(0) =~= view_items(self.inner.items@));
        }
        r
    }

    /// The functions this subtree exposes as an interface: nested function
    /// bodies are not entered.
    pub fn for_each_fun_of_interface(&self) -> (r: Vec<Anchored<FunctionDecl>>)
        ensures
            view_afuns(r@) == interface_funs_items(self.inner@.items, self.stack@),
    {
        let r = interface_funs_of_items(&self.inner.items, 0, &self.stack);
        proof {
            assert(view_items(self.inner.items@).skip(0) =~= view_items(self.inner.items@));
        }
        r
    }
}

impl Anchored<FunctionDecl> {
    /// Every function nested inside this function's own body, in
    /// declaration order.
    pub fn for_each_fun_of_schema(&self) -> (r: Vec<Anchored<FunctionDecl>>)
        ensures
            view_afuns(r@) == match self.inner@.body {
                Option::Some(b) => schema_funs_items(b.items, self.stack@.push(
                    self.inner@.name.text,
                )),
                Option::None => Seq::<AnchoredV<FunctionV>>::empty(),
            },
    {
        match &self.inner.body {
            Option::Some(b) => {
                let sub = self.stack.push(&self.inner);
                let r = schema_funs_of_items(&b.items, 0, &sub);
                proof {
                    assert(view_items(b.items@).skip(0) =~= view_items(b.items@));
                }
                r
            },
            Option::None => {
                let r: Vec<Anchored<FunctionDecl>> = Vec::new();
                proof {
                    assert(view_afuns(r@) =~= Seq::<AnchoredV<FunctionV>>::empty());
                }
                r
            },
        }
    }
}

/// Extending a prefix of the items by one extends its direct functions by
/// that item's contribution.
proof fn lemma_direct_funs_take(items: Seq<ItemV>, names: Seq<Seq<char>>, i: int)
    requires
        0 < i <= items.len(),
    ensures
        direct_funs(items.take(i), names) == direct_funs(items.take(i - 1), names) + (
        match items[i - 1] {
            ItemV::Function(f) => seq![AnchoredV { stack: names, inner: f }],
            _ => Seq::<AnchoredV<FunctionV>>::empty(),
        }),
    decreases i,
{
    if i == 1 {
        let t = items.take(1);
        assert(t.len() == 1);
        assert(t[0] == items[0]);
        assert(t.drop_first() =~= Seq::<ItemV>::empty());
        assert(direct_funs(t.drop_first(), names) == Seq::<AnchoredV<FunctionV>>::empty());
        assert(items.take(0) =~= Seq::<ItemV>::empty());
        assert(direct_funs(items.take(0), names) == Seq::<AnchoredV<FunctionV>>::empty());
        assert(direct_funs(t, names) =~= (match items[0] {
            ItemV::Function(f) => seq![AnchoredV { stack: names, inner: f }],
            _ => Seq::<AnchoredV<FunctionV>>::empty(),
        }));
        assert(direct_funs(items.take(0), names) + (match items[0] {
            ItemV::Function(f) => seq![AnchoredV { stack: names, inner: f }],
            _ => Seq::<AnchoredV<FunctionV>>::empty(),
        }) =~= (match items[0] {
            ItemV::Function(f) => seq![AnchoredV { stack: names, inner: f }],
            _ => Seq::<AnchoredV<FunctionV>>::empty(),
        }));
    } else {
        lemma_direct_funs_take(items.drop_first(), names, i - 1);
        assert(items.take(i).drop_first() =~= items.drop_first().take(i - 1));
        assert(items.take(i - 1).drop_first() =~= items.drop_first().take(i - 2));
        assert(items.drop_first()[i - 2] == items[i - 1]);
    }
}

// ---------------------------------------------------------------------------
// Filters over anchored functions.
// ---------------------------------------------------------------------------

/// The anchored functions whose declaration is exposed on `side`.
pub open spec fn spec_filter_side(fs: Seq<AnchoredV<FunctionV>>, side: Side) -> Seq<
    AnchoredV<FunctionV>,
> {
    fs.filter(|a: AnchoredV<FunctionV>| spec_side(a.inner) == side)
}

/// Keeps the functions exposed on `side`, in order.
pub fn filter_fun_side(side: Side, funs: Vec<Anchored<FunctionDecl>>) -> (r: Vec<
    Anchored<FunctionDecl>,
>)
    ensures
        view_afuns(r@) == spec_filter_side(view_afuns(funs@), side),
{
    let mut r: Vec<Anchored<FunctionDecl>> = Vec::new();
    let mut i: usize = 0;
    while i < funs.len()
        invariant
            i <= funs.len(),
            view_afuns(r@) == spec_filter_side(view_afuns(funs@).take(i as int), side),
        decreases funs.len() - i,
    {
        let ghost r0 = r@;
        let keep = funs[i].inner.side();
        if keep == side {
            r.push(funs[i].clone());
        }
        i += 1;
        proof {
            reveal(Seq::filter);
            assert(view_afuns(funs@).take(i as int).drop_last() =~= view_afuns(funs@).take(
                i - 1,
            ));
            assert(view_afuns(funs@).take(i as int).last() == funs@[i - 1]@);
            assert(view_afuns(r@) =~= spec_filter_side(view_afuns(funs@).take(i as int), side));
        }
    }
    proof {
        assert(view_afuns(funs@).take(funs@.len() as int) =~= view_afuns(funs@));
    }
    r
}

/// Keeps exactly the functions on which the given test returns true, once
/// each and in their given order. The ghost result names, for each kept
/// function, the position it was taken from: the positions are strictly
/// increasing, each kept function is the one at its position with the test
/// answering true there, and the test answered false at every position not
/// named.
pub fn filter_funs<P: Fn(&Anchored<FunctionDecl>) -> bool>(
    predicate: P,
    funs: Vec<Anchored<FunctionDecl>>,
) -> (r: (Vec<Anchored<FunctionDecl>>, Ghost<Seq<int>>))
    requires
        forall|x: &Anchored<FunctionDecl>| #[trigger] call_requires(predicate, (x,)),
    ensures
        r.1@.len() == r.0@.len(),
        forall|j: int| 0 <= j < r.1@.len() ==> 0 <= #[trigger] r.1@[j] < funs@.len(),
        forall|j: int| 0 < j < r.1@.len() ==> r.1@[j - 1] < #[trigger] r.1@[j],
        forall|j: int| 0 <= j < r.1@.len() ==> (#[trigger] r.0@[j])@ == funs@[r.1@[j]]@,
        forall|j: int|
            0 <= j < r.1@.len() ==> call_ensures(predicate, (&funs@[#[trigger] r.1@[j]],), true),
        forall|m: int|
            0 <= m < funs@.len() && !r.1@.contains(m) ==> call_ensures(
                predicate,
                (&funs@[m],),
                false,
            ),
{
    let mut kept: Vec<Anchored<FunctionDecl>> = Vec::new();
    let ghost mut idx: Seq<int> = Seq::empty();
    let mut i: usize = 0;
    while i < funs.len()
        invariant
            i <= funs.len(),
            forall|x: &Anchored<FunctionDecl>| #[trigger] call_requires(predicate, (x,)),
            idx.len() == kept@.len(),
            forall|j: int| 0 <= j < idx.len() ==> 0 <= #[trigger] idx[j] < i,
            forall|j: int| 0 < j < idx.len() ==> idx[j - 1] < #[trigger] idx[j],
            forall|j: int| 0 <= j < idx.len() ==> (#[trigger] kept@[j])@ == funs@[idx[j]]@,
            forall|j: int|
                0 <= j < idx.len() ==> call_ensures(predicate, (&funs@[#[trigger] idx[j]],), true),
            forall|m: int|
                0 <= m < i && !idx.contains(m) ==> call_ensures(predicate, (&funs@[m],), false),
        decreases funs.len() - i,
    {
        let ghost idx0 = idx;
        let verdict = predicate(&funs[i]);
        if verdict {
            kept.push(funs[i].clone());
            proof {
                idx = idx.push(i as int);
            }
        }
        i += 1;
        proof {
            if verdict {
                assert forall|m: int| 0 <= m < i && !idx.contains(m) implies call_ensures(
                    predicate,
                    (&funs@[m],),
                    false,
                ) by {
                    assert(idx[idx.len() - 1] == i - 1);
                    if m < i - 1 {
                        assert forall|j: int| 0 <= j < idx0.len() && idx0[j] == m implies false
                            by {
                            assert(idx[j] == m);
                        }
                        assert(!idx0.contains(m));
                    }
                }
            } else {
                assert forall|j: int|
                    0 <= j < idx.len() && #[trigger] idx[j] == i - 1 implies false by {}
                assert(!idx.contains(i - 1));
            }
        }
    }
    (kept, Ghost(idx))
}

} // verus!
