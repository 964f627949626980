use crate::ast::{FunctionV, NamespaceBody, Side};
use crate::emit::{block_rendered, braced, Scope};
use crate::names::{
    interface_funs_items, spec_filter_side, spec_names, spec_root, view_afuns, Anchored, AnchoredV,
};
use crate::text::{join_with, lower_seq};
use vstd::prelude::*;

verus! {

// ---------------------------------------------------------------------------
// The handler generator: for one side of the interface it renders the
// registration surface — a call context type, the slot type aliases, a
// handler struct with one optional slot per function, and one registration
// method per function whose adapter matches the incoming parameter case,
// turns a wrong case into `WrongParams`, and wraps the callback's result
// into the matching results case.
// ---------------------------------------------------------------------------

/// The `__`-joined flat identifier of a name chain, naming its slot.
pub open spec fn chain_qfn(names: Seq<Seq<char>>) -> Seq<char> {
    join_with(names, "__"@)
}

/// The tagged-union case identifier the dispatch unions use for a name
/// chain. It is exactly the identifier the protocol generator renders, so
/// the adapter below matches the case that union defines.
pub open spec fn chain_variant(names: Seq<Seq<char>>) -> Seq<char> {
    lower_seq(join_with(names, "__"@))
}

/// The path of the protocol module as seen from the handler's scope.
pub open spec fn proto_path(stack: Seq<Seq<char>>) -> Seq<char> {
    spec_root(stack) + "protocol"@
}

/// The call context type: the shared state handle, a client handle for
/// outbound calls, and the typed parameters.
pub open spec fn call_text() -> Seq<char> {
    block_rendered(
        "pub struct Call<T, PP>"@,
        "pub state: std::sync::Arc<T>,\npub client: Client,\npub params: PP,\n"@,
    ) + "\n"@
}

/// The slot type aliases of one handler scope.
pub open spec fn slot_text(stack: Seq<Seq<char>>) -> Seq<char> {
    "pub type SlotReturn = Result<"@ + proto_path(stack) + "::Results, lavish_rpc::Error>;\n"@
        + "pub type SlotFn<T> = Fn(std::sync::Arc<T>, Client, "@ + proto_path(stack)
        + "::Params) -> SlotReturn + 'static + Send + Sync;\n"@
        + "pub type Slot<T> = Option<Box<SlotFn<T>>>;\n"@
}

/// The body of one registration method: it stores an adapter that matches
/// the incoming case, treats any other case as `WrongParams`, builds the
/// call context, and wraps the callback's result in the matching results
/// case.
pub open spec fn on_body_text(stack: Seq<Seq<char>>, names: Seq<Seq<char>>) -> Seq<char> {
    "self.on_"@ + chain_qfn(names) + " = Some(Box::new(\n"@ + crate::emit::indent_lines(
        block_rendered(
            "|state, client, params|"@,
            block_rendered(
                "let params = match params"@,
                proto_path(stack) + "::Params::"@ + chain_variant(names) + "(p) => p,\n"@
                    + "_ => return Err(lavish_rpc::Error::WrongParams),\n"@,
            ) + "let call = Call { state, client, params };\n"@ + "f(call).map("@ + proto_path(
                stack,
            ) + "::Results::"@ + chain_variant(names) + ")\n"@,
        ),
    ) + "));\n"@
}

/// One slot field of the handler struct.
pub open spec fn slot_field_line(names: Seq<Seq<char>>) -> Seq<char> {
    "on_"@ + chain_qfn(names) + ": Slot<T>,\n"@
}

/// The slot fields of all functions, in order.
pub open spec fn slot_fields(fs: Seq<AnchoredV<FunctionV>>) -> Seq<char>
    decreases fs.len(),
{
    if fs.len() == 0 {
        Seq::empty()
    } else {
        slot_field_line(spec_names(fs[0].stack, fs[0].inner)) + slot_fields(fs.drop_first())
    }
}

/// The head of one registration method, generic over the callback.
pub open spec fn on_prefix_text(stack: Seq<Seq<char>>, names: Seq<Seq<char>>) -> Seq<char> {
    "pub fn on_"@ + chain_qfn(names) + "<F>(&mut self, f: F)\nwhere\n    F: Fn(Call<T, "@
        + spec_root(stack) + "schema::"@ + join_with(names, "::"@) + "::Params>) -> Result<"@
        + spec_root(stack) + "schema::"@ + join_with(names, "::"@)
        + "::Results, lavish_rpc::Error> + Send + Sync + 'static"@
}

/// One whole registration method.
pub open spec fn on_method_text(stack: Seq<Seq<char>>, names: Seq<Seq<char>>) -> Seq<char> {
    block_rendered(on_prefix_text(stack, names), on_body_text(stack, names))
}

/// The registration methods of all functions, in order.
pub open spec fn on_methods(stack: Seq<Seq<char>>, fs: Seq<AnchoredV<FunctionV>>) -> Seq<char>
    decreases fs.len(),
{
    if fs.len() == 0 {
        Seq::empty()
    } else {
        on_method_text(stack, spec_names(fs[0].stack, fs[0].inner)) + on_methods(
            stack,
            fs.drop_first(),
        )
    }
}

/// The handler struct and its implementation block.
pub open spec fn handler_text(stack: Seq<Seq<char>>, fs: Seq<AnchoredV<FunctionV>>) -> Seq<char> {
    block_rendered(
        "pub struct Handler<T>"@,
        "state: std::sync::Arc<T>,\n"@ + slot_fields(fs),
    ) + "\n"@ + block_rendered("impl<T> Handler<T>"@, on_methods(stack, fs)) + "\n"@
}

/// Extending the considered functions by one extends the rendered field
/// and method lists by that function's text.
proof fn lemma_handler_take(stack: Seq<Seq<char>>, fs: Seq<AnchoredV<FunctionV>>, i: int)
    requires
        0 < i <= fs.len(),
    ensures
        slot_fields(fs.take(i)) == slot_fields(fs.take(i - 1)) + slot_field_line(
            spec_names(fs[i - 1].stack, fs[i - 1].inner),
        ),
        on_methods(stack, fs.take(i)) == on_methods(stack, fs.take(i - 1)) + on_method_text(
            stack,
            spec_names(fs[i - 1].stack, fs[i - 1].inner),
        ),
    decreases i,
{
    if i == 1 {
        let t = fs.take(1);
        assert(t[0] == fs[0]);
        assert(t.drop_first() =~= Seq::<AnchoredV<FunctionV>>::empty());
        assert(fs.take(0) =~= Seq::<AnchoredV<FunctionV>>::empty());
        assert(slot_fields(fs.take(0)) + slot_field_line(spec_names(fs[0].stack, fs[0].inner))
            =~= slot_fields(t));
        assert(on_methods(stack, fs.take(0)) + on_method_text(
            stack,
            spec_names(fs[0].stack, fs[0].inner),
        ) =~= on_methods(stack, t));
    } else {
        lemma_handler_take(stack, fs.drop_first(), i - 1);
        assert(fs.take(i).drop_first() =~= fs.drop_first().take(i - 1));
        assert(fs.take(i - 1).drop_first() =~= fs.drop_first().take(i - 2));
        assert(fs.drop_first()[i - 2] == fs[i - 1]);
        assert(fs.take(i)[0] == fs[0]);
        assert(fs.take(i - 1)[0] == fs[0]);
        assert(fs.take(i - 1).len() > 0);
        assert(slot_field_line(spec_names(fs[0].stack, fs[0].inner)) + (slot_fields(
            fs.drop_first().take(i - 2),
        ) + slot_field_line(spec_names(fs[i - 1].stack, fs[i - 1].inner))) =~= (slot_field_line(
            spec_names(fs[0].stack, fs[0].inner),
        ) + slot_fields(fs.drop_first().take(i - 2))) + slot_field_line(
            spec_names(fs[i - 1].stack, fs[i - 1].inner),
        ));
        assert(on_method_text(stack, spec_names(fs[0].stack, fs[0].inner)) + (on_methods(
            stack,
            fs.drop_first().take(i - 2),
        ) + on_method_text(stack, spec_names(fs[i - 1].stack, fs[i - 1].inner))) =~= (
        on_method_text(stack, spec_names(fs[0].stack, fs[0].inner)) + on_methods(
            stack,
            fs.drop_first().take(i - 2),
        )) + on_method_text(stack, spec_names(fs[i - 1].stack, fs[i - 1].inner)));
    }
}

/// The registration surface of one side of the interface.
pub struct Handler {
    pub side: Side,
    pub body: Anchored<NamespaceBody>,
}

impl Handler {
    /// The functions this handler registers: those of the interface that
    /// are exposed on its side, in declaration order.
    pub fn for_each_fun(&self) -> (r: Vec<Anchored<crate::ast::FunctionDecl>>)
        ensures
            view_afuns(r@) == spec_filter_side(
                interface_funs_items(self.body.inner@.items, self.body.stack@),
                self.side,
            ),
    {
        let all = self.body.for_each_fun_of_interface();
        crate::names::filter_fun_side(self.side, all)
    }

    /// Renders the call context type.
    pub fn define_call(&self, s: &mut Scope)
        ensures
            final(s)@ == old(s)@ + call_text(),
    {
        let b = braced(
            "pub struct Call<T, PP>",
            "pub state: std::sync::Arc<T>,\npub client: Client,\npub params: PP,\n",
        );
        s.write(b.as_str());
        s.lf();
    }

    /// Renders the slot type aliases.
    pub fn define_slot(&self, s: &mut Scope)
        requires
            self.body.stack@.len() < usize::MAX,
        ensures
            final(s)@ == old(s)@ + slot_text(self.body.stack@),
    {
        let proto = self.body.stack.protocol();
        let mut t = String::from_str("pub type SlotReturn = Result<");
        t.append(proto.as_str());
        t.append("::Results, lavish_rpc::Error>;\n");
        t.append("pub type SlotFn<T> = Fn(std::sync::Arc<T>, Client, ");
        t.append(proto.as_str());
        t.append("::Params) -> SlotReturn + 'static + Send + Sync;\n");
        t.append("pub type Slot<T> = Option<Box<SlotFn<T>>>;\n");
        proof {
            assert(t@ =~= slot_text(self.body.stack@));
        }
        s.write(t.as_str());
    }

    /// Renders the body of one registration method: the stored adapter.
    pub fn write_on_body(&self, s: &mut Scope, f: &Anchored<crate::ast::FunctionDecl>)
        requires
            self.body.stack@.len() < usize::MAX,
        ensures
            final(s)@ == old(s)@ + on_body_text(
                self.body.stack@,
                spec_names(f.stack@, f.inner@),
            ),
    {
        let proto = self.body.stack.protocol();
        let names = f.names();
        let qfn = crate::text::join_strings(&names, "__");
        let variant = crate::text::lower_string(qfn.as_str());
        let mut arms = String::from_str("");
        arms.append(proto.as_str());
        arms.append("::Params::");
        arms.append(variant.as_str());
        arms.append("(p) => p,\n");
        arms.append("_ => return Err(lavish_rpc::Error::WrongParams),\n");
        let ghost names_v = spec_names(f.stack@, f.inner@);
        proof {
            reveal_strlit("");
            assert(arms@ =~= proto_path(self.body.stack@) + "::Params::"@ + chain_variant(
                names_v,
            ) + "(p) => p,\n"@ + "_ => return Err(lavish_rpc::Error::WrongParams),\n"@);
        }
        let matched = braced("let params = match params", arms.as_str());
        let mut inner = matched;
        inner.append("let call = Call { state, client, params };\n");
        inner.append("f(call).map(");
        inner.append(proto.as_str());
        inner.append("::Results::");
        inner.append(variant.as_str());
        inner.append(")\n");
        let closure = braced("|state, client, params|", inner.as_str());
        let indented = crate::emit::indent_text(closure.as_str());
        let mut t = String::from_str("self.on_");
        t.append(qfn.as_str());
        t.append(" = Some(Box::new(\n");
        t.append(indented.as_str());
        t.append("));\n");
        proof {
            assert(t@ =~= on_body_text(self.body.stack@, names_v));
        }
        s.write(t.as_str());
    }

    /// Renders the handler struct and its registration methods.
    #[verifier::rlimit(60)]
    pub fn define_handler(&self, s: &mut Scope)
        requires
            self.body.stack@.len() < usize::MAX,
        ensures
            final(s)@ == old(s)@ + handler_text(
                self.body.stack@,
                spec_filter_side(
                    interface_funs_items(self.body.inner@.items, self.body.stack@),
                    self.side,
                ),
            ),
    {
        let funs = self.for_each_fun();
        let ghost fs = spec_filter_side(
            interface_funs_items(self.body.inner@.items, self.body.stack@),
            self.side,
        );
        let mut fields = String::from_str("state: std::sync::Arc<T>,\n");
        let mut methods = String::new();
        let mut i: usize = 0;
        proof {
            assert(view_afuns(funs@) == fs);
        }
        while i < funs.len()
            invariant
                i <= funs.len(),
                view_afuns(funs@) == fs,
                fields@ == "state: std::sync::Arc<T>,\n"@ + slot_fields(fs.take(i as int)),
                methods@ == on_methods(self.body.stack@, fs.take(i as int)),
                self.body.stack@.len() < usize::MAX,
            decreases funs.len() - i,
        {
            let f = &funs[i];
            let names = f.names();
            let qfn = crate::text::join_strings(&names, "__");
            let ghost names_v = spec_names(funs@[i as int]@.stack, funs@[i as int]@.inner);
            proof {
                assert(view_afuns(funs@)[i as int] == funs@[i as int]@);
                assert(fs[i as int] == funs@[i as int]@);
            }
            let ghost fields0 = fields@;
            fields.append("on_");
            fields.append(qfn.as_str());
            fields.append(": Slot<T>,\n");
            let modpath = crate::text::join_strings(&names, "::");
            let root = self.body.stack.root();
            let mut prefix = String::from_str("pub fn on_");
            prefix.append(qfn.as_str());
            prefix.append("<F>(&mut self, f: F)\nwhere\n    F: Fn(Call<T, ");
            prefix.append(root.as_str());
            prefix.append("schema::");
            prefix.append(modpath.as_str());
            prefix.append("::Params>) -> Result<");
            prefix.append(root.as_str());
            prefix.append("schema::");
            prefix.append(modpath.as_str());
            prefix.append("::Results, lavish_rpc::Error> + Send + Sync + 'static");
            proof {
                assert(prefix@ =~= on_prefix_text(self.body.stack@, names_v));
            }
            let mut body_scope = Scope::new();
            self.write_on_body(&mut body_scope, f);
            let body_text = body_scope.into_string();
            proof {
                assert(body_text@ =~= on_body_text(self.body.stack@, names_v));
            }
            let method = braced(prefix.as_str(), body_text.as_str());
            let ghost methods0 = methods@;
            methods.append(method.as_str());
            i += 1;
            proof {
                lemma_handler_take(self.body.stack@, fs, i as int);
                assert(fields@ =~= fields0 + slot_field_line(names_v));
                assert(fields@ =~= "state: std::sync::Arc<T>,\n"@ + slot_fields(
                    fs.take(i as int),
                ));
                assert(methods@ =~= methods0 + on_method_text(self.body.stack@, names_v));
                assert(methods@ =~= on_methods(self.body.stack@, fs.take(i as int)));
            }
        }
        proof {
            assert(fs.take(fs.len() as int) =~= fs);
        }
        let struct_block = braced("pub struct Handler<T>", fields.as_str());
        let impl_block = braced("impl<T> Handler<T>", methods.as_str());
        let mut t = struct_block;
        t.append("\n");
        t.append(impl_block.as_str());
        t.append("\n");
        proof {
            assert(t@ =~= handler_text(self.body.stack@, fs));
        }
        s.write(t.as_str());
    }

    /// Renders the whole registration surface of this side.
    pub fn render(&self) -> (r: String)
        requires
            self.body.stack@.len() < usize::MAX,
        ensures
            r@ == call_text() + slot_text(self.body.stack@) + handler_text(
                self.body.stack@,
                spec_filter_side(
                    interface_funs_items(self.body.inner@.items, self.body.stack@),
                    self.side,
                ),
            ),
    {
        let mut s = Scope::new();
        self.define_call(&mut s);
        self.define_slot(&mut s);
        self.define_handler(&mut s);
        s.into_string()
    }
}

} // verus!
