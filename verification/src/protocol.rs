use crate::emit::{block_rendered, braced, fn_rendered, _fn, _FnV};
use crate::ir::{view_fun_list, Fun, FunKind, IrFunV};
use crate::text::{join_with, lower_seq, repeat_word};
use vstd::prelude::*;

verus! {

// ---------------------------------------------------------------------------
// The protocol generator: for one scope it renders the three dispatch
// tagged-unions — request parameters, request results, notification
// parameters — with one case per function of the matching kind, a
// method-name lookup returning the function's dotted wire name, and a
// deserializer that tries each case in declaration order and accepts the
// first that matches.
// ---------------------------------------------------------------------------

/// The flattened variant identifier of a function node.
pub open spec fn fun_variant(f: IrFunV) -> Seq<char> {
    lower_seq(join_with(f.tokens, "__"@))
}

/// The `::`-joined path of a function node.
pub open spec fn fun_qualified(f: IrFunV) -> Seq<char> {
    join_with(f.tokens, "::"@)
}

/// The dotted wire method name of a function node.
pub open spec fn fun_rpc_name(f: IrFunV) -> Seq<char> {
    join_with(f.tokens, "."@)
}

/// The functions of the given kind, in order.
pub open spec fn funs_of_kind(fs: Seq<IrFunV>, kind: FunKind) -> Seq<IrFunV> {
    fs.filter(|f: IrFunV| crate::ir::spec_fun_kind(f) == kind)
}

/// One case of the tagged union: the variant wrapping the function's
/// record type at the given depth.
pub open spec fn atom_case_line(f: IrFunV, name: Seq<char>, depth: nat) -> Seq<char> {
    fun_variant(f) + "("@ + repeat_word("super::"@, depth) + fun_qualified(f) + "::"@ + name
        + "),\n"@
}

/// The case list of the tagged union.
pub open spec fn atom_cases(fs: Seq<IrFunV>, name: Seq<char>, depth: nat) -> Seq<char>
    decreases fs.len(),
{
    if fs.len() == 0 {
        Seq::empty()
    } else {
        atom_case_line(fs[0], name, depth) + atom_cases(fs.drop_first(), name, depth)
    }
}

/// One arm of the method-name lookup: the case mapped to its quoted wire
/// name.
pub open spec fn atom_arm_line(f: IrFunV, name: Seq<char>) -> Seq<char> {
    name + "::"@ + fun_variant(f) + "(_) => \""@ + fun_rpc_name(f) + "\",\n"@
}

/// The arm list of the method-name lookup.
pub open spec fn atom_arms(fs: Seq<IrFunV>, name: Seq<char>) -> Seq<char>
    decreases fs.len(),
{
    if fs.len() == 0 {
        Seq::empty()
    } else {
        atom_arm_line(fs[0], name) + atom_arms(fs.drop_first(), name)
    }
}

/// One attempt of the shape-directed deserializer: the case's record type
/// is tried, and the first structurally valid match is accepted.
pub open spec fn atom_try_line(f: IrFunV, name: Seq<char>, depth: nat) -> Seq<char> {
    "if let Ok(v) = "@ + repeat_word("super::"@, depth) + fun_qualified(f) + "::"@ + name
        + "::deserialize(value.clone()) {\n    return Ok("@ + name + "::"@ + fun_variant(f)
        + "(v));\n}\n"@
}

/// The attempt list of the shape-directed deserializer, in declaration
/// order.
pub open spec fn atom_tries(fs: Seq<IrFunV>, name: Seq<char>, depth: nat) -> Seq<char>
    decreases fs.len(),
{
    if fs.len() == 0 {
        Seq::empty()
    } else {
        atom_try_line(fs[0], name, depth) + atom_tries(fs.drop_first(), name, depth)
    }
}

/// The attribute lines every tagged union carries.
pub open spec fn atom_attrs() -> Seq<char> {
    "#[derive(Debug, lavish_rpc::serde_derive::Serialize)]\n"@
        + "#[allow(non_camel_case_types, unused)]\n"@ + "#[serde(untagged)]\n"@
}

/// The whole tagged union: its attributes, its cases, and its
/// implementation of the method-name lookup and the shape-directed
/// deserializer.
pub open spec fn atom_text(fs: Seq<IrFunV>, name: Seq<char>, depth: nat) -> Seq<char> {
    atom_attrs() + block_rendered("pub enum "@ + name, atom_cases(fs, name, depth))
        + block_rendered(
        "impl lavish_rpc::Atom for "@ + name,
        fn_rendered(
            _FnV {
                kw_pub: false,
                kw_async: false,
                self_arg: Option::Some("&self"@),
                name: "method"@,
                ret: Option::Some("&'static str"@),
                body: Option::Some(block_rendered("match self"@, atom_arms(fs, name))),
            },
        ) + fn_rendered(
            _FnV {
                kw_pub: false,
                kw_async: false,
                self_arg: Option::None,
                name: "deserialize"@,
                ret: Option::Some("erased_serde::Result<Self>"@),
                body: Option::Some(
                    atom_tries(fs, name, depth)
                        + "Err(lavish_rpc::Error::UnrecognizedShape)\n"@,
                ),
            },
        ),
    )
}

/// Extending the considered functions by one extends each rendered list by
/// that function's line.
proof fn lemma_atom_take(fs: Seq<IrFunV>, name: Seq<char>, depth: nat, i: int)
    requires
        0 < i <= fs.len(),
    ensures
        atom_cases(fs.take(i), name, depth) == atom_cases(fs.take(i - 1), name, depth)
            + atom_case_line(fs[i - 1], name, depth),
        atom_arms(fs.take(i), name) == atom_arms(fs.take(i - 1), name) + atom_arm_line(
            fs[i - 1],
            name,
        ),
        atom_tries(fs.take(i), name, depth) == atom_tries(fs.take(i - 1), name, depth)
            + atom_try_line(fs[i - 1], name, depth),
    decreases i,
{
    if i == 1 {
        let t = fs.take(1);
        assert(t[0] == fs[0]);
        assert(t.drop_first() =~= Seq::<IrFunV>::empty());
        assert(fs.take(0) =~= Seq::<IrFunV>::empty());
        assert(atom_cases(fs.take(0), name, depth) + atom_case_line(fs[0], name, depth)
            =~= atom_cases(t, name, depth));
        assert(atom_arms(fs.take(0), name) + atom_arm_line(fs[0], name) =~= atom_arms(t, name));
        assert(atom_tries(fs.take(0), name, depth) + atom_try_line(fs[0], name, depth)
            =~= atom_tries(t, name, depth));
    } else {
        lemma_atom_take(fs.drop_first(), name, depth, i - 1);
        assert(fs.take(i).drop_first() =~= fs.drop_first().take(i - 1));
        assert(fs.take(i - 1).drop_first() =~= fs.drop_first().take(i - 2));
        assert(fs.drop_first()[i - 2] == fs[i - 1]);
        assert(fs.take(i)[0] == fs[0]);
        assert(fs.take(i - 1)[0] == fs[0]);
        assert(fs.take(i - 1).len() > 0);
        assert(atom_case_line(fs[0], name, depth) + (atom_cases(
            fs.drop_first().take(i - 2),
            name,
            depth,
        ) + atom_case_line(fs[i - 1], name, depth)) =~= (atom_case_line(fs[0], name, depth)
            + atom_cases(fs.drop_first().take(i - 2), name, depth)) + atom_case_line(
            fs[i - 1],
            name,
            depth,
        ));
        assert(atom_arm_line(fs[0], name) + (atom_arms(fs.drop_first().take(i - 2), name)
            + atom_arm_line(fs[i - 1], name)) =~= (atom_arm_line(fs[0], name) + atom_arms(
            fs.drop_first().take(i - 2),
            name,
        )) + atom_arm_line(fs[i - 1], name));
        assert(atom_try_line(fs[0], name, depth) + (atom_tries(
            fs.drop_first().take(i - 2),
            name,
            depth,
        ) + atom_try_line(fs[i - 1], name, depth)) =~= (atom_try_line(fs[0], name, depth)
            + atom_tries(fs.drop_first().take(i - 2), name, depth)) + atom_try_line(
            fs[i - 1],
            name,
            depth,
        ));
    }
}

/// One dispatch tagged-union to be rendered: its name, the kind of
/// function it collects, and how deep in the module tree it stands.
pub struct Atom {
    pub name: String,
    pub kind: FunKind,
    pub depth: usize,
}

impl Atom {
    /// The functions this union collects: those of its kind, in order.
    pub fn funs(&self, all: &Vec<Fun>) -> (r: Vec<Fun>)
        ensures
            view_fun_list(r@) == funs_of_kind(view_fun_list(all@), self.kind),
    {
        let mut r: Vec<Fun> = Vec::new();
        let mut i: usize = 0;
        proof {
            crate::ir::lemma_view_fun_list(r@);
        }
        while i < all.len()
            invariant
                i <= all.len(),
                view_fun_list(r@) == funs_of_kind(view_fun_list(all@).take(i as int), self.kind),
            decreases all.len() - i,
        {
            proof {
                crate::ir::lemma_view_fun_list(all@);
            }
            let ghost r0 = r@;
            let k = all[i].kind();
            if k == self.kind {
                r.push(all[i].clone());
            }
            i += 1;
            proof {
                reveal(Seq::filter);
                crate::ir::lemma_view_fun_list(r@);
                crate::ir::lemma_view_fun_list(r0);
                assert(view_fun_list(all@).take(i as int).drop_last() =~= view_fun_list(
                    all@,
                ).take(i - 1));
                assert(view_fun_list(all@).take(i as int).last() == all@[i - 1]@);
                assert(view_fun_list(r@) =~= funs_of_kind(
                    view_fun_list(all@).take(i as int),
                    self.kind,
                ));
            }
        }
        proof {
            crate::ir::lemma_view_fun_list(all@);
            assert(view_fun_list(all@).take(all@.len() as int) =~= view_fun_list(all@));
        }
        r
    }

    /// The path-escape prefix back to the module root from this depth.
    pub fn root(&self) -> (r: String)
        ensures
            r@ == repeat_word("super::"@, self.depth as nat),
    {
        crate::text::repeat_str("super::", self.depth)
    }

    /// Renders this tagged union over the functions in scope.
    #[verifier::rlimit(50)]
    pub fn render(&self, all: &Vec<Fun>) -> (r: String)
        ensures
            r@ == atom_text(
                funs_of_kind(view_fun_list(all@), self.kind),
                self.name@,
                self.depth as nat,
            ),
    {
        let funs = self.funs(all);
        let ghost fs = funs_of_kind(view_fun_list(all@), self.kind);
        let mut cases = String::new();
        let mut arms = String::new();
        let mut tries = String::new();
        let mut i: usize = 0;
        proof {
            crate::ir::lemma_view_fun_list(funs@);
        }
        while i < funs.len()
            invariant
                i <= funs.len(),
                view_fun_list(funs@) == fs,
                cases@ == atom_cases(fs.take(i as int), self.name@, self.depth as nat),
                arms@ == atom_arms(fs.take(i as int), self.name@),
                tries@ == atom_tries(fs.take(i as int), self.name@, self.depth as nat),
            decreases funs.len() - i,
        {
            proof {
                crate::ir::lemma_view_fun_list(funs@);
            }
            let f = &funs[i];
            let variant = f.variant();
            let qualified = f.qualified_name();
            let rpc = f.rpc_name();
            let root = self.root();
            let ghost cases0 = cases@;
            cases.append(variant.as_str());
            cases.append("(");
            cases.append(root.as_str());
            cases.append(qualified.as_str());
            cases.append("::");
            cases.append(self.name.as_str());
            cases.append("),\n");
            let ghost arms0 = arms@;
            arms.append(self.name.as_str());
            arms.append("::");
            arms.append(variant.as_str());
            arms.append("(_) => \"");
            arms.append(rpc.as_str());
            arms.append("\",\n");
            let ghost tries0 = tries@;
            tries.append("if let Ok(v) = ");
            tries.append(root.as_str());
            tries.append(qualified.as_str());
            tries.append("::");
            tries.append(self.name.as_str());
            tries.append("::deserialize(value.clone()) {\n    return Ok(");
            tries.append(self.name.as_str());
            tries.append("::");
            tries.append(variant.as_str());
            tries.append("(v));\n}\n");
            i += 1;
            proof {
                lemma_atom_take(fs, self.name@, self.depth as nat, i as int);
                assert(cases@ =~= cases0 + atom_case_line(fs[i - 1], self.name@,
                    self.depth as nat));
                assert(arms@ =~= arms0 + atom_arm_line(fs[i - 1], self.name@));
                assert(tries@ =~= tries0 + atom_try_line(fs[i - 1], self.name@,
                    self.depth as nat));
            }
        }
        proof {
            assert(fs.take(fs.len() as int) =~= fs);
        }
        let mut out = String::from_str(
            "#[derive(Debug, lavish_rpc::serde_derive::Serialize)]\n",
        );
        out.append("#[allow(non_camel_case_types, unused)]\n");
        out.append("#[serde(untagged)]\n");
        proof {
            assert(out@ =~= atom_attrs());
        }
        let mut enum_prefix = String::from_str("pub enum ");
        enum_prefix.append(self.name.as_str());
        let enum_block = braced(enum_prefix.as_str(), cases.as_str());
        out.append(enum_block.as_str());
        let method_fn = _fn("method").self_param("&self").returning("&'static str").body(
            braced("match self", arms.as_str()),
        );
        let mut impl_body = method_fn.render();
        let mut des_body = tries;
        des_body.append("Err(lavish_rpc::Error::UnrecognizedShape)\n");
        let des_fn = _fn("deserialize").returning("erased_serde::Result<Self>").body(des_body);
        let des_text = des_fn.render();
        impl_body.append(des_text.as_str());
        let mut impl_prefix = String::from_str("impl lavish_rpc::Atom for ");
        impl_prefix.append(self.name.as_str());
        let impl_block = braced(impl_prefix.as_str(), impl_body.as_str());
        out.append(impl_block.as_str());
        proof {
            assert(out@ =~= atom_text(fs, self.name@, self.depth as nat));
        }
        out
    }
}

/// The whole protocol module of one scope: the three dispatch
/// tagged-unions, one after another.
pub open spec fn protocol_text(fs: Seq<IrFunV>, depth: nat) -> Seq<char> {
    block_rendered(
        "pub mod protocol"@,
        atom_text(funs_of_kind(fs, FunKind::Request), "Params"@, depth + 1) + "\n"@ + atom_text(
            funs_of_kind(fs, FunKind::Request),
            "Results"@,
            depth + 1,
        ) + "\n"@ + atom_text(
            funs_of_kind(fs, FunKind::Notification),
            "NotificationParams"@,
            depth + 1,
        ),
    )
}

/// The functions in scope for one protocol module, and its depth in the
/// generated tree.
pub struct Protocol {
    pub funs: Vec<Fun>,
    pub depth: usize,
}

impl Protocol {
    /// Renders the protocol module: `Params`, `Results` and
    /// `NotificationParams`, each with one case per function of its kind.
    pub fn render(&self) -> (r: String)
        requires
            self.depth < usize::MAX,
        ensures
            r@ == protocol_text(view_fun_list(self.funs@), self.depth as nat),
    {
        let a1 = Atom {
            name: String::from_str("Params"),
            kind: FunKind::Request,
            depth: self.depth + 1,
        };
        let a2 = Atom {
            name: String::from_str("Results"),
            kind: FunKind::Request,
            depth: self.depth + 1,
        };
        let a3 = Atom {
            name: String::from_str("NotificationParams"),
            kind: FunKind::Notification,
            depth: self.depth + 1,
        };
        let t1 = a1.render(&self.funs);
        let t2 = a2.render(&self.funs);
        let t3 = a3.render(&self.funs);
        let mut body = t1;
        body.append("\n");
        body.append(t2.as_str());
        body.append("\n");
        body.append(t3.as_str());
        braced("pub mod protocol", body.as_str())
    }
}

} // verus!
