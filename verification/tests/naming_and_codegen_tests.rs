use lavish::ast::{NamespaceItem, Side};
use lavish::dispatch::{Case, DispatchError, HandlerTable, SlotHandler};
use lavish::ir::FunKind;
use lavish::names::Stack;
use lavish::emit::WriteTo;
use lavish::parser::parse;
use std::cell::Cell as StdCell;
use std::rc::Rc;

fn chars(s: &str) -> Vec<char> {
    s.chars().collect()
}

fn module_of(s: &str) -> lavish::ast::Module {
    parse(&chars(s)).expect("schema should parse")
}

fn root_of(s: &str) -> lavish::ir::Namespace {
    let m = module_of(s);
    assert!(lavish::checker::check(&m).is_ok());
    let mut items: Vec<NamespaceItem> = Vec::new();
    for ns in m.namespaces {
        items.push(NamespaceItem::Namespace(ns));
    }
    lavish::ir::Namespace::new(&lavish::ast::NamespaceBody { items })
}

#[test]
fn nested_function_names_flatten_stably() {
    let root = root_of("namespace a { namespace b { fn c() } }");
    let funs = root.funs();
    assert_eq!(funs.len(), 1);
    assert_eq!(funs[0].rpc_name(), "a.b.c");
    assert_eq!(funs[0].qualified_name(), "a::b::c");
    assert_eq!(funs[0].variant(), "a__b__c");
    // deriving the variant twice yields identical text
    assert_eq!(funs[0].variant(), funs[0].variant());
}

#[test]
fn anchored_name_forms_agree() {
    let m = module_of("namespace a { namespace b { fn c() } }");
    let a = &m.namespaces[0];
    let b = match &a.body.items[0] {
        NamespaceItem::Namespace(b) => b,
        _ => panic!("expected namespace"),
    };
    let c = match &b.body.items[0] {
        NamespaceItem::Function(c) => c.clone(),
        _ => panic!("expected function"),
    };
    let stack = Stack::new().push(a).push(b);
    let anchored = stack.anchor(c);
    assert_eq!(anchored.method(), "a.b.c");
    assert_eq!(anchored.module(), "a::b::c");
    assert_eq!(anchored.qualified_name(), "a__b__c");
    // the PascalCase convention flattens the same chain consistently
    assert_eq!(anchored.variant(), "A_B_C");
    assert_eq!(anchored.variant(), anchored.variant());
}

#[test]
fn case_conversion_is_not_the_identity() {
    let m = module_of("namespace svc { fn my_fun() }");
    let ns = &m.namespaces[0];
    let f = match &ns.body.items[0] {
        NamespaceItem::Function(f) => f.clone(),
        _ => panic!("expected function"),
    };
    let anchored = Stack::new().push(ns).anchor(f);
    assert_eq!(anchored.variant(), "Svc_MyFun");
}

#[test]
fn mod_name_is_snake_case() {
    let root = root_of("namespace a { fn doThing() }");
    let funs = root.funs();
    assert_eq!(funs[0].mod_name(), "do_thing");
}

#[test]
fn stack_paths() {
    let m = module_of("namespace a { namespace b { } }");
    let a = &m.namespaces[0];
    let stack = Stack::new().push(a);
    assert_eq!(stack.trace(), "a");
    assert_eq!(stack.root(), "super::super::");
    assert_eq!(stack.protocol(), "super::super::protocol");
    assert_eq!(stack.schema(), "super::super::schema");
    assert_eq!(Stack::new().root(), "super::");
}

#[test]
fn traversal_order_is_children_then_locals() {
    let root = root_of(
        "namespace a { fn early() namespace z { fn inner() } } namespace b { fn late() }",
    );
    let names: Vec<String> = root.funs().iter().map(|f| f.rpc_name()).collect();
    assert_eq!(
        names,
        vec![
            "a.z.inner".to_string(),
            "a.early".to_string(),
            "b.late".to_string()
        ]
    );
}

#[test]
fn end_to_end_math_add() {
    let root = root_of("namespace math { fn add(a: int32, b: int32) -> (sum: int32) }");
    let funs = root.funs();
    let requests: Vec<&lavish::ir::Fun> =
        funs.iter().filter(|f| f.kind() == FunKind::Request).collect();
    assert_eq!(requests.len(), 1);
    let add = requests[0];
    assert_eq!(add.rpc_name(), "math.add");
    let params = add.params();
    assert_eq!(params.fields().len(), 2);
    assert_eq!(params.fields()[0].name.text, "a");
    assert_eq!(params.fields()[1].name.text, "b");
    let results = add.results();
    assert_eq!(results.fields().len(), 1);
    assert_eq!(results.fields()[0].name.text, "sum");
    // the generated union maps that case to exactly the wire name
    let atom = lavish::protocol::Atom {
        name: "Params".to_string(),
        kind: FunKind::Request,
        depth: 1,
    };
    let text = atom.render(&funs);
    assert!(text.contains("math__add(_) => \"math.add\","));
    assert!(text.contains("pub enum Params"));
}

#[test]
fn fun_struct_shapes() {
    let root = root_of("namespace a { fn f(x: int32) }");
    let funs = root.funs();
    let f = &funs[0];
    let params = f.params();
    assert!(!params.is_empty());
    assert_eq!(params.kind(), "Params");
    assert_eq!(params.variant(), "Params::a__f");
    assert_eq!(params.qualified_type(), "a::f::Params");
    assert_eq!(params.short_type(), "a::f::Params");
    let results = f.results();
    assert!(results.is_empty());
    assert_eq!(results.short_type(), "()");
    assert_eq!(results.empty_literal(), "a::f::Results {}");
}

#[test]
fn codegen_refuses_a_bad_module_and_emits_for_a_good_one() {
    let bad = module_of("namespace a { fn f() fn f() }");
    assert!(lavish::codegen::codegen(&bad).is_err());
    let good = module_of("namespace math { fn add(a: int32) -> (sum: int32) nf ping() }");
    let out = lavish::codegen::codegen(&good).expect("codegen should succeed");
    assert!(out.contains("pub mod protocol"));
    assert!(out.contains("pub enum NotificationParams"));
    assert!(out.contains("math__ping"));
    assert!(out.contains("pub mod server"));
    assert!(out.contains("pub mod client"));
    assert!(out.contains("Err(lavish_rpc::Error::WrongParams)"));
}

struct Doubler {
    calls: Rc<StdCell<u32>>,
}

impl SlotHandler<i64, i64> for Doubler {
    fn call(&self, params: i64) -> i64 {
        self.calls.set(self.calls.get() + 1);
        params * 2
    }
}

#[test]
fn dispatch_invokes_the_registered_handler_once() {
    let calls = Rc::new(StdCell::new(0));
    let mut table: HandlerTable<Doubler> = HandlerTable::new(3);
    table.register(1, Doubler { calls: Rc::clone(&calls) });
    let out = table
        .dispatch(Case { index: 1, value: 21i64 })
        .expect("registered slot should answer");
    assert_eq!(out.index, 1);
    assert_eq!(out.value, 42);
    assert_eq!(calls.get(), 1);
}

#[test]
fn dispatch_against_an_unregistered_slot_is_method_not_found() {
    let mut table: HandlerTable<Doubler> = HandlerTable::new(3);
    table.register(1, Doubler { calls: Rc::new(StdCell::new(0)) });
    let r = table.dispatch(Case { index: 2, value: 1i64 });
    assert_eq!(r.err().unwrap(), DispatchError::MethodNotFound);
    let r = table.dispatch(Case { index: 9, value: 1i64 });
    assert_eq!(r.err().unwrap(), DispatchError::MethodNotFound);
}

#[test]
fn adapter_rejects_a_foreign_case_as_wrong_params() {
    let mut table: HandlerTable<Doubler> = HandlerTable::new(2);
    table.register(0, Doubler { calls: Rc::new(StdCell::new(0)) });
    let r: Result<Case<i64>, DispatchError> = table.dispatch_at(0, Case { index: 1, value: 7i64 });
    assert_eq!(r.err().unwrap(), DispatchError::WrongParams);
    let ok = table.dispatch_at(0, Case { index: 0, value: 7i64 }).unwrap();
    assert_eq!(ok.value, 14);
}

#[test]
fn shape_selection_takes_the_first_match() {
    assert_eq!(lavish::dispatch::select_case(&vec![false, true, true]), Ok(1));
    assert_eq!(
        lavish::dispatch::select_case(&vec![false, false]),
        Err(DispatchError::UnrecognizedShape)
    );
    assert_eq!(
        lavish::dispatch::select_case(&vec![]),
        Err(DispatchError::UnrecognizedShape)
    );
}

#[test]
fn dispatch_error_wording() {
    assert_eq!(DispatchError::MethodNotFound.text(), "method not found");
    assert_eq!(DispatchError::WrongParams.text(), "wrong params");
    assert_eq!(DispatchError::UnrecognizedShape.text(), "unrecognized shape");
}

#[test]
fn handler_surface_lists_one_slot_per_function() {
    let m = module_of("namespace a { server fn f() client fn g() }");
    let mut items: Vec<NamespaceItem> = Vec::new();
    for ns in m.namespaces {
        items.push(NamespaceItem::Namespace(ns));
    }
    let body = lavish::ast::NamespaceBody { items };
    let h = lavish::handler::Handler {
        side: Side::Server,
        body: Stack::new().anchor(body),
    };
    let funs = h.for_each_fun();
    assert_eq!(funs.len(), 1);
    assert_eq!(funs[0].name(), "f");
    let text = h.render();
    assert!(text.contains("on_a__f: Slot<T>,"));
    assert!(!text.contains("on_a__g"));
    assert!(text.contains("pub fn on_a__f<F>"));
    assert!(text.contains("_ => return Err(lavish_rpc::Error::WrongParams),"));
}

#[test]
fn emit_builders_render_exactly() {
    let mut s = lavish::emit::Scope::new();
    lavish::emit::derive().debug().serialize().write_to(&mut s);
    lavish::emit::allow().non_camel_case().unused().write_to(&mut s);
    let text = s.into_string();
    assert_eq!(
        text,
        "#[derive(Debug, lavish_rpc::serde_derive::Serialize)]\n#[allow(non_camel_case_types, unused)]\n"
    );
    assert_eq!(lavish::emit::serde_untagged(), "#[serde(untagged)]\n");
    let f = lavish::emit::_fn("method")
        .kw_pub()
        .self_param("&self")
        .returning("&'static str")
        .body("self.name\n".to_string());
    assert_eq!(
        f.render(),
        "pub fn method(&self) -> &'static str {\n    self.name\n}\n"
    );
    let semi = lavish::emit::_fn("stub").kw_async();
    assert_eq!(semi.render(), "async fn stub();\n");
    let b = lavish::emit::Block::Mod("protocol");
    assert_eq!(b.render("x\n"), "pub mod protocol {\n    x\n}\n");
    let e = lavish::emit::Block::Enum("Params");
    assert_eq!(e.render(""), "pub enum Params {\n}\n");
    let i = lavish::emit::Block::Impl("lavish_rpc::Atom", "Params");
    assert_eq!(i.render("y\n"), "impl lavish_rpc::Atom for Params {\n    y\n}\n");
}

#[test]
fn codegen_error_wording() {
    let e = lavish::codegen::Error::new("something went wrong");
    assert_eq!(e.message(), "something went wrong");
}
