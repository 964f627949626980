use lavish::ast::{FunctionModifier, Module, NamespaceItem, TypeKind};
use lavish::parser::parse;

fn chars(s: &str) -> Vec<char> {
    s.chars().collect()
}

fn parse_ok(s: &str) -> Module {
    parse(&chars(s)).expect("schema should parse")
}

fn first_fn(m: &Module) -> &lavish::ast::FunctionDecl {
    match &m.namespaces[0].body.items[0] {
        NamespaceItem::Function(f) => f,
        _ => panic!("expected a function item"),
    }
}

#[test]
fn parses_single_function() {
    let m = parse_ok("namespace math { fn add(a: int32, b: int32) -> (sum: int32) }");
    assert_eq!(m.namespaces.len(), 1);
    assert_eq!(m.namespaces[0].name.text, "math");
    let f = first_fn(&m);
    assert_eq!(f.name.text, "add");
    assert_eq!(f.params.len(), 2);
    assert_eq!(f.params[0].name.text, "a");
    assert_eq!(f.params[1].name.text, "b");
    assert_eq!(f.results.len(), 1);
    assert_eq!(f.results[0].name.text, "sum");
}

#[test]
fn trailing_comma_is_ignored() {
    let with = parse_ok("namespace a { fn f(x: int32,) }");
    let without = parse_ok("namespace a { fn f(x: int32) }");
    let fw = first_fn(&with);
    let fo = first_fn(&without);
    assert_eq!(fw.params.len(), 1);
    assert_eq!(fo.params.len(), 1);
    assert_eq!(fw.params[0].name.text, fo.params[0].name.text);
}

#[test]
fn comment_attaches_without_blank_line() {
    let m = parse_ok("// the adder\nnamespace math {\n}\n");
    let c = m.namespaces[0].comment.as_ref().expect("comment should attach");
    assert_eq!(c.lines.len(), 1);
    assert_eq!(c.lines[0], "the adder");
}

#[test]
fn blank_line_breaks_comment_attachment() {
    let m = parse_ok("// floating\n\nnamespace math {\n}\n");
    assert!(m.namespaces[0].comment.is_none());
}

#[test]
fn comment_attaches_to_inner_function() {
    let m = parse_ok("namespace a {\n// doc one\n// doc two\nfn f()\n}");
    let f = first_fn(&m);
    let c = f.comment.as_ref().expect("comment should attach");
    assert_eq!(c.lines, vec!["doc one".to_string(), "doc two".to_string()]);
}

#[test]
fn notification_results_are_empty() {
    let m = parse_ok("namespace a { nf ping(x: int32) }");
    let f = first_fn(&m);
    assert!(f.modifiers.notification);
    assert_eq!(f.results.len(), 0);
    assert!(f.body.is_none());
}

#[test]
fn notification_discards_declared_results() {
    let m = parse_ok("namespace a { nf ping(x: int32) -> (y: int32) }");
    let f = first_fn(&m);
    assert!(f.modifiers.notification);
    assert_eq!(f.results.len(), 0);
}

#[test]
fn modifiers_are_collected() {
    let m = parse_ok("namespace a { server fn f() client fn g() }");
    let ns = &m.namespaces[0];
    match (&ns.body.items[0], &ns.body.items[1]) {
        (NamespaceItem::Function(f), NamespaceItem::Function(g)) => {
            assert!(f.modifiers.server);
            assert!(!f.modifiers.client);
            assert!(g.modifiers.client);
            assert!(f.modifiers.contains(FunctionModifier::Server));
            assert!(!f.modifiers.contains(FunctionModifier::Notification));
        }
        _ => panic!("expected two functions"),
    }
}

#[test]
fn type_syntax_covers_all_forms() {
    let m = parse_ok(
        "namespace a { struct S { b: bool, t: timestamp, xs: Array<int32>, o: Option<string>, m: Map<string, uint64>, u: Widget } }",
    );
    let s = match &m.namespaces[0].body.items[0] {
        NamespaceItem::Struct(s) => s,
        _ => panic!("expected a struct"),
    };
    assert_eq!(s.fields.len(), 6);
    assert!(matches!(s.fields[0].typ.kind, TypeKind::Base(lavish::ast::BaseType::Bool)));
    assert!(matches!(s.fields[2].typ.kind, TypeKind::Arr(_)));
    assert!(matches!(s.fields[3].typ.kind, TypeKind::Opt(_)));
    assert!(matches!(s.fields[4].typ.kind, TypeKind::MapOf(_, _)));
    match &s.fields[5].typ.kind {
        TypeKind::User(n) => assert_eq!(n, "Widget"),
        _ => panic!("expected a user type"),
    }
}

#[test]
fn nested_namespaces_and_function_bodies_parse() {
    let m = parse_ok("namespace a { namespace b { fn c() } fn d() { fn e() } }");
    let a = &m.namespaces[0];
    assert_eq!(a.name.text, "a");
    match &a.body.items[0] {
        NamespaceItem::Namespace(b) => {
            assert_eq!(b.name.text, "b");
            assert_eq!(b.body.items.len(), 1);
        }
        _ => panic!("expected a child namespace"),
    }
    match &a.body.items[1] {
        NamespaceItem::Function(d) => {
            assert_eq!(d.name.text, "d");
            let body = d.body.as_ref().expect("function body expected");
            assert_eq!(body.items.len(), 1);
        }
        _ => panic!("expected a function"),
    }
}

#[test]
fn trailing_comments_are_kept_on_the_module() {
    let m = parse_ok("namespace a {\n}\n// the end\n// of it\n");
    assert_eq!(m.trailing, vec!["the end".to_string(), "of it".to_string()]);
}

#[test]
fn unclosed_namespace_is_an_error() {
    let input = "namespace a { fn f() ";
    let r = parse(&chars(input));
    assert!(r.is_err());
    let e = r.err().unwrap();
    assert!(e.pos > 0);
    assert!(e.pos <= input.len());
    assert!(!e.context.is_empty());
    assert!(e.context.iter().any(|l| l == "namespace declaration"));
}

#[test]
fn trailing_garbage_is_anchored_at_end_of_consumed_input() {
    let input = "namespace a {\n}\nxyz";
    let r = parse(&chars(input));
    let e = r.err().unwrap();
    // the namespace and the whitespace after it were consumed; the error
    // points at the leftover text
    assert_eq!(e.pos, input.find("xyz").unwrap());
    assert!(e.context.iter().any(|l| l == "module"));
}

#[test]
fn committed_failure_carries_inner_labels_first() {
    let r = parse(&chars("namespace a { fn f(x: ) }"));
    let e = r.err().unwrap();
    assert!(!e.context.is_empty());
    assert_eq!(e.context[0], "type");
    assert!(e.context.iter().any(|l| l == "field"));
}

#[test]
fn top_level_function_is_an_error() {
    assert!(parse(&chars("fn f()")).is_err());
}

#[test]
fn missing_field_type_is_an_error() {
    let r = parse(&chars("namespace a { fn f(x: ) }"));
    assert!(r.is_err());
}

#[test]
fn empty_input_is_an_empty_module() {
    let m = parse_ok("");
    assert_eq!(m.namespaces.len(), 0);
    assert_eq!(m.trailing.len(), 0);
}

#[test]
fn duplicate_siblings_pass_the_parser_and_fail_the_checker() {
    let m = parse_ok("namespace a { fn f() fn f() }");
    let r = lavish::checker::check(&m);
    assert!(r.is_err());
    let errs = r.err().unwrap();
    assert!(errs.len() > 0);
    assert!(errs[0].message.contains("duplicate"));
}

#[test]
fn duplicate_structs_fail_the_checker() {
    let m = parse_ok("namespace a { struct S { } struct S { } }");
    assert!(lavish::checker::check(&m).is_err());
}

#[test]
fn distinct_siblings_pass_the_checker() {
    let m = parse_ok("namespace a { fn f() fn g() struct S { } namespace b { } }");
    assert!(lavish::checker::check(&m).is_ok());
}

#[test]
fn same_name_in_different_scopes_passes_the_checker() {
    let m = parse_ok("namespace a { fn f() namespace b { fn f() } }");
    assert!(lavish::checker::check(&m).is_ok());
}

#[test]
fn print_then_parse_round_trips() {
    let text = "// adder service\nnamespace math {\nserver fn add(\na: int32,\nb: Map<string,int64>,\n) -> (\nsum: int32,\n)\nnf ping(\nx: int32,\n)\nstruct Pair {\nleft: int32,\nright: int32,\n}\nnamespace inner {\nfn deep()\n}\n}\n// bye\n";
    let m1 = parse_ok(text);
    let printed = lavish::printer::print(&m1);
    let m2 = parse(&chars(printed.as_str())).expect("printed text should re-parse");
    assert_eq!(m1.namespaces.len(), m2.namespaces.len());
    let n1 = &m1.namespaces[0];
    let n2 = &m2.namespaces[0];
    assert_eq!(n1.name.text, n2.name.text);
    assert_eq!(
        n1.comment.as_ref().unwrap().lines,
        n2.comment.as_ref().unwrap().lines
    );
    assert_eq!(n1.body.items.len(), n2.body.items.len());
    match (&n1.body.items[0], &n2.body.items[0]) {
        (NamespaceItem::Function(f1), NamespaceItem::Function(f2)) => {
            assert_eq!(f1.name.text, f2.name.text);
            assert_eq!(f1.modifiers, f2.modifiers);
            assert_eq!(f1.params.len(), f2.params.len());
            assert_eq!(f1.params[1].name.text, f2.params[1].name.text);
            assert_eq!(f1.results.len(), f2.results.len());
        }
        _ => panic!("expected functions"),
    }
    assert_eq!(m1.trailing, m2.trailing);
    // printing the re-parsed tree gives the same text again
    let printed2 = lavish::printer::print(&m2);
    assert_eq!(printed, printed2);
}

#[test]
fn printed_schema_has_canonical_shape() {
    let m = parse_ok("namespace a { fn f(x: int32) }");
    let printed = lavish::printer::print(&m);
    assert_eq!(printed, "namespace a {\nfn f(\nx: int32,\n)\n}\n");
}
