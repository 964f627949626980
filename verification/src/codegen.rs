use crate::ast::{ItemV, Module, ModuleV, NamespaceBody, NamespaceItem, NamespaceV, Side};
use crate::checker::spec_check;
use crate::emit::{block_rendered, braced};
use crate::handler::{call_text, handler_text, slot_text};
use crate::ir::{build_ns_items, ir_ns_funs, root_marker, view_fun_list, Namespace};
use crate::names::{interface_funs_items, spec_filter_side, Stack};
use crate::protocol::protocol_text;
use vstd::prelude::*;

verus! {

// ---------------------------------------------------------------------------
// The code-generation entry point: a checked module is turned into the
// generated protocol surface — the dispatch tagged-unions of the whole
// schema, and the server-side and client-side registration surfaces. A
// module that fails the semantic check is refused, never generated.
// ---------------------------------------------------------------------------

/// Options of one compiler invocation.
pub struct Opts {
    pub verbose: bool,
}

impl Default for Opts {
    /// The quiet default.
    fn default() -> (r: Self)
        ensures
            !r.verbose,
    {
        Opts { verbose: false }
    }
}

/// A code-generation failure, carrying words for the reader.
#[derive(Debug)]
pub struct Error {
    message: String,
}

impl View for Error {
    type V = Seq<char>;

    closed spec fn view(&self) -> Seq<char> {
        self.message@
    }
}

impl Error {
    /// An error with this wording.
    pub fn new(message: &str) -> (r: Error)
        ensures
            r@ == message@,
    {
        Error { message: message.to_owned() }
    }

    /// The error's wording.
    pub fn message(&self) -> (r: &str)
        ensures
            r@ == self@,
    {
        self.message.as_str()
    }
}

/// A code-generation backend: one implementation per target language,
/// chosen once at the workspace boundary.
pub trait Generator {
    fn emit_schema(&self, module: &Module) -> Result<String, Error>;
}

/// The top-level namespaces of a module, as the items of one synthetic
/// root scope.
pub open spec fn module_items(m: ModuleV) -> Seq<ItemV> {
    m.namespaces.map_values(|n: NamespaceV| ItemV::Namespace(n))
}

/// Everything the generator emits for one module: the protocol module
/// with the three dispatch tagged-unions over every function of the
/// schema, then the server-side and the client-side registration
/// surfaces.
pub open spec fn codegen_text(m: ModuleV) -> Seq<char> {
    let funs = ir_ns_funs(build_ns_items(Seq::empty(), root_marker(), module_items(m)));
    protocol_text(funs, 0) + "\n"@ + block_rendered(
        "pub mod server"@,
        call_text() + slot_text(Seq::empty()) + handler_text(
            Seq::empty(),
            spec_filter_side(
                interface_funs_items(module_items(m), Seq::empty()),
                Side::Server,
            ),
        ),
    ) + "\n"@ + block_rendered(
        "pub mod client"@,
        call_text() + slot_text(Seq::empty()) + handler_text(
            Seq::empty(),
            spec_filter_side(
                interface_funs_items(module_items(m), Seq::empty()),
                Side::Client,
            ),
        ),
    )
}

/// Generates the protocol surface of one module. Succeeds exactly when
/// the module passes the semantic check, and then returns exactly the
/// text `codegen_text` denotes.
pub fn codegen(module: &Module) -> (r: Result<String, Error>)
    ensures
        r is Ok <==> spec_check(module@),
        r matches Ok(t) ==> t@ == codegen_text(module@),
{
    match crate::checker::check(module) {
        Err(_) => {
            return Err(Error::new("the schema failed its semantic check"));
        },
        Ok(()) => {},
    }
    let mut items: Vec<NamespaceItem> = Vec::new();
    let mut i: usize = 0;
    while i < module.namespaces.len()
        invariant
            i <= module.namespaces.len(),
            items@.len() == i,
            forall|k: int|
                0 <= k < i ==> items@[k]@ == ItemV::Namespace(module.namespaces@[k]@),
        decreases module.namespaces.len() - i,
    {
        items.push(NamespaceItem::Namespace(module.namespaces[i].clone()));
        i += 1;
    }
    let body = NamespaceBody { items };
    proof {
        crate::ast::lemma_view_items(body.items@);
        assert(body@.items =~= module_items(module@));
    }
    let root = Namespace::new(&body);
    let funs = root.funs();
    let protocol = crate::protocol::Protocol { funs, depth: 0 };
    let proto_text = protocol.render();
    let stack = Stack::new();
    let server = crate::handler::Handler {
        side: Side::Server,
        body: stack.anchor(body.clone()),
    };
    let server_text = server.render();
    let stack2 = Stack::new();
    let client = crate::handler::Handler {
        side: Side::Client,
        body: stack2.anchor(body),
    };
    let client_text = client.render();
    let server_block = braced("pub mod server", server_text.as_str());
    let client_block = braced("pub mod client", client_text.as_str());
    let mut out = proto_text;
    out.append("\n");
    out.append(server_block.as_str());
    out.append("\n");
    out.append(client_block.as_str());
    proof {
        assert(out@ =~= codegen_text(module@));
    }
    Ok(out)
}

/// The one backend of this crate.
pub struct RustGenerator;

impl Generator for RustGenerator {
    fn emit_schema(&self, module: &Module) -> Result<String, Error> {
        codegen(module)
    }
}

} // verus!
