use crate::text::{join_with, view_strings};
use vstd::prelude::*;

verus! {

// ---------------------------------------------------------------------------
// The block-structured writer the generators share: an append-only text
// buffer, helpers that indent a block's interior, and small builders for
// attribute lines, function signatures and brace-delimited blocks. Each
// renderer's contract states the exact characters it produces.
// ---------------------------------------------------------------------------

/// An indentation step: four spaces.
pub open spec fn four_sp() -> Seq<char> {
    seq![' ', ' ', ' ', ' ']
}

/// The text from position `i` on, with an indentation step inserted after
/// every line break that starts a further line.
pub open spec fn indent_from(s: Seq<char>, i: int) -> Seq<char>
    decreases s.len() - i,
{
    if i < 0 || i >= s.len() {
        Seq::empty()
    } else if s[i] == '\n' {
        seq!['\n'] + if i + 1 < s.len() {
            four_sp() + indent_from(s, i + 1)
        } else {
            Seq::empty()
        }
    } else {
        seq![s[i]] + indent_from(s, i + 1)
    }
}

/// The text with every line, the first included, indented by one step.
/// Empty text stays empty.
pub open spec fn indent_lines(s: Seq<char>) -> Seq<char> {
    if s.len() == 0 {
        Seq::empty()
    } else {
        four_sp() + indent_from(s, 0)
    }
}

/// Indents every line of the text by one step.
pub fn indent_text(s: &str) -> (r: String)
    ensures
        r@ == indent_lines(s@),
{
    let n = s.unicode_len();
    if n == 0 {
        let r = String::new();
        return r;
    }
    let mut r = String::from_str("    ");
    proof {
        reveal_strlit("    ");
        assert(r@ =~= four_sp());
        assert(r@ + indent_from(s@, 0) =~= indent_lines(s@));
    }
    let mut i: usize = 0;
    while i < n
        invariant
            n == s@.len(),
            0 < n,
            i <= n,
            indent_lines(s@) == r@ + indent_from(s@, i as int),
        decreases n - i,
    {
        let c = s.get_char(i);
        let ghost r0 = r@;
        if c == '\n' {
            crate::text::push_char(&mut r, '\n');
            if i + 1 < n {
                r.append("    ");
                proof {
                    reveal_strlit("    ");
                    assert(r@ =~= r0 + seq!['\n'] + four_sp());
                    assert(indent_from(s@, i as int) =~= (seq!['\n'] + four_sp()) + indent_from(
                        s@,
                        i + 1,
                    ));
                    assert(indent_lines(s@) =~= r@ + indent_from(s@, i + 1));
                }
            } else {
                proof {
                    assert(indent_from(s@, i as int) =~= seq!['\n'] + indent_from(s@, i + 1));
                    assert(indent_lines(s@) =~= r@ + indent_from(s@, i + 1));
                }
            }
        } else {
            crate::text::push_char(&mut r, c);
            proof {
                assert(indent_from(s@, i as int) =~= seq![s@[i as int]] + indent_from(s@, i + 1));
                assert(indent_lines(s@) =~= r@ + indent_from(s@, i + 1));
            }
        }
        i += 1;
    }
    proof {
        assert(indent_from(s@, n as int) =~= Seq::<char>::empty());
        assert(indent_lines(s@) =~= r@);
    }
    r
}

/// The append-only buffer that collects generated source text.
pub struct Scope {
    out: String,
}

impl View for Scope {
    type V = Seq<char>;

    closed spec fn view(&self) -> Seq<char> {
        self.out@
    }
}

impl Scope {
    /// An empty buffer.
    pub fn new() -> (r: Scope)
        ensures
            r@ == Seq::<char>::empty(),
    {
        Scope { out: String::new() }
    }

    /// Appends text as it is.
    pub fn write(&mut self, s: &str)
        ensures
            final(self)@ == old(self)@ + s@,
    {
        self.out.append(s);
    }

    /// Appends a line break.
    pub fn lf(&mut self)
        ensures
            final(self)@ == old(self)@ + "\n"@,
    {
        self.out.append("\n");
    }

    /// Appends text followed by a line break.
    pub fn line(&mut self, s: &str)
        ensures
            final(self)@ == old(self)@ + s@ + "\n"@,
    {
        self.out.append(s);
        self.out.append("\n");
    }

    /// The text collected so far.
    pub fn into_string(self) -> (r: String)
        ensures
            r@ == self@,
    {
        self.out
    }
}

/// Everything that renders itself into a scope.
pub trait WriteTo {
    spec fn rendered(&self) -> Seq<char>;

    fn write_to(&self, s: &mut Scope)
        ensures
            final(s)@ == old(s)@ + self.rendered(),
    ;
}

// ---------------------------------------------------------------------------
// Attribute builders.
// ---------------------------------------------------------------------------

/// A `#[derive(...)]` line under construction.
pub struct Derive {
    items: Vec<String>,
}

impl View for Derive {
    type V = Seq<Seq<char>>;

    closed spec fn view(&self) -> Seq<Seq<char>> {
        view_strings(self.items@)
    }
}

/// A fresh, empty derive line.
pub fn derive() -> (r: Derive)
    ensures
        r@ == Seq::<Seq<char>>::empty(),
{
    let r = Derive { items: Vec::new() };
    proof {
        assert(r@ =~= Seq::<Seq<char>>::empty());
    }
    r
}

impl Derive {
    /// Adds `Debug`.
    pub fn debug(self) -> (r: Self)
        ensures
            r@ == self@.push("Debug"@),
    {
        let mut items = self.items;
        items.push(String::from_str("Debug"));
        let r = Derive { items };
        proof {
            assert(r@ =~= self@.push("Debug"@));
        }
        r
    }

    /// Adds the serializer derive of the generated runtime.
    pub fn serialize(self) -> (r: Self)
        ensures
            r@ == self@.push("lavish_rpc::serde_derive::Serialize"@),
    {
        let mut items = self.items;
        items.push(String::from_str("lavish_rpc::serde_derive::Serialize"));
        let r = Derive { items };
        proof {
            assert(r@ =~= self@.push("lavish_rpc::serde_derive::Serialize"@));
        }
        r
    }

    /// Adds the deserializer derive of the generated runtime.
    pub fn deserialize(self) -> (r: Self)
        ensures
            r@ == self@.push("lavish_rpc::serde_derive::Deserialize"@),
    {
        let mut items = self.items;
        items.push(String::from_str("lavish_rpc::serde_derive::Deserialize"));
        let r = Derive { items };
        proof {
            assert(r@ =~= self@.push("lavish_rpc::serde_derive::Deserialize"@));
        }
        r
    }
}

impl WriteTo for Derive {
    open spec fn rendered(&self) -> Seq<char> {
        "#[derive("@ + join_with(self@, ", "@) + ")]\n"@
    }

    fn write_to(&self, s: &mut Scope)
        ensures
            final(s)@ == old(s)@ + self.rendered(),
    {
        s.write("#[derive(");
        let joined = crate::text::join_strings(&self.items, ", ");
        s.write(joined.as_str());
        s.write(")]\n");
    }
}

/// An `#[allow(...)]` line under construction.
pub struct Allow {
    items: Vec<String>,
}

impl View for Allow {
    type V = Seq<Seq<char>>;

    closed spec fn view(&self) -> Seq<Seq<char>> {
        view_strings(self.items@)
    }
}

/// A fresh, empty allow line.
pub fn allow() -> (r: Allow)
    ensures
        r@ == Seq::<Seq<char>>::empty(),
{
    let r = Allow { items: Vec::new() };
    proof {
        assert(r@ =~= Seq::<Seq<char>>::empty());
    }
    r
}

impl Allow {
    /// Tolerates non-camel-case type names, which flattened variant
    /// identifiers produce.
    pub fn non_camel_case(self) -> (r: Self)
        ensures
            r@ == self@.push("non_camel_case_types"@),
    {
        let mut items = self.items;
        items.push(String::from_str("non_camel_case_types"));
        let r = Allow { items };
        proof {
            assert(r@ =~= self@.push("non_camel_case_types"@));
        }
        r
    }

    /// Tolerates unused items.
    pub fn unused(self) -> (r: Self)
        ensures
            r@ == self@.push("unused"@),
    {
        let mut items = self.items;
        items.push(String::from_str("unused"));
        let r = Allow { items };
        proof {
            assert(r@ =~= self@.push("unused"@));
        }
        r
    }
}

impl WriteTo for Allow {
    open spec fn rendered(&self) -> Seq<char> {
        "#[allow("@ + join_with(self@, ", "@) + ")]\n"@
    }

    fn write_to(&self, s: &mut Scope)
        ensures
            final(s)@ == old(s)@ + self.rendered(),
    {
        s.write("#[allow(");
        let joined = crate::text::join_strings(&self.items, ", ");
        s.write(joined.as_str());
        s.write(")]\n");
    }
}

/// The serde attribute that makes a generated tagged union untagged on the
/// wire.
pub fn serde_untagged() -> (r: String)
    ensures
        r@ == "#[serde(untagged)]\n"@,
{
    String::from_str("#[serde(untagged)]\n")
}

// ---------------------------------------------------------------------------
// Function signatures.
// ---------------------------------------------------------------------------

/// A generated function under construction.
pub struct _Fn {
    kw_pub: bool,
    kw_async: bool,
    self_arg: Option<String>,
    name: String,
    ret: Option<String>,
    body: Option<String>,
}

pub ghost struct _FnV {
    pub kw_pub: bool,
    pub kw_async: bool,
    pub self_arg: Option<Seq<char>>,
    pub name: Seq<char>,
    pub ret: Option<Seq<char>>,
    pub body: Option<Seq<char>>,
}

impl View for _Fn {
    type V = _FnV;

    closed spec fn view(&self) -> _FnV {
        _FnV {
            kw_pub: self.kw_pub,
            kw_async: self.kw_async,
            self_arg: match self.self_arg {
                Option::Some(a) => Option::Some(a@),
                Option::None => Option::None,
            },
            name: self.name@,
            ret: match self.ret {
                Option::Some(a) => Option::Some(a@),
                Option::None => Option::None,
            },
            body: match self.body {
                Option::Some(a) => Option::Some(a@),
                Option::None => Option::None,
            },
        }
    }
}

/// A fresh builder for a generated function of this name.
pub fn _fn(name: &str) -> (r: _Fn)
    ensures
        r@ == (_FnV {
            kw_pub: false,
            kw_async: false,
            self_arg: Option::None,
            name: name@,
            ret: Option::None,
            body: Option::None,
        }),
{
    _Fn {
        kw_pub: false,
        kw_async: false,
        self_arg: None,
        name: name.to_owned(),
        ret: None,
        body: None,
    }
}

impl _Fn {
    /// Marks the function public.
    pub fn kw_pub(self) -> (r: Self)
        ensures
            r@ == (_FnV { kw_pub: true, ..self@ }),
    {
        _Fn { kw_pub: true, ..self }
    }

    /// Marks the function asynchronous.
    pub fn kw_async(self) -> (r: Self)
        ensures
            r@ == (_FnV { kw_async: true, ..self@ }),
    {
        _Fn { kw_async: true, ..self }
    }

    /// Sets the return type.
    pub fn returning(self, ret: &str) -> (r: Self)
        ensures
            r@ == (_FnV { ret: Option::Some(ret@), ..self@ }),
    {
        _Fn { ret: Some(ret.to_owned()), ..self }
    }

    /// Sets the body text; without one, the signature ends in a semicolon.
    pub fn body(self, body: String) -> (r: Self)
        ensures
            r@ == (_FnV { body: Option::Some(body@), ..self@ }),
    {
        _Fn { body: Some(body), ..self }
    }

    /// Sets the receiver parameter.
    pub fn self_param(self, self_arg: &str) -> (r: Self)
        ensures
            r@ == (_FnV { self_arg: Option::Some(self_arg@), ..self@ }),
    {
        _Fn { self_arg: Some(self_arg.to_owned()), ..self }
    }
}

/// The exact text a function builder renders.
pub open spec fn fn_rendered(f: _FnV) -> Seq<char> {
    (if f.kw_pub {
        "pub "@
    } else {
        Seq::empty()
    }) + (if f.kw_async {
        "async "@
    } else {
        Seq::empty()
    }) + "fn "@ + f.name + "("@ + (match f.self_arg {
        Option::Some(a) => a,
        Option::None => Seq::empty(),
    }) + ")"@ + (match f.ret {
        Option::Some(r) => " -> "@ + r,
        Option::None => Seq::empty(),
    }) + (match f.body {
        Option::Some(b) => " {\n"@ + indent_lines(b) + "}\n"@,
        Option::None => ";\n"@,
    })
}

impl _Fn {
    /// The exact text this builder renders.
    #[verifier::rlimit(50)]
    pub fn render(&self) -> (r: String)
        ensures
            r@ == fn_rendered(self@),
    {
        let mut r = String::new();
        if self.kw_pub {
            r.append("pub ");
        }
        let ghost g1 = if self@.kw_pub {
            "pub "@
        } else {
            Seq::<char>::empty()
        };
        proof {
            assert(r@ =~= g1);
        }
        if self.kw_async {
            r.append("async ");
        }
        let ghost g2 = g1 + if self@.kw_async {
            "async "@
        } else {
            Seq::<char>::empty()
        };
        proof {
            assert(r@ =~= g2);
        }
        r.append("fn ");
        r.append(self.name.as_str());
        r.append("(");
        let ghost g3 = g2 + "fn "@ + self@.name + "("@;
        proof {
            assert(r@ =~= g3);
        }
        match &self.self_arg {
            Option::Some(a) => r.append(a.as_str()),
            Option::None => {},
        }
        let ghost g4 = g3 + (match self@.self_arg {
            Option::Some(a) => a,
            Option::None => Seq::<char>::empty(),
        });
        proof {
            assert(r@ =~= g4);
        }
        r.append(")");
        let ghost g5 = g4 + ")"@;
        match &self.ret {
            Option::Some(t) => {
                r.append(" -> ");
                r.append(t.as_str());
            },
            Option::None => {},
        }
        let ghost g6 = g5 + (match self@.ret {
            Option::Some(t) => " -> "@ + t,
            Option::None => Seq::<char>::empty(),
        });
        proof {
            assert(r@ =~= g6);
        }
        match &self.body {
            Option::Some(b) => {
                r.append(" {\n");
                let ind = indent_text(b.as_str());
                r.append(ind.as_str());
                r.append("}\n");
            },
            Option::None => {
                r.append(";\n");
            },
        }
        proof {
            assert(r@ =~= g6 + (match self@.body {
                Option::Some(b) => " {\n"@ + indent_lines(b) + "}\n"@,
                Option::None => ";\n"@,
            }));
            assert(r@ =~= fn_rendered(self@));
        }
        r
    }
}

impl WriteTo for _Fn {
    open spec fn rendered(&self) -> Seq<char> {
        fn_rendered(self@)
    }

    fn write_to(&self, s: &mut Scope)
        ensures
            final(s)@ == old(s)@ + self.rendered(),
    {
        let text = self.render();
        s.write(text.as_str());
    }
}

// ---------------------------------------------------------------------------
// Brace-delimited blocks.
// ---------------------------------------------------------------------------

/// A block declaration: its one-line prefix, to be followed by a braced,
/// indented interior.
pub struct Block {
    prefix: String,
}

impl View for Block {
    type V = Seq<char>;

    closed spec fn view(&self) -> Seq<char> {
        self.prefix@
    }
}

#[allow(non_snake_case)]
impl Block {
    /// A public module block.
    pub fn Mod(name: &str) -> (r: Block)
        ensures
            r@ == "pub mod "@ + name@,
    {
        let mut prefix = String::from_str("pub mod ");
        prefix.append(name);
        Block { prefix }
    }

    /// A public enum block.
    pub fn Enum(name: &str) -> (r: Block)
        ensures
            r@ == "pub enum "@ + name@,
    {
        let mut prefix = String::from_str("pub enum ");
        prefix.append(name);
        Block { prefix }
    }

    /// A trait implementation block.
    pub fn Impl(trt: &str, name: &str) -> (r: Block)
        ensures
            r@ == "impl "@ + trt@ + " for "@ + name@,
    {
        let mut prefix = String::from_str("impl ");
        prefix.append(trt);
        prefix.append(" for ");
        prefix.append(name);
        Block { prefix }
    }

    /// The block rendered around the given interior.
    pub fn render(&self, body: &str) -> (r: String)
        ensures
            r@ == block_rendered(self@, body@),
    {
        let mut r = self.prefix.clone();
        r.append(" {\n");
        let ind = indent_text(body);
        r.append(ind.as_str());
        r.append("}\n");
        r
    }
}

/// The exact text of a block: its prefix, then the indented interior in
/// braces.
pub open spec fn block_rendered(prefix: Seq<char>, body: Seq<char>) -> Seq<char> {
    prefix + " {\n"@ + indent_lines(body) + "}\n"@
}

/// The given interior wrapped in a braced, indented block after the given
/// prefix.
pub fn braced(prefix: &str, body: &str) -> (r: String)
    ensures
        r@ == block_rendered(prefix@, body@),
{
    let mut r = prefix.to_owned();
    r.append(" {\n");
    let ind = indent_text(body);
    r.append(ind.as_str());
    r.append("}\n");
    r
}

} // verus!
