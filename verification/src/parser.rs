use crate::ast::{
    BaseType, Comment, Field, FunctionDecl, Identifier, Module, ModifierSet, NamespaceBody,
    NamespaceDecl, NamespaceItem, StructDecl, Type, TypeKind,
};
use crate::ast::{lemma_view_items, view_comment_opt, view_fields, view_items};
use crate::grammar::{
    base_keyword, has_chars, id_end, is_id_char, is_line_sp_char, is_sp_char, kw_array, kw_at,
    kw_client, kw_fn, kw_map, kw_namespace, kw_nf, kw_option, kw_server, kw_struct, line_end,
    parse_base, parse_comment_block, parse_comment_line, parse_comment_prefix, parse_field,
    parse_fields, parse_ident, parse_item, parse_items, parse_mods, parse_module,
    parse_module_items, parse_results, parse_trailing_lines, parse_type, skip_line_sp, skip_sp,
    skip_trailing, try_array_type, try_map_type, try_option_type,
};
use vstd::prelude::*;

verus! {

// ---------------------------------------------------------------------------
// The executable parser. Every function here is proved to return exactly
// what the corresponding grammar function denotes on the input's view; on
// failure a diagnostic records the furthest position reached together with
// the labels of the enclosing constructs.
// ---------------------------------------------------------------------------

/// A located syntax error. `pos` is the furthest position at which a
/// committed grammar rule failed; `context` holds the labels of the rules
/// that failed, innermost first.
#[derive(Debug)]
pub struct ParseError {
    pub pos: usize,
    pub context: Vec<String>,
}

impl ParseError {
    /// A fresh diagnostic: position zero, no labels.
    pub fn empty() -> (r: ParseError)
        ensures
            r.pos == 0,
            r.context@.len() == 0,
    {
        ParseError { pos: 0, context: Vec::new() }
    }

    /// Records that the construct named `label` failed at `pos`. A failure
    /// further into the input than any seen before moves the position there
    /// and starts a fresh label chain; otherwise the position stays at the
    /// furthest failure and the label joins the chain, so that enclosing
    /// constructs stack their labels innermost first.
    pub fn note(&mut self, pos: usize, label: &str)
        ensures
            final(self).pos == if pos > old(self).pos {
                pos
            } else {
                old(self).pos
            },
            pos > old(self).pos ==> final(self).context@.len() == 1
                && final(self).context@[0]@ == label@,
            pos <= old(self).pos ==> final(self).context@.len() == old(self).context@.len() + 1
                && (forall|k: int|
                0 <= k < old(self).context@.len() ==> final(self).context@[k]
                    == old(self).context@[k])
                && final(self).context@[old(self).context@.len() as int]@ == label@,
    {
        if pos > self.pos {
            self.pos = pos;
            self.context = Vec::new();
        }
        self.context.push(label.to_owned());
    }
}

/// Copies the characters of `v` between `a` and `b` into a fresh string.
fn chars_to_string(v: &Vec<char>, a: usize, b: usize) -> (r: String)
    requires
        a <= b <= v.len(),
    ensures
        r@ == v@.subrange(a as int, b as int),
{
    let mut r = String::new();
    let mut i: usize = a;
    while i < b
        invariant
            a <= i <= b <= v.len(),
            r@ == v@.subrange(a as int, i as int),
        decreases b - i,
    {
        crate::text::push_char(&mut r, v[i]);
        i += 1;
        proof {
            assert(r@ =~= v@.subrange(a as int, i as int));
        }
    }
    r
}

// ---- character classes -----------------------------------------------------
fn is_sp_x(c: char) -> (r: bool)
    ensures
        r == is_sp_char(c),
{
    c == ' ' || c == '\t' || c == '\r' || c == '\n'
}

fn is_line_sp_x(c: char) -> (r: bool)
    ensures
        r == is_line_sp_char(c),
{
    c == ' ' || c == '\t'
}

/// Executable check for identifier characters.
pub fn is_id_char_x(c: char) -> (r: bool)
    ensures
        r == is_id_char(c),
{
    ('a' <= c && c <= 'z') || ('A' <= c && c <= 'Z') || ('0' <= c && c <= '9') || c == '_'
}

// ---- character scanners ----------------------------------------------------
fn skip_sp_x(v: &Vec<char>, i: usize) -> (r: usize)
    requires
        i <= v.len(),
    ensures
        r == skip_sp(v@, i as int),
        i <= r <= v.len(),
{
    let mut j = i;
    while j < v.len() && is_sp_x(v[j])
        invariant
            i <= j <= v.len(),
            skip_sp(v@, i as int) == skip_sp(v@, j as int),
        decreases v.len() - j,
    {
        j += 1;
    }
    j
}

fn skip_line_sp_x(v: &Vec<char>, i: usize) -> (r: usize)
    requires
        i <= v.len(),
    ensures
        r == skip_line_sp(v@, i as int),
        i <= r <= v.len(),
{
    let mut j = i;
    while j < v.len() && is_line_sp_x(v[j])
        invariant
            i <= j <= v.len(),
            skip_line_sp(v@, i as int) == skip_line_sp(v@, j as int),
        decreases v.len() - j,
    {
        j += 1;
    }
    j
}

fn id_end_x(v: &Vec<char>, i: usize) -> (r: usize)
    requires
        i <= v.len(),
    ensures
        r == id_end(v@, i as int),
        i <= r <= v.len(),
{
    let mut j = i;
    while j < v.len() && is_id_char_x(v[j])
        invariant
            i <= j <= v.len(),
            id_end(v@, i as int) == id_end(v@, j as int),
        decreases v.len() - j,
    {
        j += 1;
    }
    j
}

fn line_end_x(v: &Vec<char>, i: usize) -> (r: usize)
    requires
        i <= v.len(),
    ensures
        r == line_end(v@, i as int),
        i <= r <= v.len(),
{
    let mut j = i;
    while j < v.len() && v[j] != '\n'
        invariant
            i <= j <= v.len(),
            line_end(v@, i as int) == line_end(v@, j as int),
        decreases v.len() - j,
    {
        j += 1;
    }
    j
}

// ---- keywords --------------------------------------------------------------
/// The word `w` occurs in `v` at position `i`.
fn has_chars_x(v: &Vec<char>, i: usize, w: &Vec<char>) -> (r: bool)
    requires
        i <= v.len(),
    ensures
        r == has_chars(v@, i as int, w@),
{
    if w.len() > v.len() - i {
        return false;
    }
    let mut k: usize = 0;
    while k < w.len()
        invariant
            i <= v.len(),
            i + w.len() <= v.len(),
            k <= w.len(),
            forall|m: int| 0 <= m < k ==> v@[i + m] == w@[m],
        decreases w.len() - k,
    {
        if v[i + k] != w[k] {
            return false;
        }
        k += 1;
    }
    true
}

/// The keyword `w` occurs at `i` without being continued by an identifier
/// character.
fn kw_at_x(v: &Vec<char>, i: usize, w: &Vec<char>) -> (r: bool)
    requires
        i <= v.len(),
    ensures
        r == kw_at(v@, i as int, w@),
{
    if has_chars_x(v, i, w) {
        let e = i + w.len();
        e == v.len() || !is_id_char_x(v[e])
    } else {
        false
    }
}

fn word_fn() -> (w: Vec<char>)
    ensures
        w@ == kw_fn(),
{
    let mut w: Vec<char> = Vec::new();
    w.push('f');
    w.push('n');
    proof {
        assert(w@ =~= kw_fn());
    }
    w
}

fn word_nf() -> (w: Vec<char>)
    ensures
        w@ == kw_nf(),
{
    let mut w: Vec<char> = Vec::new();
    w.push('n');
    w.push('f');
    proof {
        assert(w@ =~= kw_nf());
    }
    w
}

fn word_struct() -> (w: Vec<char>)
    ensures
        w@ == kw_struct(),
{
    let mut w: Vec<char> = Vec::new();
    w.push('s');
    w.push('t');
    w.push('r');
    w.push('u');
    w.push('c');
    w.push('t');
    proof {
        assert(w@ =~= kw_struct());
    }
    w
}

fn word_namespace() -> (w: Vec<char>)
    ensures
        w@ == kw_namespace(),
{
    let mut w: Vec<char> = Vec::new();
    w.push('n');
    w.push('a');
    w.push('m');
    w.push('e');
    w.push('s');
    w.push('p');
    w.push('a');
    w.push('c');
    w.push('e');
    proof {
        assert(w@ =~= kw_namespace());
    }
    w
}

fn word_server() -> (w: Vec<char>)
    ensures
        w@ == kw_server(),
{
    let mut w: Vec<char> = Vec::new();
    w.push('s');
    w.push('e');
    w.push('r');
    w.push('v');
    w.push('e');
    w.push('r');
    proof {
        assert(w@ =~= kw_server());
    }
    w
}

fn word_client() -> (w: Vec<char>)
    ensures
        w@ == kw_client(),
{
    let mut w: Vec<char> = Vec::new();
    w.push('c');
    w.push('l');
    w.push('i');
    w.push('e');
    w.push('n');
    w.push('t');
    proof {
        assert(w@ =~= kw_client());
    }
    w
}

fn word_map() -> (w: Vec<char>)
    ensures
        w@ == kw_map(),
{
    let mut w: Vec<char> = Vec::new();
    w.push('M');
    w.push('a');
    w.push('p');
    proof {
        assert(w@ =~= kw_map());
    }
    w
}

fn word_array() -> (w: Vec<char>)
    ensures
        w@ == kw_array(),
{
    let mut w: Vec<char> = Vec::new();
    w.push('A');
    w.push('r');
    w.push('r');
    w.push('a');
    w.push('y');
    proof {
        assert(w@ =~= kw_array());
    }
    w
}

fn word_option() -> (w: Vec<char>)
    ensures
        w@ == kw_option(),
{
    let mut w: Vec<char> = Vec::new();
    w.push('O');
    w.push('p');
    w.push('t');
    w.push('i');
    w.push('o');
    w.push('n');
    proof {
        assert(w@ =~= kw_option());
    }
    w
}

fn word_arrow() -> (w: Vec<char>)
    ensures
        w@ == seq!['-', '>'],
{
    let mut w: Vec<char> = Vec::new();
    w.push('-');
    w.push('>');
    proof {
        assert(w@ =~= seq!['-', '>']);
    }
    w
}

fn word_slashes() -> (w: Vec<char>)
    ensures
        w@ == seq!['/', '/'],
{
    let mut w: Vec<char> = Vec::new();
    w.push('/');
    w.push('/');
    proof {
        assert(w@ =~= seq!['/', '/']);
    }
    w
}

/// The surface keyword of a base type.
fn word_base(b: BaseType) -> (w: Vec<char>)
    ensures
        w@ == base_keyword(b),
{
    match b {
        BaseType::Bool => {
            let t = "bool";
            proof {
                reveal_strlit("bool");
                assert(t@ =~= base_keyword(BaseType::Bool));
            }
            str_to_chars(t)
        },
        BaseType::Int32 => {
            let t = "int32";
            proof {
                reveal_strlit("int32");
                assert(t@ =~= base_keyword(BaseType::Int32));
            }
            str_to_chars(t)
        },
        BaseType::Int64 => {
            let t = "int64";
            proof {
                reveal_strlit("int64");
                assert(t@ =~= base_keyword(BaseType::Int64));
            }
            str_to_chars(t)
        },
        BaseType::UInt32 => {
            let t = "uint32";
            proof {
                reveal_strlit("uint32");
                assert(t@ =~= base_keyword(BaseType::UInt32));
            }
            str_to_chars(t)
        },
        BaseType::UInt64 => {
            let t = "uint64";
            proof {
                reveal_strlit("uint64");
                assert(t@ =~= base_keyword(BaseType::UInt64));
            }
            str_to_chars(t)
        },
        BaseType::Float32 => {
            let t = "float32";
            proof {
                reveal_strlit("float32");
                assert(t@ =~= base_keyword(BaseType::Float32));
            }
            str_to_chars(t)
        },
        BaseType::Float64 => {
            let t = "float64";
            proof {
                reveal_strlit("float64");
                assert(t@ =~= base_keyword(BaseType::Float64));
            }
            str_to_chars(t)
        },
        BaseType::Text => {
            let t = "string";
            proof {
                reveal_strlit("string");
                assert(t@ =~= base_keyword(BaseType::Text));
            }
            str_to_chars(t)
        },
        BaseType::Bytes => {
            let t = "bytes";
            proof {
                reveal_strlit("bytes");
                assert(t@ =~= base_keyword(BaseType::Bytes));
            }
            str_to_chars(t)
        },
        BaseType::Timestamp => {
            let t = "timestamp";
            proof {
                reveal_strlit("timestamp");
                assert(t@ =~= base_keyword(BaseType::Timestamp));
            }
            str_to_chars(t)
        },
    }
}

/// The surface keyword of a base type, as text.
pub fn base_word(b: BaseType) -> (r: &'static str)
    ensures
        r@ == base_keyword(b),
{
    match b {
        BaseType::Bool => {
            proof {
                reveal_strlit("bool");
                assert("bool"@ =~= base_keyword(BaseType::Bool));
            }
            "bool"
        },
        BaseType::Int32 => {
            proof {
                reveal_strlit("int32");
                assert("int32"@ =~= base_keyword(BaseType::Int32));
            }
            "int32"
        },
        BaseType::Int64 => {
            proof {
                reveal_strlit("int64");
                assert("int64"@ =~= base_keyword(BaseType::Int64));
            }
            "int64"
        },
        BaseType::UInt32 => {
            proof {
                reveal_strlit("uint32");
                assert("uint32"@ =~= base_keyword(BaseType::UInt32));
            }
            "uint32"
        },
        BaseType::UInt64 => {
            proof {
                reveal_strlit("uint64");
                assert("uint64"@ =~= base_keyword(BaseType::UInt64));
            }
            "uint64"
        },
        BaseType::Float32 => {
            proof {
                reveal_strlit("float32");
                assert("float32"@ =~= base_keyword(BaseType::Float32));
            }
            "float32"
        },
        BaseType::Float64 => {
            proof {
                reveal_strlit("float64");
                assert("float64"@ =~= base_keyword(BaseType::Float64));
            }
            "float64"
        },
        BaseType::Text => {
            proof {
                reveal_strlit("string");
                assert("string"@ =~= base_keyword(BaseType::Text));
            }
            "string"
        },
        BaseType::Bytes => {
            proof {
                reveal_strlit("bytes");
                assert("bytes"@ =~= base_keyword(BaseType::Bytes));
            }
            "bytes"
        },
        BaseType::Timestamp => {
            proof {
                reveal_strlit("timestamp");
                assert("timestamp"@ =~= base_keyword(BaseType::Timestamp));
            }
            "timestamp"
        },
    }
}

/// The characters of a string, in order.
pub fn str_to_chars(s: &str) -> (r: Vec<char>)
    ensures
        r@ == s@,
{
    let n = s.unicode_len();
    let mut r: Vec<char> = Vec::new();
    let mut i: usize = 0;
    while i < n
        invariant
            n == s@.len(),
            i <= n,
            r@ == s@.subrange(0, i as int),
        decreases n - i,
    {
        r.push(s.get_char(i));
        i += 1;
        proof {
            assert(r@ =~= s@.subrange(0, i as int));
        }
    }
    proof {
        assert(r@ =~= s@);
    }
    r
}

// ---- identifiers -----------------------------------------------------------
fn p_ident(v: &Vec<char>, i: usize) -> (r: Option<(Identifier, usize)>)
    requires
        i <= v.len(),
    ensures
        match r {
            Some((id, j)) => parse_ident(v@, i as int) == Some((id@, j as int)) && i <= j
                <= v.len(),
            None => parse_ident(v@, i as int) is None,
        },
{
    let e = id_end_x(v, i);
    if i < e {
        let text = chars_to_string(v, i, e);
        Some((Identifier { pos: i, text }, e))
    } else {
        None
    }
}

// ---- comments --------------------------------------------------------------
fn p_comment_line(v: &Vec<char>, i: usize) -> (r: Option<(String, usize)>)
    requires
        i <= v.len(),
    ensures
        match r {
            Some((l, j)) => parse_comment_line(v@, i as int) == Some((l@, j as int)) && i < j
                <= v.len(),
            None => parse_comment_line(v@, i as int) is None,
        },
{
    let a = skip_line_sp_x(v, i);
    let slashes = word_slashes();
    if has_chars_x(v, a, &slashes) {
        let b = skip_line_sp_x(v, a + 2);
        let e = line_end_x(v, b);
        if e < v.len() {
            let l = chars_to_string(v, b, e);
            Some((l, e + 1))
        } else {
            None
        }
    } else {
        None
    }
}

fn p_comment_block(v: &Vec<char>, i: usize) -> (r: Option<(Vec<String>, usize)>)
    requires
        i <= v.len(),
    ensures
        match r {
            Some((ls, j)) => parse_comment_block(v@, i as int) == Some(
                (ls@.map_values(|l: String| l@), j as int),
            ) && i < j <= v.len(),
            None => parse_comment_block(v@, i as int) is None,
        },
    decreases v.len() - i,
{
    match p_comment_line(v, i) {
        None => None,
        Some((l, j)) => {
            match p_comment_block(v, j) {
                Some((mut rest, k)) => {
                    let ghost rest0 = rest@;
                    rest.insert(0, l);
                    proof {
                        assert(rest@ =~= seq![l].add(rest0));
                        assert(rest@.map_values(|l: String| l@) =~= seq![l@] + rest0.map_values(
                            |l: String| l@,
                        ));
                    }
                    Some((rest, k))
                },
                None => {
                    let mut ls: Vec<String> = Vec::new();
                    ls.push(l);
                    proof {
                        assert(ls@.map_values(|l: String| l@) =~= seq![ls@[0]@]);
                    }
                    Some((ls, j))
                },
            }
        },
    }
}

fn p_comment_prefix(v: &Vec<char>, i: usize) -> (r: (Option<Comment>, usize))
    requires
        i <= v.len(),
    ensures
        parse_comment_prefix(v@, i as int) == (view_comment_opt(r.0), r.1 as int),
        i <= r.1 <= v.len(),
    decreases v.len() - i,
{
    let a = skip_sp_x(v, i);
    match p_comment_block(v, a) {
        None => (None, a),
        Some((lines, e)) => {
            let c = skip_line_sp_x(v, e);
            if c < v.len() && v[c] == '\n' {
                p_comment_prefix(v, c + 1)
            } else {
                (Some(Comment { lines }), c)
            }
        },
    }
}

// ---- types -----------------------------------------------------------------
fn p_base(v: &Vec<char>, i: usize) -> (r: Option<(BaseType, usize)>)
    requires
        i <= v.len(),
    ensures
        match r {
            Some((b, j)) => parse_base(v@, i as int) == Some((b, j as int)) && i < j <= v.len(),
            None => parse_base(v@, i as int) is None,
        },
{
    let w = word_base(BaseType::Bool);
    if kw_at_x(v, i, &w) {
        return Some((BaseType::Bool, i + 4));
    }
    let w = word_base(BaseType::Int32);
    if kw_at_x(v, i, &w) {
        return Some((BaseType::Int32, i + 5));
    }
    let w = word_base(BaseType::Int64);
    if kw_at_x(v, i, &w) {
        return Some((BaseType::Int64, i + 5));
    }
    let w = word_base(BaseType::UInt32);
    if kw_at_x(v, i, &w) {
        return Some((BaseType::UInt32, i + 6));
    }
    let w = word_base(BaseType::UInt64);
    if kw_at_x(v, i, &w) {
        return Some((BaseType::UInt64, i + 6));
    }
    let w = word_base(BaseType::Float32);
    if kw_at_x(v, i, &w) {
        return Some((BaseType::Float32, i + 7));
    }
    let w = word_base(BaseType::Float64);
    if kw_at_x(v, i, &w) {
        return Some((BaseType::Float64, i + 7));
    }
    let w = word_base(BaseType::Text);
    if kw_at_x(v, i, &w) {
        return Some((BaseType::Text, i + 6));
    }
    let w = word_base(BaseType::Bytes);
    if kw_at_x(v, i, &w) {
        return Some((BaseType::Bytes, i + 5));
    }
    let w = word_base(BaseType::Timestamp);
    if kw_at_x(v, i, &w) {
        return Some((BaseType::Timestamp, i + 9));
    }
    None
}

fn p_try_map(v: &Vec<char>, i: usize, err: &mut ParseError) -> (r: Option<(Type, usize)>)
    requires
        i <= v.len(),
    ensures
        final(err).pos >= old(err).pos,
        old(err).pos <= v@.len() ==> final(err).pos <= v@.len(),
        match r {
            Some((t, j)) => try_map_type(v@, i as int) == Some((t@, j as int)) && i < j <= v.len(),
            None => try_map_type(v@, i as int) is None,
        },
    decreases v.len() - i, 0int,
{
    let w = word_map();
    if has_chars_x(v, i, &w) {
        let a = skip_sp_x(v, i + 3);
        if a < v.len() && v[a] == '<' {
            let b = skip_sp_x(v, a + 1);
            if i < b && b <= v.len() {
                match p_type(v, b, err) {
                    Some((k, jk)) => {
                        let c = skip_sp_x(v, jk);
                        if c < v.len() && v[c] == ',' {
                            let d = skip_sp_x(v, c + 1);
                            if i < d && d <= v.len() {
                                match p_type(v, d, err) {
                                    Some((val, jv)) => {
                                        let e = skip_sp_x(v, jv);
                                        if e < v.len() && v[e] == '>' {
                                            Some(
                                                (
                                                    Type {
                                                        pos: i,
                                                        kind: TypeKind::MapOf(
                                                            Box::new(k),
                                                            Box::new(val),
                                                        ),
                                                    },
                                                    e + 1,
                                                ),
                                            )
                                        } else {
                                            None
                                        }
                                    },
                                    None => None,
                                }
                            } else {
                                None
                            }
                        } else {
                            None
                        }
                    },
                    None => None,
                }
            } else {
                None
            }
        } else {
            None
        }
    } else {
        None
    }
}

fn p_try_array(v: &Vec<char>, i: usize, err: &mut ParseError) -> (r: Option<(Type, usize)>)
    requires
        i <= v.len(),
    ensures
        final(err).pos >= old(err).pos,
        old(err).pos <= v@.len() ==> final(err).pos <= v@.len(),
        match r {
            Some((t, j)) => try_array_type(v@, i as int) == Some((t@, j as int)) && i < j
                <= v.len(),
            None => try_array_type(v@, i as int) is None,
        },
    decreases v.len() - i, 0int,
{
    let w = word_array();
    if has_chars_x(v, i, &w) {
        let a = skip_sp_x(v, i + 5);
        if a < v.len() && v[a] == '<' {
            let b = skip_sp_x(v, a + 1);
            if i < b && b <= v.len() {
                match p_type(v, b, err) {
                    Some((t, j)) => {
                        let e = skip_sp_x(v, j);
                        if e < v.len() && v[e] == '>' {
                            Some((Type { pos: i, kind: TypeKind::Arr(Box::new(t)) }, e + 1))
                        } else {
                            None
                        }
                    },
                    None => None,
                }
            } else {
                None
            }
        } else {
            None
        }
    } else {
        None
    }
}

fn p_try_option(v: &Vec<char>, i: usize, err: &mut ParseError) -> (r: Option<(Type, usize)>)
    requires
        i <= v.len(),
    ensures
        final(err).pos >= old(err).pos,
        old(err).pos <= v@.len() ==> final(err).pos <= v@.len(),
        match r {
            Some((t, j)) => try_option_type(v@, i as int) == Some((t@, j as int)) && i < j
                <= v.len(),
            None => try_option_type(v@, i as int) is None,
        },
    decreases v.len() - i, 0int,
{
    let w = word_option();
    if has_chars_x(v, i, &w) {
        let a = skip_sp_x(v, i + 6);
        if a < v.len() && v[a] == '<' {
            let b = skip_sp_x(v, a + 1);
            if i < b && b <= v.len() {
                match p_type(v, b, err) {
                    Some((t, j)) => {
                        let e = skip_sp_x(v, j);
                        if e < v.len() && v[e] == '>' {
                            Some((Type { pos: i, kind: TypeKind::Opt(Box::new(t)) }, e + 1))
                        } else {
                            None
                        }
                    },
                    None => None,
                }
            } else {
                None
            }
        } else {
            None
        }
    } else {
        None
    }
}

fn p_type(v: &Vec<char>, i: usize, err: &mut ParseError) -> (r: Option<(Type, usize)>)
    requires
        i <= v.len(),
    ensures
        final(err).pos >= old(err).pos,
        old(err).pos <= v@.len() ==> final(err).pos <= v@.len(),
        match r {
            Some((t, j)) => parse_type(v@, i as int) == Some((t@, j as int)) && i < j <= v.len(),
            None => parse_type(v@, i as int) is None,
        },
    decreases v.len() - i, 1int,
{
    if let Some(r) = p_try_map(v, i, err) {
        return Some(r);
    }
    if let Some(r) = p_try_array(v, i, err) {
        return Some(r);
    }
    if let Some(r) = p_try_option(v, i, err) {
        return Some(r);
    }
    if let Some((b, j)) = p_base(v, i) {
        return Some((Type { pos: i, kind: TypeKind::Base(b) }, j));
    }
    match p_ident(v, i) {
        Some((id, j)) => Some((Type { pos: i, kind: TypeKind::User(id.text) }, j)),
        None => {
            err.note(i, "type");
            None
        },
    }
}

// ---- fields ----------------------------------------------------------------
fn p_field(v: &Vec<char>, i: usize, err: &mut ParseError) -> (r: Option<(Field, usize)>)
    requires
        i <= v.len(),
    ensures
        final(err).pos >= old(err).pos,
        old(err).pos <= v@.len() ==> final(err).pos <= v@.len(),
        match r {
            Some((f, j)) => parse_field(v@, i as int) == Some((f@, j as int)) && i <= j <= v.len(),
            None => parse_field(v@, i as int) is None,
        },
{
    let (cmt, a) = p_comment_prefix(v, i);
    match p_ident(v, a) {
        None => None,
        Some((name, b)) => {
            let c = skip_sp_x(v, b);
            if c < v.len() && v[c] == ':' {
                let d = skip_sp_x(v, c + 1);
                match p_type(v, d, err) {
                    Some((t, e)) => Some((Field { pos: a, comment: cmt, name, typ: t }, e)),
                    None => {
                        err.note(d, "field");
                        None
                    },
                }
            } else {
                None
            }
        },
    }
}

fn p_fields(v: &Vec<char>, i: usize, err: &mut ParseError) -> (r: (Vec<Field>, usize))
    requires
        i <= v.len(),
    ensures
        final(err).pos >= old(err).pos,
        old(err).pos <= v@.len() ==> final(err).pos <= v@.len(),
        parse_fields(v@, i as int) == (view_fields(r.0@), r.1 as int),
        i <= r.1 <= v.len(),
    decreases v.len() - i,
{
    match p_field(v, i, err) {
        None => {
            let out: Vec<Field> = Vec::new();
            proof {
                assert(view_fields(out@) =~= Seq::<crate::ast::FieldV>::empty());
            }
            (out, i)
        },
        Some((f, e)) => {
            let c = skip_sp_x(v, e);
            if c < v.len() && v[c] == ',' && i < c + 1 {
                let (mut rest, j) = p_fields(v, c + 1, err);
                let ghost rest0 = rest@;
                rest.insert(0, f);
                proof {
                    assert(rest@ =~= seq![f].add(rest0));
                    assert(view_fields(rest@) =~= seq![f@] + view_fields(rest0));
                }
                (rest, j)
            } else {
                let mut out: Vec<Field> = Vec::new();
                out.push(f);
                proof {
                    assert(view_fields(out@) =~= seq![f@]);
                }
                (out, e)
            }
        },
    }
}

// ---- modifiers and result lists --------------------------------------------
fn p_mods(v: &Vec<char>, i: usize) -> (r: (ModifierSet, usize))
    requires
        i <= v.len(),
    ensures
        parse_mods(v@, i as int) == (r.0, r.1 as int),
        i <= r.1 <= v.len(),
    decreases v.len() - i,
{
    let a = skip_sp_x(v, i);
    let ws = word_server();
    let wc = word_client();
    if has_chars_x(v, a, &ws) && i < a + 6 {
        let (m, j) = p_mods(v, a + 6);
        (ModifierSet { server: true, ..m }, j)
    } else if has_chars_x(v, a, &wc) && i < a + 6 {
        let (m, j) = p_mods(v, a + 6);
        (ModifierSet { client: true, ..m }, j)
    } else {
        (ModifierSet::empty(), a)
    }
}

fn p_results(v: &Vec<char>, i: usize, err: &mut ParseError) -> (r: Option<(Vec<Field>, usize)>)
    requires
        i <= v.len(),
    ensures
        final(err).pos >= old(err).pos,
        old(err).pos <= v@.len() ==> final(err).pos <= v@.len(),
        match r {
            Some((fs, j)) => parse_results(v@, i as int) == Some((view_fields(fs@), j as int)) && i
                < j <= v.len(),
            None => parse_results(v@, i as int) is None,
        },
{
    let a = skip_sp_x(v, i);
    let w = word_arrow();
    if has_chars_x(v, a, &w) {
        let b = skip_sp_x(v, a + 2);
        if b < v.len() && v[b] == '(' {
            let (fs, c) = p_fields(v, b + 1, err);
            let d = skip_sp_x(v, c);
            if d < v.len() && v[d] == ')' {
                Some((fs, d + 1))
            } else {
                err.note(d, "result list");
                None
            }
        } else {
            err.note(b, "result list");
            None
        }
    } else {
        None
    }
}

// ---- trailing comments -----------------------------------------------------
fn skip_trailing_x(v: &Vec<char>, i: usize) -> (r: usize)
    requires
        i <= v.len(),
    ensures
        r == skip_trailing(v@, i as int),
        i <= r <= v.len(),
    decreases v.len() - i,
{
    let a = skip_sp_x(v, i);
    match p_comment_line(v, a) {
        Some((_l, e)) => {
            if i < e {
                skip_trailing_x(v, e)
            } else {
                a
            }
        },
        None => a,
    }
}

fn p_trailing_lines(v: &Vec<char>, i: usize) -> (r: (Vec<String>, usize))
    requires
        i <= v.len(),
    ensures
        parse_trailing_lines(v@, i as int) == (r.0@.map_values(|l: String| l@), r.1 as int),
        i <= r.1 <= v.len(),
    decreases v.len() - i,
{
    let a = skip_sp_x(v, i);
    match p_comment_line(v, a) {
        Some((l, e)) => {
            if i < e {
                let (mut rest, j) = p_trailing_lines(v, e);
                let ghost rest0 = rest@;
                rest.insert(0, l);
                proof {
                    assert(rest@ =~= seq![l].add(rest0));
                    assert(rest@.map_values(|l: String| l@) =~= seq![l@] + rest0.map_values(
                        |l: String| l@,
                    ));
                }
                (rest, j)
            } else {
                let out: Vec<String> = Vec::new();
                proof {
                    assert(out@.map_values(|l: String| l@) =~= Seq::<Seq<char>>::empty());
                }
                (out, a)
            }
        },
        None => {
            let out: Vec<String> = Vec::new();
            proof {
                assert(out@.map_values(|l: String| l@) =~= Seq::<Seq<char>>::empty());
            }
            (out, a)
        },
    }
}

// ---- declarations ----------------------------------------------------------
fn p_item(v: &Vec<char>, i: usize, err: &mut ParseError) -> (r: Option<(NamespaceItem, usize)>)
    requires
        i <= v.len(),
    ensures
        final(err).pos >= old(err).pos,
        old(err).pos <= v@.len() ==> final(err).pos <= v@.len(),
        match r {
            Some((it, j)) => parse_item(v@, i as int) == Some((it@, j as int)) && i <= j <= v.len(),
            None => parse_item(v@, i as int) is None,
        },
    decreases v.len() - i, 0int,
{
    let (cmt, a) = p_comment_prefix(v, i);
    let (mods, b) = p_mods(v, a);
    let wfn = word_fn();
    let wnf = word_nf();
    let wstruct = word_struct();
    let wns = word_namespace();
    if has_chars_x(v, b, &wfn) {
        let d = skip_sp_x(v, b + 2);
        match p_ident(v, d) {
            None => {
                err.note(d, "function declaration");
                None
            },
            Some((name, e)) => {
                let f = skip_sp_x(v, e);
                if f < v.len() && v[f] == '(' {
                    let (params, g) = p_fields(v, f + 1, err);
                    let h = skip_sp_x(v, g);
                    if h < v.len() && v[h] == ')' {
                        let (results, k) = match p_results(v, h + 1, err) {
                            Some((rs, k)) => (rs, k),
                            None => {
                                let e: Vec<Field> = Vec::new();
                                proof {
                                    assert(view_fields(e@) =~= Seq::<crate::ast::FieldV>::empty());
                                }
                                (e, h + 1)
                            },
                        };
                        let m = skip_sp_x(v, k);
                        if m < v.len() && v[m] == '{' && i < m + 1 {
                            let (bitems, n) = p_items(v, m + 1, err);
                            let t = skip_trailing_x(v, n);
                            if t < v.len() && v[t] == '}' {
                                Some(
                                    (
                                        NamespaceItem::Function(
                                            FunctionDecl {
                                                pos: d,
                                                comment: cmt,
                                                modifiers: mods,
                                                name,
                                                params,
                                                results,
                                                body: Some(NamespaceBody { items: bitems }),
                                            },
                                        ),
                                        t + 1,
                                    ),
                                )
                            } else {
                                err.note(t, "function declaration");
                                None
                            }
                        } else {
                            Some(
                                (
                                    NamespaceItem::Function(
                                        FunctionDecl {
                                            pos: d,
                                            comment: cmt,
                                            modifiers: mods,
                                            name,
                                            params,
                                            results,
                                            body: None,
                                        },
                                    ),
                                    k,
                                ),
                            )
                        }
                    } else {
                        err.note(h, "parameter list");
                        err.note(h, "function declaration");
                        None
                    }
                } else {
                    err.note(f, "function declaration");
                    None
                }
            },
        }
    } else if has_chars_x(v, b, &wnf) {
        let d = skip_sp_x(v, b + 2);
        match p_ident(v, d) {
            None => {
                err.note(d, "notification declaration");
                None
            },
            Some((name, e)) => {
                let f = skip_sp_x(v, e);
                if f < v.len() && v[f] == '(' {
                    let (params, g) = p_fields(v, f + 1, err);
                    let h = skip_sp_x(v, g);
                    if h < v.len() && v[h] == ')' {
                        let k = match p_results(v, h + 1, err) {
                            Some((_rs, k)) => k,
                            None => h + 1,
                        };
                        let results: Vec<Field> = Vec::new();
                        proof {
                            assert(view_fields(results@) =~= Seq::<crate::ast::FieldV>::empty());
                        }
                        Some(
                            (
                                NamespaceItem::Function(
                                    FunctionDecl {
                                        pos: d,
                                        comment: cmt,
                                        modifiers: ModifierSet { notification: true, ..mods },
                                        name,
                                        params,
                                        results,
                                        body: None,
                                    },
                                ),
                                k,
                            ),
                        )
                    } else {
                        err.note(h, "parameter list");
                        err.note(h, "notification declaration");
                        None
                    }
                } else {
                    err.note(f, "notification declaration");
                    None
                }
            },
        }
    } else if has_chars_x(v, b, &wstruct) && !mods.server && !mods.client && !mods.notification {
        let d = skip_sp_x(v, b + 6);
        match p_ident(v, d) {
            None => {
                err.note(d, "struct declaration");
                None
            },
            Some((name, e)) => {
                let f = skip_sp_x(v, e);
                if f < v.len() && v[f] == '{' {
                    let (fields, g) = p_fields(v, f + 1, err);
                    let h = skip_sp_x(v, g);
                    if h < v.len() && v[h] == '}' {
                        Some(
                            (
                                NamespaceItem::Struct(
                                    StructDecl { pos: d, comment: cmt, name, fields },
                                ),
                                h + 1,
                            ),
                        )
                    } else {
                        err.note(h, "struct declaration");
                        None
                    }
                } else {
                    err.note(f, "struct declaration");
                    None
                }
            },
        }
    } else if has_chars_x(v, b, &wns) && !mods.server && !mods.client && !mods.notification {
        let d = skip_sp_x(v, b + 9);
        match p_ident(v, d) {
            None => {
                err.note(d, "namespace declaration");
                None
            },
            Some((name, e)) => {
                let f = skip_sp_x(v, e);
                if f < v.len() && v[f] == '{' && i < f + 1 {
                    let (items, n) = p_items(v, f + 1, err);
                    let t = skip_trailing_x(v, n);
                    if t < v.len() && v[t] == '}' {
                        Some(
                            (
                                NamespaceItem::Namespace(
                                    NamespaceDecl {
                                        pos: d,
                                        comment: cmt,
                                        name,
                                        body: NamespaceBody { items },
                                    },
                                ),
                                t + 1,
                            ),
                        )
                    } else {
                        err.note(t, "namespace declaration");
                        None
                    }
                } else {
                    err.note(f, "namespace declaration");
                    None
                }
            },
        }
    } else {
        None
    }
}

fn p_items(v: &Vec<char>, i: usize, err: &mut ParseError) -> (r: (Vec<NamespaceItem>, usize))
    requires
        i <= v.len(),
    ensures
        final(err).pos >= old(err).pos,
        old(err).pos <= v@.len() ==> final(err).pos <= v@.len(),
        parse_items(v@, i as int) == (view_items(r.0@), r.1 as int),
        i <= r.1 <= v.len(),
    decreases v.len() - i, 1int,
{
    match p_item(v, i, err) {
        None => {
            let out: Vec<NamespaceItem> = Vec::new();
            proof {
                lemma_view_items(out@);
                assert(view_items(out@) =~= Seq::<crate::ast::ItemV>::empty());
            }
            (out, i)
        },
        Some((it, j)) => {
            if i < j && j <= v.len() {
                let (mut rest, k) = p_items(v, j, err);
                let ghost rest0 = rest@;
                rest.insert(0, it);
                proof {
                    assert(rest@ =~= seq![it].add(rest0));
                    lemma_view_items(rest@);
                    lemma_view_items(rest0);
                    assert(view_items(rest@) =~= seq![it@] + view_items(rest0));
                }
                (rest, k)
            } else {
                let mut out: Vec<NamespaceItem> = Vec::new();
                out.push(it);
                proof {
                    lemma_view_items(out@);
                    assert(view_items(out@) =~= seq![it@]);
                }
                (out, j)
            }
        },
    }
}

fn p_module_items(v: &Vec<char>, i: usize, err: &mut ParseError) -> (r: (
    Vec<NamespaceDecl>,
    usize,
))
    requires
        i <= v.len(),
    ensures
        final(err).pos >= old(err).pos,
        old(err).pos <= v@.len() ==> final(err).pos <= v@.len(),
        parse_module_items(v@, i as int) == (
            r.0@.map_values(|n: NamespaceDecl| n@),
            r.1 as int,
        ),
        i <= r.1 <= v.len(),
    decreases v.len() - i,
{
    match p_item(v, i, err) {
        Some((NamespaceItem::Namespace(n), j)) => {
            if i < j && j <= v.len() {
                let (mut rest, k) = p_module_items(v, j, err);
                let ghost rest0 = rest@;
                rest.insert(0, n);
                proof {
                    assert(rest@ =~= seq![n].add(rest0));
                    assert(rest@.map_values(|n: NamespaceDecl| n@) =~= seq![n@] + rest0.map_values(
                        |n: NamespaceDecl| n@,
                    ));
                }
                (rest, k)
            } else {
                let mut out: Vec<NamespaceDecl> = Vec::new();
                out.push(n);
                proof {
                    assert(out@.map_values(|n: NamespaceDecl| n@) =~= seq![n@]);
                }
                (out, j)
            }
        },
        Some((_other, _j)) => {
            let out: Vec<NamespaceDecl> = Vec::new();
            proof {
                assert(out@.map_values(|n: NamespaceDecl| n@) =~= Seq::<
                    crate::ast::NamespaceV,
                >::empty());
            }
            (out, i)
        },
        None => {
            let out: Vec<NamespaceDecl> = Vec::new();
            proof {
                assert(out@.map_values(|n: NamespaceDecl| n@) =~= Seq::<
                    crate::ast::NamespaceV,
                >::empty());
            }
            (out, i)
        },
    }
}

/// Parses one whole schema file. Returns the module exactly when the input
/// belongs to the grammar's language. Otherwise the diagnostic points no
/// earlier than the end of the consumed input and never past the input's
/// end, and carries at least one construct label; a failure inside a
/// committed construct keeps the furthest position reached, with the
/// labels of the failed rules stacked innermost first.
pub fn parse(v: &Vec<char>) -> (r: Result<Module, ParseError>)
    ensures
        match r {
            Ok(m) => parse_module(v@) == Some(m@),
            Err(e) => {
                &&& parse_module(v@) is None
                &&& e.pos <= v@.len()
                &&& e.pos >= parse_trailing_lines(v@, parse_module_items(v@, 0).1).1
                &&& e.context@.len() > 0
            },
        },
{
    let mut err = ParseError::empty();
    let (nss, j) = p_module_items(v, 0, &mut err);
    let (trail, k) = p_trailing_lines(v, j);
    if k == v.len() {
        Ok(Module { namespaces: nss, trailing: trail })
    } else {
        err.note(k, "module");
        Err(err)
    }
}

} // verus!
