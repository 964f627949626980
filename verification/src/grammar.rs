use crate::ast::{BaseType, BodyV, CommentV, FieldV, FunctionV, IdentV, ItemV, ModifierSet, ModuleV, NamespaceV, StructV, TypeKindV, TypeV};
use vstd::prelude::*;

verus! {

// ---------------------------------------------------------------------------
// The formal grammar of schema files, written as a family of recursive
// parsing functions over a sequence of characters. Each function takes the
// whole input and a position, and yields the parsed node together with the
// position just past the consumed text, or nothing when the text at that
// position does not belong to the rule's language.
//
// The executable parser is verified to agree with these functions exactly;
// the printer's round-trip law is also stated against them.
//
// Recursions whose next position comes out of another rule are guarded by a
// progress test (`i < j`) so that each function visibly terminates; the
// guard never fails on positions the rules actually produce.
// ---------------------------------------------------------------------------
// ---- character classes and keywords ---------------------------------------
/// Whitespace between tokens: spaces, tabs and line breaks.
pub open spec fn is_sp_char(c: char) -> bool {
    c == ' ' || c == '\t' || c == '\r' || c == '\n'
}

/// Whitespace within one line: spaces and tabs.
pub open spec fn is_line_sp_char(c: char) -> bool {
    c == ' ' || c == '\t'
}

/// Characters that may appear in an identifier.
pub open spec fn is_id_char(c: char) -> bool {
    ('a' <= c && c <= 'z') || ('A' <= c && c <= 'Z') || ('0' <= c && c <= '9') || c == '_'
}

/// The word `w` occurs at position `i`.
pub open spec fn has_chars(s: Seq<char>, i: int, w: Seq<char>) -> bool {
    0 <= i && i + w.len() <= s.len() && forall|k: int| 0 <= k < w.len() ==> s[i + k] == w[k]
}

/// The keyword `w` occurs at position `i` and is not continued by an
/// identifier character.
pub open spec fn kw_at(s: Seq<char>, i: int, w: Seq<char>) -> bool {
    has_chars(s, i, w) && (i + w.len() == s.len() || !is_id_char(s[i + w.len()]))
}

pub open spec fn kw_namespace() -> Seq<char> {
    seq!['n', 'a', 'm', 'e', 's', 'p', 'a', 'c', 'e']
}

pub open spec fn kw_struct() -> Seq<char> {
    seq!['s', 't', 'r', 'u', 'c', 't']
}

pub open spec fn kw_fn() -> Seq<char> {
    seq!['f', 'n']
}

pub open spec fn kw_nf() -> Seq<char> {
    seq!['n', 'f']
}

pub open spec fn kw_server() -> Seq<char> {
    seq!['s', 'e', 'r', 'v', 'e', 'r']
}

pub open spec fn kw_client() -> Seq<char> {
    seq!['c', 'l', 'i', 'e', 'n', 't']
}

pub open spec fn kw_map() -> Seq<char> {
    seq!['M', 'a', 'p']
}

pub open spec fn kw_array() -> Seq<char> {
    seq!['A', 'r', 'r', 'a', 'y']
}

pub open spec fn kw_option() -> Seq<char> {
    seq!['O', 'p', 't', 'i', 'o', 'n']
}

/// The surface keyword of each base type.
pub open spec fn base_keyword(b: BaseType) -> Seq<char> {
    match b {
        BaseType::Bool => seq!['b', 'o', 'o', 'l'],
        BaseType::Int32 => seq!['i', 'n', 't', '3', '2'],
        BaseType::Int64 => seq!['i', 'n', 't', '6', '4'],
        BaseType::UInt32 => seq!['u', 'i', 'n', 't', '3', '2'],
        BaseType::UInt64 => seq!['u', 'i', 'n', 't', '6', '4'],
        BaseType::Float32 => seq!['f', 'l', 'o', 'a', 't', '3', '2'],
        BaseType::Float64 => seq!['f', 'l', 'o', 'a', 't', '6', '4'],
        BaseType::Text => seq!['s', 't', 'r', 'i', 'n', 'g'],
        BaseType::Bytes => seq!['b', 'y', 't', 'e', 's'],
        BaseType::Timestamp => seq!['t', 'i', 'm', 'e', 's', 't', 'a', 'm', 'p'],
    }
}

// ---- character scanners ----------------------------------------------------
/// Position of the first character at or after `i` that is not whitespace.
pub open spec fn skip_sp(s: Seq<char>, i: int) -> int
    decreases s.len() - i,
{
    if 0 <= i < s.len() && is_sp_char(s[i]) {
        skip_sp(s, i + 1)
    } else {
        i
    }
}

/// Position of the first character at or after `i` that is not a space or
/// tab.
pub open spec fn skip_line_sp(s: Seq<char>, i: int) -> int
    decreases s.len() - i,
{
    if 0 <= i < s.len() && is_line_sp_char(s[i]) {
        skip_line_sp(s, i + 1)
    } else {
        i
    }
}

/// Position of the first character at or after `i` that cannot belong to an
/// identifier.
pub open spec fn id_end(s: Seq<char>, i: int) -> int
    decreases s.len() - i,
{
    if 0 <= i < s.len() && is_id_char(s[i]) {
        id_end(s, i + 1)
    } else {
        i
    }
}

/// Position of the line break at or after `i`, or the end of the input.
pub open spec fn line_end(s: Seq<char>, i: int) -> int
    decreases s.len() - i,
{
    if 0 <= i < s.len() && s[i] != '\n' {
        line_end(s, i + 1)
    } else {
        i
    }
}

// ---- identifiers -----------------------------------------------------------
/// One identifier: a non-empty run of identifier characters.
pub open spec fn parse_ident(s: Seq<char>, i: int) -> Option<(IdentV, int)> {
    let e = id_end(s, i);
    if i < e {
        Option::Some((IdentV { pos: i, text: s.subrange(i, e) }, e))
    } else {
        Option::None
    }
}

// ---- comments --------------------------------------------------------------
/// One comment line: optional spaces, `//`, optional spaces, then the text
/// up to a line break. The line break is consumed; a final line without one
/// is not a comment line.
pub open spec fn parse_comment_line(s: Seq<char>, i: int) -> Option<(Seq<char>, int)> {
    let a = skip_line_sp(s, i);
    if has_chars(s, a, seq!['/', '/']) {
        let b = skip_line_sp(s, a + 2);
        let e = line_end(s, b);
        if e < s.len() {
            Option::Some((s.subrange(b, e), e + 1))
        } else {
            Option::None
        }
    } else {
        Option::None
    }
}

/// A block of comment lines on consecutive lines: each line begins right
/// after the previous line's break, with only spaces or tabs before the
/// `//`.
pub open spec fn parse_comment_block(s: Seq<char>, i: int) -> Option<(Seq<Seq<char>>, int)>
    decreases s.len() - i,
{
    match parse_comment_line(s, i) {
        Option::None => Option::None,
        Option::Some((l, j)) => if i < j <= s.len() {
            match parse_comment_block(s, j) {
                Option::Some((rest, k)) => Option::Some((seq![l] + rest, k)),
                Option::None => Option::Some((seq![l], j)),
            }
        } else {
            Option::None
        },
    }
}

/// The comment attached to a declaration. Comment blocks are scanned from
/// `i`; a block followed by a blank line does not attach and is dropped, and
/// only the block immediately preceding the declaration (no blank line in
/// between) attaches. The returned position is where the declaration itself
/// must begin.
pub open spec fn parse_comment_prefix(s: Seq<char>, i: int) -> (Option<CommentV>, int)
    decreases s.len() - i,
{
    let a = skip_sp(s, i);
    match parse_comment_block(s, a) {
        Option::None => (Option::None, a),
        Option::Some((lines, e)) => {
            let c = skip_line_sp(s, e);
            if c < s.len() && s[c] == '\n' {
                if i < c + 1 {
                    parse_comment_prefix(s, c + 1)
                } else {
                    (Option::None, a)
                }
            } else {
                (Option::Some(CommentV { lines }), c)
            }
        },
    }
}

// ---- types -----------------------------------------------------------------
/// The base type whose keyword occurs at `i`, if any.
pub open spec fn parse_base(s: Seq<char>, i: int) -> Option<(BaseType, int)> {
    if kw_at(s, i, base_keyword(BaseType::Bool)) {
        Option::Some((BaseType::Bool, i + 4))
    } else if kw_at(s, i, base_keyword(BaseType::Int32)) {
        Option::Some((BaseType::Int32, i + 5))
    } else if kw_at(s, i, base_keyword(BaseType::Int64)) {
        Option::Some((BaseType::Int64, i + 5))
    } else if kw_at(s, i, base_keyword(BaseType::UInt32)) {
        Option::Some((BaseType::UInt32, i + 6))
    } else if kw_at(s, i, base_keyword(BaseType::UInt64)) {
        Option::Some((BaseType::UInt64, i + 6))
    } else if kw_at(s, i, base_keyword(BaseType::Float32)) {
        Option::Some((BaseType::Float32, i + 7))
    } else if kw_at(s, i, base_keyword(BaseType::Float64)) {
        Option::Some((BaseType::Float64, i + 7))
    } else if kw_at(s, i, base_keyword(BaseType::Text)) {
        Option::Some((BaseType::Text, i + 6))
    } else if kw_at(s, i, base_keyword(BaseType::Bytes)) {
        Option::Some((BaseType::Bytes, i + 5))
    } else if kw_at(s, i, base_keyword(BaseType::Timestamp)) {
        Option::Some((BaseType::Timestamp, i + 9))
    } else {
        Option::None
    }
}

/// `Map` `<` type `,` type `>`, or nothing.
pub open spec fn try_map_type(s: Seq<char>, i: int) -> Option<(TypeV, int)>
    decreases s.len() - i, 0int,
{
    if has_chars(s, i, kw_map()) {
        let a = skip_sp(s, i + 3);
        if a < s.len() && s[a] == '<' {
            let b = skip_sp(s, a + 1);
            if i < b && b <= s.len() {
                match parse_type(s, b) {
                    Option::Some((k, jk)) => {
                        let c = skip_sp(s, jk);
                        if c < s.len() && s[c] == ',' {
                            let d = skip_sp(s, c + 1);
                            if i < d && d <= s.len() {
                                match parse_type(s, d) {
                                    Option::Some((v, jv)) => {
                                        let e = skip_sp(s, jv);
                                        if e < s.len() && s[e] == '>' {
                                            Option::Some(
                                                (
                                                    TypeV {
                                                        pos: i,
                                                        kind: TypeKindV::MapOf(
                                                            Box::new(k),
                                                            Box::new(v),
                                                        ),
                                                    },
                                                    e + 1,
                                                ),
                                            )
                                        } else {
                                            Option::None
                                        }
                                    },
                                    Option::None => Option::None,
                                }
                            } else {
                                Option::None
                            }
                        } else {
                            Option::None
                        }
                    },
                    Option::None => Option::None,
                }
            } else {
                Option::None
            }
        } else {
            Option::None
        }
    } else {
        Option::None
    }
}

/// `Array` `<` type `>`, or nothing.
pub open spec fn try_array_type(s: Seq<char>, i: int) -> Option<(TypeV, int)>
    decreases s.len() - i, 0int,
{
    if has_chars(s, i, kw_array()) {
        let a = skip_sp(s, i + 5);
        if a < s.len() && s[a] == '<' {
            let b = skip_sp(s, a + 1);
            if i < b && b <= s.len() {
                match parse_type(s, b) {
                    Option::Some((t, j)) => {
                        let e = skip_sp(s, j);
                        if e < s.len() && s[e] == '>' {
                            Option::Some(
                                (TypeV { pos: i, kind: TypeKindV::Arr(Box::new(t)) }, e + 1),
                            )
                        } else {
                            Option::None
                        }
                    },
                    Option::None => Option::None,
                }
            } else {
                Option::None
            }
        } else {
            Option::None
        }
    } else {
        Option::None
    }
}

/// `Option` `<` type `>`, or nothing.
pub open spec fn try_option_type(s: Seq<char>, i: int) -> Option<(TypeV, int)>
    decreases s.len() - i, 0int,
{
    if has_chars(s, i, kw_option()) {
        let a = skip_sp(s, i + 6);
        if a < s.len() && s[a] == '<' {
            let b = skip_sp(s, a + 1);
            if i < b && b <= s.len() {
                match parse_type(s, b) {
                    Option::Some((t, j)) => {
                        let e = skip_sp(s, j);
                        if e < s.len() && s[e] == '>' {
                            Option::Some(
                                (TypeV { pos: i, kind: TypeKindV::Opt(Box::new(t)) }, e + 1),
                            )
                        } else {
                            Option::None
                        }
                    },
                    Option::None => Option::None,
                }
            } else {
                Option::None
            }
        } else {
            Option::None
        }
    } else {
        Option::None
    }
}

/// One type expression. The bracketed forms are tried before the base
/// keywords, and a bare identifier is the final fallback, read as a
/// reference to a user-declared type.
pub open spec fn parse_type(s: Seq<char>, i: int) -> Option<(TypeV, int)>
    decreases s.len() - i, 1int,
{
    match try_map_type(s, i) {
        Option::Some(r) => Option::Some(r),
        Option::None => match try_array_type(s, i) {
            Option::Some(r) => Option::Some(r),
            Option::None => match try_option_type(s, i) {
                Option::Some(r) => Option::Some(r),
                Option::None => match parse_base(s, i) {
                    Option::Some((b, j)) => Option::Some(
                        (TypeV { pos: i, kind: TypeKindV::Base(b) }, j),
                    ),
                    Option::None => match parse_ident(s, i) {
                        Option::Some((id, j)) => Option::Some(
                            (TypeV { pos: i, kind: TypeKindV::User(id.text) }, j),
                        ),
                        Option::None => Option::None,
                    },
                },
            },
        },
    }
}

// ---- fields ----------------------------------------------------------------
/// One field: an optional attached comment, a name, `:`, and a type.
pub open spec fn parse_field(s: Seq<char>, i: int) -> Option<(FieldV, int)> {
    let (cmt, a) = parse_comment_prefix(s, i);
    match parse_ident(s, a) {
        Option::None => Option::None,
        Option::Some((name, b)) => {
            let c = skip_sp(s, b);
            if c < s.len() && s[c] == ':' {
                let d = skip_sp(s, c + 1);
                match parse_type(s, d) {
                    Option::Some((t, e)) => Option::Some(
                        (FieldV { pos: a, comment: cmt, name, typ: t }, e),
                    ),
                    Option::None => Option::None,
                }
            } else {
                Option::None
            }
        },
    }
}

/// A possibly empty, comma-separated field list. A comma after the last
/// field is consumed and ignored.
pub open spec fn parse_fields(s: Seq<char>, i: int) -> (Seq<FieldV>, int)
    decreases s.len() - i,
{
    match parse_field(s, i) {
        Option::None => (Seq::empty(), i),
        Option::Some((f, e)) => {
            let c = skip_sp(s, e);
            if c < s.len() && s[c] == ',' && i < c + 1 {
                let (rest, j) = parse_fields(s, c + 1);
                (seq![f] + rest, j)
            } else {
                (seq![f], e)
            }
        },
    }
}

// ---- modifiers and result lists --------------------------------------------
/// The run of `server` and `client` words before a function keyword,
/// collected as a set. The returned position has any surrounding
/// whitespace skipped.
pub open spec fn parse_mods(s: Seq<char>, i: int) -> (ModifierSet, int)
    decreases s.len() - i,
{
    let a = skip_sp(s, i);
    if has_chars(s, a, kw_server()) && i < a + 6 {
        let (m, j) = parse_mods(s, a + 6);
        (ModifierSet { server: true, ..m }, j)
    } else if has_chars(s, a, kw_client()) && i < a + 6 {
        let (m, j) = parse_mods(s, a + 6);
        (ModifierSet { client: true, ..m }, j)
    } else {
        (ModifierSet::spec_empty(), a)
    }
}

/// `->` `(` fields `)`, or nothing.
pub open spec fn parse_results(s: Seq<char>, i: int) -> Option<(Seq<FieldV>, int)> {
    let a = skip_sp(s, i);
    if has_chars(s, a, seq!['-', '>']) {
        let b = skip_sp(s, a + 2);
        if b < s.len() && s[b] == '(' {
            let (fs, c) = parse_fields(s, b + 1);
            let d = skip_sp(s, c);
            if d < s.len() && s[d] == ')' {
                Option::Some((fs, d + 1))
            } else {
                Option::None
            }
        } else {
            Option::None
        }
    } else {
        Option::None
    }
}

// ---- trailing comments -----------------------------------------------------
/// Position after any comment lines and whitespace that trail the items of a
/// namespace body.
pub open spec fn skip_trailing(s: Seq<char>, i: int) -> int
    decreases s.len() - i,
{
    let a = skip_sp(s, i);
    match parse_comment_line(s, a) {
        Option::Some((l, e)) => if i < e {
            skip_trailing(s, e)
        } else {
            a
        },
        Option::None => a,
    }
}

/// The comment lines trailing the last declaration of a module, collected.
pub open spec fn parse_trailing_lines(s: Seq<char>, i: int) -> (Seq<Seq<char>>, int)
    decreases s.len() - i,
{
    let a = skip_sp(s, i);
    match parse_comment_line(s, a) {
        Option::Some((l, e)) => if i < e {
            let (rest, j) = parse_trailing_lines(s, e);
            (seq![l] + rest, j)
        } else {
            (Seq::empty(), a)
        },
        Option::None => (Seq::empty(), a),
    }
}

// ---- declarations ----------------------------------------------------------
/// One namespace item. After an optional attached comment and modifier
/// words, the leading keyword decides the rule; once a keyword has matched,
/// failure to complete that rule fails the whole item rather than trying
/// another rule.
pub open spec fn parse_item(s: Seq<char>, i: int) -> Option<(ItemV, int)>
    decreases s.len() - i, 0int,
{
    let (cmt, a) = parse_comment_prefix(s, i);
    let (mods, b) = parse_mods(s, a);
    if has_chars(s, b, kw_fn()) {
        let d = skip_sp(s, b + 2);
        match parse_ident(s, d) {
            Option::None => Option::None,
            Option::Some((name, e)) => {
                let f = skip_sp(s, e);
                if f < s.len() && s[f] == '(' {
                    let (params, g) = parse_fields(s, f + 1);
                    let h = skip_sp(s, g);
                    if h < s.len() && s[h] == ')' {
                        let (results, k) = match parse_results(s, h + 1) {
                            Option::Some((rs, k)) => (rs, k),
                            Option::None => (Seq::<FieldV>::empty(), h + 1),
                        };
                        let m = skip_sp(s, k);
                        if m < s.len() && s[m] == '{' && i < m + 1 {
                            let (bitems, n) = parse_items(s, m + 1);
                            let t = skip_trailing(s, n);
                            if t < s.len() && s[t] == '}' {
                                Option::Some(
                                    (
                                        ItemV::Function(
                                            FunctionV {
                                                pos: d,
                                                comment: cmt,
                                                modifiers: mods,
                                                name,
                                                params,
                                                results,
                                                body: Option::Some(BodyV { items: bitems }),
                                            },
                                        ),
                                        t + 1,
                                    ),
                                )
                            } else {
                                Option::None
                            }
                        } else {
                            Option::Some(
                                (
                                    ItemV::Function(
                                        FunctionV {
                                            pos: d,
                                            comment: cmt,
                                            modifiers: mods,
                                            name,
                                            params,
                                            results,
                                            body: Option::None,
                                        },
                                    ),
                                    k,
                                ),
                            )
                        }
                    } else {
                        Option::None
                    }
                } else {
                    Option::None
                }
            },
        }
    } else if has_chars(s, b, kw_nf()) {
        let d = skip_sp(s, b + 2);
        match parse_ident(s, d) {
            Option::None => Option::None,
            Option::Some((name, e)) => {
                let f = skip_sp(s, e);
                if f < s.len() && s[f] == '(' {
                    let (params, g) = parse_fields(s, f + 1);
                    let h = skip_sp(s, g);
                    if h < s.len() && s[h] == ')' {
                        // a declared result list is consumed but carries no
                        // meaning: a notification's results are always empty
                        let k = match parse_results(s, h + 1) {
                            Option::Some((rs, k)) => k,
                            Option::None => h + 1,
                        };
                        Option::Some(
                            (
                                ItemV::Function(
                                    FunctionV {
                                        pos: d,
                                        comment: cmt,
                                        modifiers: ModifierSet { notification: true, ..mods },
                                        name,
                                        params,
                                        results: Seq::empty(),
                                        body: Option::None,
                                    },
                                ),
                                k,
                            ),
                        )
                    } else {
                        Option::None
                    }
                } else {
                    Option::None
                }
            },
        }
    } else if has_chars(s, b, kw_struct()) && mods == ModifierSet::spec_empty() {
        let d = skip_sp(s, b + 6);
        match parse_ident(s, d) {
            Option::None => Option::None,
            Option::Some((name, e)) => {
                let f = skip_sp(s, e);
                if f < s.len() && s[f] == '{' {
                    let (fields, g) = parse_fields(s, f + 1);
                    let h = skip_sp(s, g);
                    if h < s.len() && s[h] == '}' {
                        Option::Some(
                            (
                                ItemV::Struct(
                                    StructV { pos: d, comment: cmt, name, fields },
                                ),
                                h + 1,
                            ),
                        )
                    } else {
                        Option::None
                    }
                } else {
                    Option::None
                }
            },
        }
    } else if has_chars(s, b, kw_namespace()) && mods == ModifierSet::spec_empty() {
        let d = skip_sp(s, b + 9);
        match parse_ident(s, d) {
            Option::None => Option::None,
            Option::Some((name, e)) => {
                let f = skip_sp(s, e);
                if f < s.len() && s[f] == '{' && i < f + 1 {
                    let (items, n) = parse_items(s, f + 1);
                    let t = skip_trailing(s, n);
                    if t < s.len() && s[t] == '}' {
                        Option::Some(
                            (
                                ItemV::Namespace(
                                    NamespaceV {
                                        pos: d,
                                        comment: cmt,
                                        name,
                                        body: BodyV { items },
                                    },
                                ),
                                t + 1,
                            ),
                        )
                    } else {
                        Option::None
                    }
                } else {
                    Option::None
                }
            },
        }
    } else {
        Option::None
    }
}

/// The items of a namespace body, in order.
pub open spec fn parse_items(s: Seq<char>, i: int) -> (Seq<ItemV>, int)
    decreases s.len() - i, 1int,
{
    match parse_item(s, i) {
        Option::None => (Seq::empty(), i),
        Option::Some((it, j)) => if i < j && j <= s.len() {
            let (rest, k) = parse_items(s, j);
            (seq![it] + rest, k)
        } else {
            (seq![it], j)
        },
    }
}

/// The top-level namespaces of a module.
pub open spec fn parse_module_items(s: Seq<char>, i: int) -> (Seq<NamespaceV>, int)
    decreases s.len() - i,
{
    match parse_item(s, i) {
        Option::Some((ItemV::Namespace(n), j)) => if i < j && j <= s.len() {
            let (rest, k) = parse_module_items(s, j);
            (seq![n] + rest, k)
        } else {
            (seq![n], j)
        },
        _ => (Seq::empty(), i),
    }
}

/// One whole module: top-level namespaces, the trailing comment lines, and
/// nothing else — text that no rule consumes makes the module ill-formed.
pub open spec fn parse_module(s: Seq<char>) -> Option<ModuleV> {
    let (nss, j) = parse_module_items(s, 0);
    let (trail, k) = parse_trailing_lines(s, j);
    if k == s.len() {
        Option::Some(ModuleV { namespaces: nss, trailing: trail })
    } else {
        Option::None
    }
}

} // verus!
